use mpegts_io::mobj::{MObjCmd, MObjOperand};
use mpegts_io::mobj_asm::{MObjParseError, MObjParseErrorDetails, MObjParseErrorType};
use mpegts_io::SliceReader;

fn assemble_cmd(s: &str) -> String {
    MObjCmd::assemble(s).unwrap().format()
}

fn test_cmd(s: &str) {
    assert_eq!(assemble_cmd(s), s);
}

#[test]
fn test_assemble_operands() {
    test_cmd("goto 1");
    assert_eq!(assemble_cmd("goto /* some comment */ 1"), "goto 1");
    test_cmd("goto r1");
    test_cmd("goto PSR1");
    test_cmd("goto PSR127");
    assert_eq!(
        MObjCmd::assemble("goto PSR128").unwrap_err(),
        MObjParseError::User {
            error: MObjParseErrorDetails {
                start: 5,
                end: 11,
                error_type: MObjParseErrorType::PsrOutOfRange
            }
        }
    );
    test_cmd("goto r4095");
    assert_eq!(
        MObjCmd::assemble("goto r4096").unwrap_err(),
        MObjParseError::User {
            error: MObjParseErrorDetails {
                start: 6,
                end: 10,
                error_type: MObjParseErrorType::GprOutOfRange
            }
        }
    );
    assert_eq!(
        MObjCmd::assemble("goto 999999999999").unwrap_err(),
        MObjParseError::User {
            error: MObjParseErrorDetails {
                start: 5,
                end: 17,
                error_type: MObjParseErrorType::U32OutOfRange
            }
        }
    );
    assert_eq!(
        MObjCmd::assemble("goto -1").unwrap_err(),
        MObjParseError::InvalidToken { location: 5 }
    );
    assert_eq!(assemble_cmd("goto 0x10"), "goto 16");
    assert_eq!(assemble_cmd("goto r0x10"), "goto r16");
    assert_eq!(assemble_cmd("goto PSR0x10"), "goto PSR16");

    test_cmd("set_stream r1, r2, enabled, r3, r4");
    test_cmd("set_stream 1, 2, enabled, r3, r4");
    test_cmd("set_stream r1, r2, enabled, 3, 4");
    test_cmd("set_stream 1, 2, enabled, 3, 4");
    assert_eq!(
        MObjCmd::assemble("set_stream r1, 2, enabled, r3, r4").unwrap_err(),
        MObjParseError::User {
            error: MObjParseErrorDetails {
                start: 11,
                end: 16,
                error_type: MObjParseErrorType::SetStreamOperandTypeMismatch
            }
        }
    );

    test_cmd("set_button_page r1, r2");
    test_cmd("set_button_page 1, r2");
    test_cmd("set_button_page r1, 2");
    test_cmd("set_button_page 1, 2");
    test_cmd("set_button_page r1, r2, skip_out");
}

#[test]
fn test_assemble_cmds() {
    test_cmd("nop");
    test_cmd("goto r1");
    test_cmd("break");

    test_cmd("jump_object r1");
    test_cmd("jump_title r1");
    test_cmd("call_object r1");
    test_cmd("call_title r1");
    test_cmd("resume");

    test_cmd("play_pl r1");
    test_cmd("play_pl_pi r1, r2");
    test_cmd("play_pl_pm r1, r2");
    test_cmd("terminate_pl");
    test_cmd("link_pi r1");
    test_cmd("link_mk r1");

    test_cmd("bc r1, r2");
    test_cmd("eq r1, r2");
    test_cmd("ne r1, r2");
    test_cmd("ge r1, r2");
    test_cmd("gt r1, r2");
    test_cmd("le r1, r2");
    test_cmd("lt r1, r2");

    test_cmd("move r1, r2");
    test_cmd("swap r1, r2");
    test_cmd("add r1, r2");
    test_cmd("sub r1, r2");
    test_cmd("mul r1, r2");
    test_cmd("div r1, r2");
    test_cmd("mod r1, r2");
    test_cmd("rnd r1, r2");
    test_cmd("and r1, r2");
    test_cmd("or r1, r2");
    test_cmd("xor r1, r2");
    test_cmd("bset r1, r2");
    test_cmd("bclr r1, r2");
    test_cmd("shl r1, r2");
    test_cmd("shr r1, r2");

    test_cmd("set_stream r1, r2, enabled, r3, r4");
    test_cmd("set_nv_timer r1, r2");
    test_cmd("set_button_page r1, r2");
    test_cmd("enable_button r1");
    test_cmd("disable_button r1");
    test_cmd("set_sec_stream r1, r2");
    test_cmd("popup_off");
    test_cmd("still_on");
    test_cmd("still_off");
    test_cmd("set_output_mode r1");
    test_cmd("set_stream_ss r1, r2, enabled, r3, r4");
    test_cmd("bd_plus_msg r1, r2");
}

#[test]
fn set_stream_round_trip_scenario() {
    let c = MObjCmd::assemble("set_stream r1, r2, enabled, r3, r4").unwrap();
    assert_eq!(c.format(), "set_stream r1, r2, enabled, r3, r4");
    assert_eq!(c.dst, 0x8001_C002);
    assert_eq!(c.src, 0x8003_8004);
    assert_eq!(assemble_cmd("goto r4095"), "goto r4095");
    // A pair is immediate when either of its slots is: with IG absent the angle still reads
    // back as an immediate.
    let c = MObjCmd::assemble("set_stream none, r2, disabled, none, 5").unwrap();
    assert_eq!(c.format(), "set_stream none, r2, disabled, none, 5");
    assert_eq!(assemble_cmd("set_stream none, 2, enabled, none, none"), "set_stream none, 2, enabled, none, none");
    assert_eq!(MObjCmd::assemble(&c.format()).unwrap().to_bytes(), c.to_bytes());
    assert_eq!(assemble_cmd("set_button_page none, 7, skip_out"), "set_button_page none, 7, skip_out");
}

#[test]
fn encode_then_decode_keeps_format() {
    for text in ["goto r4095", "set_stream 1, 2, enabled, 3, 4", "set_button_page r1, 2, skip_out", "lt PSR3, 9", "nop"] {
        let c = MObjCmd::assemble(text).unwrap();
        let bytes = c.to_bytes();
        assert_eq!(bytes.len(), 12);
        let mut reader = SliceReader::new(&bytes);
        let d = MObjCmd::parse(&mut reader).unwrap();
        assert_eq!(d, c);
        assert_eq!(d.format(), c.format());
        let again = MObjCmd::assemble(&c.format()).unwrap();
        assert_eq!(again.to_bytes(), bytes);
    }
}

#[test]
fn decode_known_words() {
    // goto r1: op_cnt 1, branch group, goto sub-group, option 1.
    let bytes = [0x20, 0x01, 0x00, 0x00, 0, 0, 0, 1, 0, 0, 0, 0];
    let mut reader = SliceReader::new(&bytes);
    let c = MObjCmd::parse(&mut reader).unwrap();
    assert_eq!(c.inst.op_cnt, 1);
    assert_eq!(c.inst.branch_opt, 1);
    assert_eq!(c.mnemonic(), "goto");
    assert_eq!(c.format(), "goto r1");
    assert_eq!(reader.remaining_len(), 0);
}

#[test]
fn decode_bad_group_is_an_error() {
    let bytes = [0x18, 0, 0, 0, 0, 0, 0, 0, 0, 0, 0, 0];
    let mut reader = SliceReader::new(&bytes);
    let e = MObjCmd::parse(&mut reader).unwrap_err();
    assert_eq!(
        e.details,
        mpegts_io::ErrorDetails::AppError(mpegts_io::BdavErrorDetails::BadMObjCommand(
            mpegts_io::MObjCmdErrorDetails::UnknownMObjGroup(3)
        ))
    );
}

#[test]
fn assembler_reports_grammar_errors() {
    assert_eq!(
        MObjCmd::assemble("frobnicate r1").unwrap_err(),
        MObjParseError::UnrecognizedToken { start: 0, end: 10 }
    );
    assert_eq!(
        MObjCmd::assemble("move r1,").unwrap_err(),
        MObjParseError::UnrecognizedEof { location: 8 }
    );
    assert_eq!(
        MObjCmd::assemble("goto 1 /* open").unwrap_err(),
        MObjParseError::InvalidToken { location: 7 }
    );
    assert_eq!(
        MObjCmd::assemble("set_stream r1, r2, enabled, r3, 4").unwrap_err(),
        MObjParseError::User {
            error: MObjParseErrorDetails {
                start: 28,
                end: 33,
                error_type: MObjParseErrorType::SetStreamOperandTypeMismatch
            }
        }
    );
}

#[test]
fn psr_comments_name_known_registers() {
    assert_eq!(MObjOperand::Psr(4).psr_comment(), "/* Title number */");
    assert_eq!(MObjOperand::Psr(20).psr_comment(), "/* RO: Region code */ /* 1 - A, 2 - B, 4 - C */");
    assert_eq!(MObjOperand::Psr(33).psr_comment(), "");
    assert_eq!(MObjOperand::Gpr(4).psr_comment(), "");
}

#[test]
fn error_spans() {
    assert_eq!(MObjCmd::assemble("goto PSR128").unwrap_err().span(), (5, 11));
    assert_eq!(MObjCmd::assemble("goto -1").unwrap_err().span(), (5, 5));
    assert_eq!(MObjCmd::assemble("").unwrap_err(), MObjParseError::UnrecognizedEof { location: 0 });
}
