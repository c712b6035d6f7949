use mpegts_io::psi::PsiData;
use mpegts_io::{
    BdavParser, Error, ErrorDetails, MpegTsParser, Payload, PesUnitData, PesUnitKind, SliceReader,
    TransportScramblingControl,
};

fn crc32_mpeg2(bytes: &[u8]) -> u32 {
    crc::Crc::<u32>::new(&crc::CRC_32_MPEG_2).checksum(bytes)
}

/// A 188-byte packet on PID 0 holding a PAT with one program: 1 -> 0x1000.
fn pat_packet() -> [u8; 188] {
    let mut p = [0xffu8; 188];
    p[..4].copy_from_slice(&[0x47, 0x40, 0x00, 0x10]);
    p[4] = 0; // pointer field
    let section = [0x00, 0xb0, 0x0d, 0x00, 0x01, 0xc1, 0x00, 0x00, 0x00, 0x01, 0xf0, 0x00];
    p[5..17].copy_from_slice(&section);
    let crc = crc32_mpeg2(&section);
    p[17..21].copy_from_slice(&crc.to_be_bytes());
    p
}

#[test]
fn null_packet_is_header_only() {
    let mut p = [0xffu8; 188];
    p[..4].copy_from_slice(&[0x47, 0x1f, 0xff, 0x10]);
    let mut parser = MpegTsParser::default();
    let pk = parser.parse(&p).unwrap();
    assert_eq!(pk.header.sync_byte, 0x47);
    assert_eq!(pk.header.pid, 0x1fff);
    assert!(pk.adaptation_field.is_none());
    assert!(pk.payload.is_none());
}

#[test]
fn lost_sync_is_reported() {
    let mut p = [0u8; 188];
    p[0] = 0x48;
    let mut parser = MpegTsParser::new();
    let e = parser.parse(&p).unwrap_err();
    assert_eq!(e, Error { location: 4, details: ErrorDetails::LostSync });
}

#[test]
fn pat_with_one_program() {
    let p = pat_packet();
    let mut parser = MpegTsParser::new();
    assert!(!parser.is_known_pmt_pid(0x1000));
    let pk = parser.parse(&p).unwrap();
    assert!(pk.header.pusi);
    match pk.payload {
        Some(Payload::Psi(psi)) => {
            assert_eq!(psi.header.table_id, 0);
            assert_eq!(psi.header.section_length, 0x0d);
            assert_eq!(psi.table_syntax.unwrap().table_id_extension, 1);
            match psi.data {
                PsiData::Pat(entries) => {
                    assert_eq!(entries.len(), 1);
                    assert_eq!(entries[0].program_num, 1);
                    assert_eq!(entries[0].program_map_pid, 0x1000);
                }
                _ => panic!("expected a PAT"),
            }
        }
        _ => panic!("expected a PSI payload"),
    }
    assert!(parser.is_known_pmt_pid(0x1000));
}

#[test]
fn crc_of_section_with_trailer_is_zero() {
    let p = pat_packet();
    assert_eq!(crc32_mpeg2(&p[5..21]), 0);
}

#[test]
fn crc_mismatch_leaves_state_unchanged() {
    let mut p = pat_packet();
    p[20] ^= 0xff;
    let mut parser = MpegTsParser::new();
    let e = parser.parse(&p).unwrap_err();
    assert_eq!(e, Error { location: 5, details: ErrorDetails::PsiCrcMismatch });
    assert!(!parser.is_known_pmt_pid(0x1000));
    assert!(!parser.has_pending(0));
}

fn ts_header(pid: u16, pusi: bool, adaptation: bool, cc: u8) -> [u8; 4] {
    [
        0x47,
        (if pusi { 0x40 } else { 0 }) | ((pid >> 8) as u8 & 0x1f),
        pid as u8,
        (if adaptation { 0x30 } else { 0x10 }) | (cc & 0xf),
    ]
}

#[test]
fn pes_spanning_three_packets() {
    let pid = 0x100;
    let mut unit = vec![0x00, 0x00, 0x01, 0xe0, 0x01, 0x90, 0x80, 0x80, 0x05, 0x21, 0x00, 0x01, 0x00, 0x01];
    let data_len = 400 - 3 - 5;
    for i in 0..data_len {
        unit.push(i as u8);
    }
    assert_eq!(unit.len(), 6 + 400);
    let mut parser = MpegTsParser::new();

    let mut p1 = [0u8; 188];
    p1[..4].copy_from_slice(&ts_header(pid, true, false, 0));
    p1[4..].copy_from_slice(&unit[..184]);
    let r1 = parser.parse(&p1).unwrap();
    assert!(matches!(r1.payload, Some(Payload::PesPending)));
    assert!(parser.has_pending(pid));

    let mut p2 = [0u8; 188];
    p2[..4].copy_from_slice(&ts_header(pid, false, false, 1));
    p2[4..].copy_from_slice(&unit[184..368]);
    let r2 = parser.parse(&p2).unwrap();
    assert!(matches!(r2.payload, Some(Payload::PesPending)));

    let rest = &unit[368..];
    assert_eq!(rest.len(), 38);
    let mut p3 = [0xffu8; 188];
    p3[..4].copy_from_slice(&ts_header(pid, false, true, 2));
    p3[4] = (184 - 38 - 1) as u8;
    p3[5] = 0x00;
    p3[150..].copy_from_slice(rest);
    let r3 = parser.parse(&p3).unwrap();
    let af = r3.adaptation_field.unwrap();
    assert_eq!(af.header.length, 145);
    match r3.payload {
        Some(Payload::Pes(pes)) => {
            assert_eq!(pes.header.packet_length, 400);
            assert_eq!(pes.optional_header.unwrap().additional_header_length, 5);
            assert!(pes.pts.is_some());
            assert!(pes.dts.is_none());
            match pes.data {
                PesUnitData::Raw(v) => {
                    assert_eq!(v.len(), 400 - 3 - 5);
                    assert_eq!(v[..], unit[14..]);
                }
                _ => panic!("expected raw PES data"),
            }
        }
        _ => panic!("expected a complete PES unit"),
    }
    assert!(!parser.has_pending(pid));
}

#[test]
fn timestamp_formula() {
    // PTS of 0x1_2345_6789 packed with marker bits.
    let ts: u64 = 0x1_2345_6789;
    let b = [
        0x21 | (((ts >> 30) as u8 & 0x7) << 1),
        (ts >> 22) as u8,
        (((ts >> 15) as u8) << 1) | 1,
        (ts >> 7) as u8,
        ((ts as u8) << 1) | 1,
    ];
    assert_eq!(mpegts_io::pes::parse_timestamp(&b), ts);
}

#[test]
fn pcr_formula() {
    let b = [0x12, 0x34, 0x56, 0x78, 0x9b, 0xcd];
    let pcr = mpegts_io::parser::parse_pcr(&b);
    assert_eq!(pcr.base, (0x12345678u64 << 1) | 1);
    assert_eq!(pcr.extension, 0x1cd);
}

#[test]
fn continuation_without_start_is_raw() {
    let mut p = [0xaau8; 188];
    p[..4].copy_from_slice(&ts_header(0x200, false, false, 0));
    let mut parser = MpegTsParser::new();
    match parser.parse(&p).unwrap().payload {
        Some(Payload::Raw(r)) => assert_eq!(r.remaining_len(), 184),
        _ => panic!("expected raw payload"),
    }
}

#[test]
fn bad_adaptation_length() {
    let mut p = [0u8; 188];
    p[..4].copy_from_slice(&ts_header(0x200, false, true, 0));
    p[4] = 184;
    let mut parser = MpegTsParser::new();
    let e = parser.parse(&p).unwrap_err();
    assert_eq!(e.details, ErrorDetails::BadAdaptationHeader);
}

#[test]
fn scrambling_control_decodes() {
    let mut p = [0xffu8; 188];
    p[..4].copy_from_slice(&[0x47, 0x1f, 0xff, 0xd0]);
    let mut parser = MpegTsParser::new();
    let pk = parser.parse(&p).unwrap();
    assert_eq!(pk.header.tsc, TransportScramblingControl::ScrambledOddKey);
}

#[test]
fn bdav_passthrough() {
    let mut b = [0u8; 192];
    b[4..].copy_from_slice(&pat_packet());
    let mut parser = BdavParser::default();
    let pk = parser.parse(&b).unwrap();
    assert_eq!(pk.header.cpi, 0);
    assert_eq!(pk.header.timestamp, 0);
    match pk.packet.payload {
        Some(Payload::Psi(psi)) => assert!(matches!(psi.data, PsiData::Pat(ref v) if v.len() == 1 && v[0].program_map_pid == 0x1000)),
        _ => panic!("expected a PAT"),
    }
    assert!(parser.is_known_pmt_pid(0x1000));
}

#[test]
fn slice_reader_primitives() {
    let data = [0x12, 0x34, 0x56, 0x78, 0x9a, 0xff, 0x01];
    let mut r = SliceReader::new(&data);
    assert_eq!(r.read_be_u16().unwrap(), 0x1234);
    assert_eq!(r.read_be_u24().unwrap(), 0x56789a);
    assert_eq!(r.peek(2).unwrap(), &[0xff, 0x01]);
    assert_eq!(r.read_u8().unwrap(), 0xff);
    let e = r.read_be_u32().unwrap_err();
    assert_eq!(e, Error { location: 6, details: ErrorDetails::PacketOverrun(4) });
    let mut r2 = SliceReader::new(&[0xff, 1, 2, 3, 4]);
    assert_eq!(r2.read_be_u33().unwrap(), 0x1_0102_0304);
    let mut r3 = SliceReader::new(&data);
    r3.skip(2).unwrap();
    let mut sub = r3.new_sub_reader(3).unwrap();
    assert_eq!(r3.remaining_len(), 2);
    assert_eq!(sub.read_to_end().unwrap(), &[0x56, 0x78, 0x9a]);
    let mut empty = sub;
    assert_eq!(empty.read_u8().unwrap_err(), Error { location: 5, details: ErrorDetails::PacketOverrun(1) });
}

#[test]
fn registered_pid_decodes_graphics_segments() {
    let pid = 0x300;
    let mut parser = MpegTsParser::new();
    parser.register_pes_unit_factory(pid, PesUnitKind::PgSegments);
    // PES: packet_length 3 + 0 + 13, no optional fields, then one window segment.
    let segment = [0x17, 0x00, 0x0a, 0x01, 0x05, 0x00, 0x10, 0x00, 0x20, 0x01, 0x00, 0x00, 0x40];
    let mut unit = vec![0x00, 0x00, 0x01, 0xbd, 0x00, (3 + segment.len()) as u8, 0x80, 0x00, 0x00];
    unit.extend_from_slice(&segment);
    let mut p = [0xffu8; 188];
    p[..4].copy_from_slice(&ts_header(pid, true, false, 0));
    p[4..4 + unit.len()].copy_from_slice(&unit);
    match parser.parse(&p).unwrap().payload {
        Some(Payload::Pes(pes)) => match pes.data {
            PesUnitData::Pg(mpegts_io::pg::PgSegmentData::PgsWindow(w)) => assert_eq!(w.windows[0].id, 5),
            _ => panic!("expected a decoded window segment"),
        },
        _ => panic!("expected a complete PES unit"),
    }
}

#[test]
fn array_reads() {
    let data = [1u8, 2, 3, 4, 5];
    let mut r = SliceReader::new(&data);
    assert_eq!(r.peek_array::<2>().unwrap(), [1, 2]);
    assert_eq!(r.read_array::<3>().unwrap(), [1, 2, 3]);
    assert_eq!(r.remaining_len(), 2);
    assert_eq!(r.read_array::<3>().unwrap_err(), Error { location: 3, details: ErrorDetails::PacketOverrun(3) });
}
