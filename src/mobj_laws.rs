use crate::mobj::{
    bit, set_button_page_text, slot_text, text_none, text_skip_out,
    cmd_bytes, cmd_mnemonic_of, cmd_of_bytes, cmd_opcode_of, dec, format_seq, lemma_be_bytes,
    lemma_inst_word_round_trip, lookup_op, mnemonic_of, op_group, op_named, op_option,
    op_sub_group, operand_of, operand_text, operand_word, text_comma, text_psr, text_r,
    text_space, MObjCmd, MObjOpcode, MObjOperand,
};
use crate::mobj_asm::{
    assemble_spec, dec_value, digit_class, generic_cmd, hex_prefix, is_digit, is_number_text,
    is_word_char, is_word_start, lex_from, lex_prepend, num_value, number_end, operand_at,
    operand_spec, parse_generic, parse_set_button_page, parse_spec, run_end, tok_in, tok_text,
    word_class, MObjParseError, Token, TokenKind, page_slot, set_button_page_cmd, opt_operand_spec,
    opt_operand_at, comma_err, is_word,
};
use crate::slice_reader::be32;
use vstd::prelude::*;

verus! {

/// A run of bytes satisfying `f` from `i` to `j`, ended by the text or by a byte that does not,
/// ends where `run_end` says.
proof fn lemma_run_end(s: Seq<u8>, i: int, j: int, f: spec_fn(u8) -> bool)
    requires
        0 <= i <= j <= s.len(),
        forall|k: int| i <= k < j ==> f(#[trigger] s[k]),
        j == s.len() || !f(s[j]),
    ensures
        run_end(s, i, f) == j,
    decreases j - i,
{
    if i < j {
        lemma_run_end(s, i + 1, j, f);
    }
}

/// Decimal digits are digits, at least one of them.
proof fn lemma_dec_digits(n: nat)
    ensures
        dec(n).len() >= 1,
        forall|k: int| 0 <= k < dec(n).len() ==> is_digit(#[trigger] dec(n)[k]),
        n >= 10 ==> dec(n)[0] != 0x30,
        n < 10 ==> dec(n).len() == 1,
    decreases n,
{
    if n >= 10 {
        lemma_dec_digits(n / 10);
        assert forall|k: int| 0 <= k < dec(n).len() implies is_digit(#[trigger] dec(n)[k]) by {
            if k < dec(n / 10).len() {
                assert(dec(n)[k] == dec(n / 10)[k]);
            }
        }
        if n / 10 >= 10 {
        } else {
            assert(dec(n / 10)[0] == (0x30 + n / 10) as u8);
        }
    }
}

/// The digits of `n`, wherever they stand in a text, read back as `n`.
proof fn lemma_dec_value(s: Seq<u8>, p: int, n: nat)
    requires
        0 <= p,
        p + dec(n).len() <= s.len(),
        s.subrange(p, p + dec(n).len()) == dec(n),
    ensures
        dec_value(s, p, p + dec(n).len()) == n,
    decreases n,
{
    let q = p + dec(n).len();
    if n < 10 {
        assert(s[p] == dec(n)[0]);
        assert(dec_value(s, p, p) == 0);
    } else {
        let m = dec(n / 10);
        assert(dec(n) == m.push((0x30 + n % 10) as u8));
        assert(s.subrange(p, p + m.len()) =~= m) by {
            assert forall|k: int| 0 <= k < m.len() implies s.subrange(p, p + m.len())[k] == m[k] by {
                assert(s.subrange(p, q)[k] == dec(n)[k]);
            }
        }
        lemma_dec_value(s, p, n / 10);
        assert(s[q - 1] == dec(n)[dec(n).len() - 1]);
        assert(dec_value(s, p, q) == dec_value(s, p, q - 1) * 10 + (s[q - 1] - 0x30));
    }
}

/// Operands the assembler accepts: GPR 0..=4095, PSR 0..=127, any immediate.
pub open spec fn valid_operand(op: MObjOperand) -> bool {
    match op {
        MObjOperand::Gpr(v) => v <= 4095,
        MObjOperand::Psr(v) => v <= 127,
        MObjOperand::Imm(_) => true,
    }
}

/// The token that an operand's text at `p..q` lexes to.
pub open spec fn operand_token(op: MObjOperand, p: int, q: int) -> Token {
    Token {
        kind: match op {
            MObjOperand::Imm(v) => TokenKind::Number(Some(v)),
            _ => TokenKind::Word,
        },
        start: p as usize,
        end: q as usize,
    }
}

/// A byte that may follow a token in formatted text.
pub open spec fn separator(s: Seq<u8>, q: int) -> bool {
    q == s.len() || (0 <= q < s.len() && (s[q] == 0x2c || s[q] == 0x20))
}

/// An operand's text, followed by a separator, lexes to one token that reads back as the
/// operand.
proof fn lemma_lex_operand(s: Seq<u8>, p: int, op: MObjOperand)
    requires
        valid_operand(op),
        0 <= p,
        p + operand_text(op).len() <= s.len() <= usize::MAX,
        s.subrange(p, p + operand_text(op).len()) == operand_text(op),
        separator(s, p + operand_text(op).len()),
    ensures
        ({
            let q = p + operand_text(op).len();
            &&& lex_from(s, p) == lex_prepend(operand_token(op, p, q), lex_from(s, q))
            &&& operand_spec(s, operand_token(op, p, q)) == Ok::<MObjOperand, crate::mobj_asm::MObjParseError>(op)
        }),
{
    reveal(lex_from);
    let t = operand_text(op);
    let q = p + t.len();
    assert forall|k: int| p <= k < q implies s[k] == t[k - p] by {
        assert(s.subrange(p, q)[k - p] == s[k]);
    }
    match op {
        MObjOperand::Imm(v) => {
            lemma_dec_digits(v as nat);
            assert(t == dec(v as nat));
            assert forall|k: int| p <= k < q implies (digit_class())(#[trigger] s[k]) by {
                assert(is_digit(t[k - p]));
            }
            assert(!(p + 2 < s.len() && s[p] == 0x30 && s[p + 1] == 0x78 && crate::mobj_asm::is_hex(s[p + 2]))) by {
                if p + 2 < s.len() && s[p] == 0x30 && s[p + 1] == 0x78 {
                    if v >= 10 {
                        assert(s[p] == t[0]);
                    } else {
                        assert(q == p + 1);
                    }
                }
            }
            lemma_run_end(s, p, q, digit_class());
            assert(number_end(s, p) == q);
            assert(!hex_prefix(s, p, q)) by {
                if q - p >= 3 {
                    assert(is_digit(t[1]));
                    assert(s[p + 1] == t[1]);
                }
            }
            lemma_dec_value(s, p, v as nat);
            assert(num_value(s, p, q) == v);
            assert(is_digit(s[p]));
        },
        MObjOperand::Gpr(v) => {
            lemma_dec_digits(v as nat);
            let d = dec(v as nat);
            assert(t == text_r() + d);
            assert forall|k: int| p < k < q implies (word_class())(#[trigger] s[k]) by {
                assert(t[k - p] == d[k - p - 1]);
                assert(is_digit(d[k - p - 1]));
            }
            lemma_run_end(s, p + 1, q, word_class());
            assert(s.subrange(p + 1, q) =~= d);
            lemma_dec_value(s, p + 1, v as nat);
            assert forall|k: int| p + 1 <= k < q implies is_digit(#[trigger] s[k]) by {
                assert(s[k] == d[k - p - 1]);
            }
            assert(!hex_prefix(s, p + 1, q)) by {
                if q - p - 1 >= 3 {
                    assert(is_digit(s[p + 2]));
                }
            }
            assert(is_number_text(s, p + 1, q));
            assert(s[p] == t[0]);
        },
        MObjOperand::Psr(v) => {
            lemma_dec_digits(v as nat);
            let d = dec(v as nat);
            assert(t == text_psr() + d);
            assert forall|k: int| p < k < q implies (word_class())(#[trigger] s[k]) by {
                if k - p < 3 {
                    assert(t[k - p] == text_psr()[k - p]);
                } else {
                    assert(t[k - p] == d[k - p - 3]);
                    assert(is_digit(d[k - p - 3]));
                }
            }
            lemma_run_end(s, p + 1, q, word_class());
            assert(s.subrange(p + 3, q) =~= d);
            lemma_dec_value(s, p + 3, v as nat);
            assert forall|k: int| p + 3 <= k < q implies is_digit(#[trigger] s[k]) by {
                assert(s[k] == d[k - p - 3]);
            }
            assert(!hex_prefix(s, p + 3, q)) by {
                if q - p - 3 >= 3 {
                    assert(is_digit(s[p + 4]));
                }
            }
            assert(is_number_text(s, p + 3, q));
            assert(s.subrange(p, p + 3) =~= text_psr());
            assert(s[p] == t[0]);
        },
    }
}

/// Whether `w` is a word token's text: a letter or `_`, then letters, digits and `_`.
pub open spec fn is_word_text(w: Seq<u8>) -> bool {
    &&& w.len() >= 1
    &&& is_word_start(w[0])
    &&& forall|k: int| 0 <= k < w.len() ==> is_word_char(#[trigger] w[k])
}

/// A word followed by a separator lexes to one word token.
proof fn lemma_lex_word(s: Seq<u8>, p: int, w: Seq<u8>)
    requires
        is_word_text(w),
        0 <= p,
        p + w.len() <= s.len() <= usize::MAX,
        s.subrange(p, p + w.len()) == w,
        separator(s, p + w.len()),
    ensures
        lex_from(s, p) == lex_prepend(
            Token { kind: TokenKind::Word, start: p as usize, end: (p + w.len()) as usize },
            lex_from(s, p + w.len()),
        ),
        tok_text(s, Token { kind: TokenKind::Word, start: p as usize, end: (p + w.len()) as usize }) == w,
{
    reveal(lex_from);
    let q = p + w.len();
    assert forall|k: int| p + 1 <= k < q implies (word_class())(#[trigger] s[k]) by {
        assert(s.subrange(p, q)[k - p] == s[k]);
    }
    lemma_run_end(s, p + 1, q, word_class());
    assert(s[p] == s.subrange(p, q)[0]);
}

/// A space is skipped.
proof fn lemma_lex_space(s: Seq<u8>, p: int)
    requires
        0 <= p < s.len(),
        s[p] == 0x20,
    ensures
        lex_from(s, p) == lex_from(s, p + 1),
{
    reveal(lex_from);
}

/// A comma is a token.
proof fn lemma_lex_comma(s: Seq<u8>, p: int)
    requires
        0 <= p < s.len() <= usize::MAX,
        s[p] == 0x2c,
    ensures
        lex_from(s, p) == lex_prepend(
            Token { kind: TokenKind::Comma, start: p as usize, end: (p + 1) as usize },
            lex_from(s, p + 1),
        ),
{
    reveal(lex_from);
}

/// Nothing is left at the end.
proof fn lemma_lex_end(s: Seq<u8>)
    ensures
        lex_from(s, s.len() as int) == Ok::<Seq<Token>, MObjParseError>(Seq::empty()),
{
    reveal(lex_from);
}

/// Every mnemonic is a word, and names its operation.
proof fn lemma_mnemonic(op: MObjOpcode)
    ensures
        1 <= mnemonic_of(op).len() <= 15,
        is_word_text(mnemonic_of(op)),
        op_named(mnemonic_of(op)) == Some(op),
{
    reveal(mnemonic_of);
    reveal(op_named);
    assert(is_word_text(mnemonic_of(op)));
    assert(op_named(mnemonic_of(op)) == Some(op));
}

/// A valid operand's word reads back as the operand.
proof fn lemma_operand_word(a: MObjOperand)
    requires
        valid_operand(a),
    ensures
        operand_of(operand_word(a), a is Imm) == a,
{
    match a {
        MObjOperand::Gpr(v) => {
            assert(v <= 4095 ==> v & 0x80000000 == 0 && v & 0xfff == v) by (bit_vector);
        },
        MObjOperand::Psr(v) => {
            assert(v <= 127 ==> (0x80000000 | v) & 0x80000000 != 0 && (0x80000000 | v) & 0x7f == v) by (bit_vector);
        },
        MObjOperand::Imm(v) => {},
    }
}

spec fn ten_pow(k: nat) -> nat
    decreases k,
{
    if k == 0 {
        1
    } else {
        10 * ten_pow((k - 1) as nat)
    }
}

proof fn lemma_dec_len_bound(n: nat, k: nat)
    requires
        k >= 1,
        n < ten_pow(k),
    ensures
        dec(n).len() <= k,
    decreases k,
{
    if n >= 10 {
        assert(k >= 2) by {
            if k == 1 {
                assert(ten_pow(1) == 10 * ten_pow(0));
            }
        }
        let k1 = (k - 1) as nat;
        assert(ten_pow(k) == 10 * ten_pow(k1));
        assert(n / 10 < ten_pow(k1)) by (nonlinear_arith)
            requires
                n < 10 * ten_pow(k1),
        ;
        lemma_dec_len_bound(n / 10, k1);
    }
}

/// A `u32` has at most ten decimal digits.
proof fn lemma_dec_u32(v: u32)
    ensures
        dec(v as nat).len() <= 10,
{
    reveal_with_fuel(ten_pow, 11);
    assert(ten_pow(10) == 10000000000);
    lemma_dec_len_bound(v as nat, 10);
}

/// Operand text is at most thirteen bytes.
proof fn lemma_operand_text_len(op: MObjOperand)
    ensures
        1 <= operand_text(op).len() <= 13,
{
    match op {
        MObjOperand::Gpr(v) => {
            lemma_dec_u32(v);
            lemma_dec_digits(v as nat);
        },
        MObjOperand::Psr(v) => {
            lemma_dec_u32(v);
            lemma_dec_digits(v as nat);
        },
        MObjOperand::Imm(v) => {
            lemma_dec_u32(v);
            lemma_dec_digits(v as nat);
        },
    }
}

/// The fields that the assembler writes for an operation select that operation.
proof fn lemma_lookup(op: MObjOpcode)
    ensures
        lookup_op(
            op_group(op),
            op_sub_group(op),
            if op_group(op) == 0 { op_option(op) } else { 0 },
            if op_group(op) == 1 { op_option(op) } else { 0 },
            if op_group(op) == 2 { op_option(op) } else { 0 },
        ) == Ok::<MObjOpcode, crate::error::MObjCmdErrorDetails>(op),
{
}

/// The opcode and mnemonic of a generic command.
proof fn lemma_generic_opcode(op: MObjOpcode, n: u8, a: Option<MObjOperand>, b: Option<MObjOperand>)
    ensures
        cmd_opcode_of(generic_cmd(op, n, a, b)) == Ok::<MObjOpcode, crate::error::MObjCmdErrorDetails>(op),
        cmd_mnemonic_of(generic_cmd(op, n, a, b)) == mnemonic_of(op),
{
    lemma_lookup(op);
}

/// The text of a generic command.
proof fn lemma_generic_text(op: MObjOpcode, n: u8, a: Option<MObjOperand>, b: Option<MObjOperand>)
    requires
        op != MObjOpcode::SetStream && op != MObjOpcode::SetStreamSs && op != MObjOpcode::SetButtonPage,
        (n == 0 && a is None && b is None) || (n == 1 && a is Some && b is None) || (n == 2 && a is Some && b is Some),
        a matches Some(x) ==> valid_operand(x),
        b matches Some(x) ==> valid_operand(x),
    ensures
        n == 0 ==> format_seq(generic_cmd(op, n, a, b)) == mnemonic_of(op),
        n == 1 ==> format_seq(generic_cmd(op, n, a, b)) == mnemonic_of(op) + text_space() + operand_text(a->Some_0),
        n == 2 ==> format_seq(generic_cmd(op, n, a, b)) == mnemonic_of(op) + text_space() + operand_text(a->Some_0)
            + text_comma() + operand_text(b->Some_0),
{
    reveal(format_seq);
    let c = generic_cmd(op, n, a, b);
    lemma_generic_opcode(op, n, a, b);
    if n >= 1 {
        lemma_operand_word(a->Some_0);
    }
    if n == 2 {
        lemma_operand_word(b->Some_0);
    }
}

/// The token of a word at the start of a text.
pub open spec fn word_token(p: int, q: int) -> Token {
    Token { kind: TokenKind::Word, start: p as usize, end: q as usize }
}

/// Formatting a command of the generic form and assembling the text gives the command back.
proof fn lemma_generic_round_trip(op: MObjOpcode, n: u8, a: Option<MObjOperand>, b: Option<MObjOperand>)
    requires
        op != MObjOpcode::SetStream && op != MObjOpcode::SetStreamSs && op != MObjOpcode::SetButtonPage,
        (n == 0 && a is None && b is None) || (n == 1 && a is Some && b is None) || (n == 2 && a is Some && b is Some),
        a matches Some(x) ==> valid_operand(x),
        b matches Some(x) ==> valid_operand(x),
    ensures
        assemble_spec(format_seq(generic_cmd(op, n, a, b))) == Ok::<MObjCmd, MObjParseError>(generic_cmd(op, n, a, b)),
{
    let c = generic_cmd(op, n, a, b);
    lemma_generic_text(op, n, a, b);
    lemma_mnemonic(op);
    let m = mnemonic_of(op);
    let s = format_seq(c);
    let w0 = word_token(0, m.len() as int);
    if n == 0 {
        assert(s.subrange(0, m.len() as int) =~= m);
        lemma_lex_word(s, 0, m);
        lemma_lex_end(s);
        assert(seq![w0] + Seq::<Token>::empty() =~= seq![w0]);
        assert(lex_from(s, 0) == Ok::<Seq<Token>, MObjParseError>(seq![w0]));
    } else if n == 1 {
        lemma_generic_round_trip_1(op, a->Some_0);
    } else {
        lemma_generic_round_trip_2(op, a->Some_0, b->Some_0);
    }
}

#[verifier::rlimit(100)]
proof fn lemma_generic_round_trip_1(op: MObjOpcode, x: MObjOperand)
    requires
        op != MObjOpcode::SetStream && op != MObjOpcode::SetStreamSs && op != MObjOpcode::SetButtonPage,
        valid_operand(x),
    ensures
        assemble_spec(format_seq(generic_cmd(op, 1, Some(x), None))) == Ok::<MObjCmd, MObjParseError>(generic_cmd(op, 1, Some(x), None)),
{
    let c = generic_cmd(op, 1, Some(x), None);
    lemma_generic_text(op, 1, Some(x), None);
    lemma_mnemonic(op);
    lemma_operand_text_len(x);
    let m = mnemonic_of(op);
    let ta = operand_text(x);
    let s = format_seq(c);
    let p1: int = m.len() as int + 1;
    let q1: int = p1 + ta.len();
    let w0 = word_token(0, m.len() as int);
    let t1 = operand_token(x, p1, q1);
    assert(s.subrange(0, m.len() as int) =~= m);
    assert(s.subrange(p1, q1) =~= ta);
    lemma_lex_word(s, 0, m);
    lemma_lex_operand(s, p1, x);
    lemma_lex_space(s, m.len() as int);
    assert(s.len() == q1);
    lemma_lex_end(s);
    assert(seq![w0] + (seq![t1] + Seq::<Token>::empty()) =~= seq![w0, t1]);
    assert(lex_from(s, 0) == Ok::<Seq<Token>, MObjParseError>(seq![w0, t1]));
    assert(parse_generic(s, seq![w0, t1], op) == Ok::<MObjCmd, MObjParseError>(c));
}

/// The tokens of `m x, y` for a word `m` and operands `x` and `y`.
pub open spec fn two_operand_tokens(m: Seq<u8>, x: MObjOperand, y: MObjOperand) -> Seq<Token> {
    let p1: int = m.len() as int + 1;
    let q1: int = p1 + operand_text(x).len();
    let p2: int = q1 + 2;
    let q2: int = p2 + operand_text(y).len();
    seq![
        word_token(0, m.len() as int),
        operand_token(x, p1, q1),
        Token { kind: TokenKind::Comma, start: q1 as usize, end: (q1 + 1) as usize },
        operand_token(y, p2, q2),
    ]
}

#[verifier::rlimit(100)]
proof fn lemma_lex_two(m: Seq<u8>, x: MObjOperand, y: MObjOperand)
    requires
        is_word_text(m),
        m.len() <= 15,
        valid_operand(x),
        valid_operand(y),
    ensures
        ({
            let s = m + text_space() + operand_text(x) + text_comma() + operand_text(y);
            let toks = two_operand_tokens(m, x, y);
            &&& lex_from(s, 0) == Ok::<Seq<Token>, MObjParseError>(toks)
            &&& toks.len() == 4
            &&& toks[0].kind is Word && tok_in(s, toks[0]) && tok_text(s, toks[0]) == m
            &&& operand_spec(s, toks[1]) == Ok::<MObjOperand, MObjParseError>(x)
            &&& toks[2].kind is Comma
            &&& operand_spec(s, toks[3]) == Ok::<MObjOperand, MObjParseError>(y)
        }),
{
    lemma_operand_text_len(x);
    lemma_operand_text_len(y);
    let ta = operand_text(x);
    let tb = operand_text(y);
    let s = m + text_space() + ta + text_comma() + tb;
    let p1: int = m.len() as int + 1;
    let q1: int = p1 + ta.len();
    let p2: int = q1 + 2;
    let q2: int = p2 + tb.len();
    let w0 = word_token(0, m.len() as int);
    let t1 = operand_token(x, p1, q1);
    let t2 = operand_token(y, p2, q2);
    let cm = Token { kind: TokenKind::Comma, start: q1 as usize, end: (q1 + 1) as usize };
    assert(s.subrange(0, m.len() as int) =~= m);
    assert(s.subrange(p1, q1) =~= ta);
    assert(s.subrange(p2, q2) =~= tb);
    lemma_lex_word(s, 0, m);
    lemma_lex_operand(s, p1, x);
    lemma_lex_operand(s, p2, y);
    lemma_lex_space(s, m.len() as int);
    lemma_lex_space(s, q1 + 1);
    lemma_lex_comma(s, q1);
    let toks = seq![w0, t1, cm, t2];
    assert(s.len() == q2);
    lemma_lex_end(s);
    assert(seq![w0] + (seq![t1] + (seq![cm] + (seq![t2] + Seq::<Token>::empty()))) =~= toks);
}

proof fn lemma_generic_round_trip_2(op: MObjOpcode, x: MObjOperand, y: MObjOperand)
    requires
        op != MObjOpcode::SetStream && op != MObjOpcode::SetStreamSs && op != MObjOpcode::SetButtonPage,
        valid_operand(x),
        valid_operand(y),
    ensures
        assemble_spec(format_seq(generic_cmd(op, 2, Some(x), Some(y)))) == Ok::<MObjCmd, MObjParseError>(generic_cmd(op, 2, Some(x), Some(y))),
{
    let c = generic_cmd(op, 2, Some(x), Some(y));
    lemma_generic_text(op, 2, Some(x), Some(y));
    lemma_mnemonic(op);
    let m = mnemonic_of(op);
    lemma_lex_two(m, x, y);
    let s = format_seq(c);
    let toks = two_operand_tokens(m, x, y);
    assert(operand_at(s, toks, 3) == Ok::<MObjOperand, MObjParseError>(y));
    assert(parse_generic(s, toks, op) == Ok::<MObjCmd, MObjParseError>(c));
}

/// One comma-separated item of a command's text.
pub enum Piece {
    Word(Seq<u8>),
    Operand(MObjOperand),
}

pub open spec fn piece_text(pc: Piece) -> Seq<u8> {
    match pc {
        Piece::Word(w) => w,
        Piece::Operand(x) => operand_text(x),
    }
}

pub open spec fn piece_ok(pc: Piece) -> bool {
    match pc {
        Piece::Word(w) => is_word_text(w) && w.len() <= 15,
        Piece::Operand(x) => valid_operand(x),
    }
}

pub open spec fn piece_token(pc: Piece, p: int) -> Token {
    match pc {
        Piece::Word(w) => word_token(p, p + w.len()),
        Piece::Operand(x) => operand_token(x, p, p + operand_text(x).len()),
    }
}

/// Items joined by `, `.
pub open spec fn list_text(ps: Seq<Piece>) -> Seq<u8>
    decreases ps.len(),
{
    if ps.len() == 0 {
        Seq::empty()
    } else if ps.len() == 1 {
        piece_text(ps[0])
    } else {
        piece_text(ps[0]) + text_comma() + list_text(ps.subrange(1, ps.len() as int))
    }
}

/// The tokens of items joined by `, `, starting at offset `p`.
pub open spec fn list_tokens(ps: Seq<Piece>, p: int) -> Seq<Token>
    decreases ps.len(),
{
    if ps.len() == 0 {
        Seq::empty()
    } else if ps.len() == 1 {
        seq![piece_token(ps[0], p)]
    } else {
        let q = p + piece_text(ps[0]).len();
        seq![piece_token(ps[0], p), Token { kind: TokenKind::Comma, start: q as usize, end: (q + 1) as usize }]
            + list_tokens(ps.subrange(1, ps.len() as int), q + 2)
    }
}

proof fn lemma_piece_len(pc: Piece)
    requires
        piece_ok(pc),
    ensures
        1 <= piece_text(pc).len() <= 15,
{
    match pc {
        Piece::Word(w) => {},
        Piece::Operand(x) => lemma_operand_text_len(x),
    }
}

proof fn lemma_list_len(ps: Seq<Piece>)
    requires
        forall|i: int| 0 <= i < ps.len() ==> piece_ok(#[trigger] ps[i]),
    ensures
        list_text(ps).len() <= 17 * ps.len(),
    decreases ps.len(),
{
    if ps.len() >= 1 {
        lemma_piece_len(ps[0]);
    }
    if ps.len() > 1 {
        let rest = ps.subrange(1, ps.len() as int);
        assert forall|i: int| 0 <= i < rest.len() implies piece_ok(#[trigger] rest[i]) by {
            assert(rest[i] == ps[i + 1]);
        }
        lemma_list_len(rest);
    }
}

/// One item followed by a separator lexes to its token.
proof fn lemma_lex_piece(s: Seq<u8>, p: int, pc: Piece)
    requires
        piece_ok(pc),
        0 <= p,
        p + piece_text(pc).len() <= s.len() <= usize::MAX,
        s.subrange(p, p + piece_text(pc).len()) == piece_text(pc),
        separator(s, p + piece_text(pc).len()),
    ensures
        lex_from(s, p) == lex_prepend(piece_token(pc, p), lex_from(s, p + piece_text(pc).len())),
        pc matches Piece::Word(w) ==> piece_token(pc, p).kind is Word && tok_in(s, piece_token(pc, p))
            && tok_text(s, piece_token(pc, p)) == w,
        pc matches Piece::Operand(x) ==> operand_spec(s, piece_token(pc, p)) == Ok::<MObjOperand, MObjParseError>(x),
{
    match pc {
        Piece::Word(w) => lemma_lex_word(s, p, w),
        Piece::Operand(x) => lemma_lex_operand(s, p, x),
    }
}

/// Items joined by `, ` at the end of a text lex to their tokens.
proof fn lemma_lex_list(s: Seq<u8>, p: int, ps: Seq<Piece>)
    requires
        ps.len() >= 1,
        forall|i: int| 0 <= i < ps.len() ==> piece_ok(#[trigger] ps[i]),
        0 <= p,
        s.len() <= usize::MAX,
        p + list_text(ps).len() == s.len(),
        s.subrange(p, s.len() as int) == list_text(ps),
    ensures
        lex_from(s, p) == Ok::<Seq<Token>, MObjParseError>(list_tokens(ps, p)),
    decreases ps.len(),
{
    let t0 = piece_text(ps[0]);
    lemma_piece_len(ps[0]);
    let q = p + t0.len();
    assert(s.subrange(p, q) =~= t0) by {
        assert forall|k: int| 0 <= k < t0.len() implies s.subrange(p, q)[k] == t0[k] by {
            assert(s.subrange(p, s.len() as int)[k] == list_text(ps)[k]);
        }
    }
    if ps.len() == 1 {
        lemma_lex_piece(s, p, ps[0]);
        lemma_lex_end(s);
        assert(seq![piece_token(ps[0], p)] + Seq::<Token>::empty() =~= list_tokens(ps, p));
    } else {
        let rest = ps.subrange(1, ps.len() as int);
        assert forall|i: int| 0 <= i < rest.len() implies piece_ok(#[trigger] rest[i]) by {
            assert(rest[i] == ps[i + 1]);
        }
        assert(list_text(ps) == t0 + text_comma() + list_text(rest));
        assert(s[q] == list_text(ps)[t0.len() as int]) by {
            assert(s.subrange(p, s.len() as int)[t0.len() as int] == s[q]);
        }
        assert(s[q + 1] == list_text(ps)[t0.len() as int + 1]) by {
            assert(s.subrange(p, s.len() as int)[t0.len() as int + 1] == s[q + 1]);
        }
        lemma_lex_piece(s, p, ps[0]);
        lemma_lex_comma(s, q);
        lemma_lex_space(s, q + 1);
        assert(s.subrange(q + 2, s.len() as int) =~= list_text(rest)) by {
            assert forall|k: int| 0 <= k < list_text(rest).len() implies s.subrange(q + 2, s.len() as int)[k]
                == list_text(rest)[k] by {
                assert(s.subrange(p, s.len() as int)[t0.len() as int + 2 + k] == s[q + 2 + k]);
                assert(list_text(ps)[t0.len() as int + 2 + k] == list_text(rest)[k]);
            }
        }
        lemma_lex_list(s, q + 2, rest);
        let cm = Token { kind: TokenKind::Comma, start: q as usize, end: (q + 1) as usize };
        assert(seq![piece_token(ps[0], p)] + (seq![cm] + list_tokens(rest, q + 2)) =~= list_tokens(ps, p));
    }
}

/// The tokens of a command text `m` + ` ` + items.
pub open spec fn cmd_tokens(m: Seq<u8>, ps: Seq<Piece>) -> Seq<Token> {
    seq![word_token(0, m.len() as int)] + list_tokens(ps, m.len() as int + 1)
}

/// A mnemonic, a space and items lex to the mnemonic's token and the items' tokens.
proof fn lemma_lex_cmd(m: Seq<u8>, ps: Seq<Piece>)
    requires
        is_word_text(m),
        m.len() <= 15,
        1 <= ps.len() <= 10,
        forall|i: int| 0 <= i < ps.len() ==> piece_ok(#[trigger] ps[i]),
    ensures
        ({
            let s = m + text_space() + list_text(ps);
            &&& lex_from(s, 0) == Ok::<Seq<Token>, MObjParseError>(cmd_tokens(m, ps))
            &&& tok_in(s, cmd_tokens(m, ps)[0]) && tok_text(s, cmd_tokens(m, ps)[0]) == m
        }),
{
    let tail = list_text(ps);
    let s = m + text_space() + tail;
    lemma_list_len(ps);
    let p1: int = m.len() as int + 1;
    assert(s.subrange(0, m.len() as int) =~= m);
    assert(s.subrange(p1, s.len() as int) =~= tail);
    lemma_lex_word(s, 0, m);
    lemma_lex_space(s, m.len() as int);
    lemma_lex_list(s, p1, ps);
}

/// How an optional operand slot is written: `none`, or the operand.
pub open spec fn slot_piece(o: Option<MObjOperand>) -> Piece {
    match o {
        None => Piece::Word(text_none()),
        Some(x) => Piece::Operand(x),
    }
}

/// A slot item lexes to a token that reads back as the slot.
proof fn lemma_slot_token(s: Seq<u8>, p: int, o: Option<MObjOperand>)
    requires
        piece_ok(slot_piece(o)),
        0 <= p,
        p + piece_text(slot_piece(o)).len() <= s.len() <= usize::MAX,
        s.subrange(p, p + piece_text(slot_piece(o)).len()) == piece_text(slot_piece(o)),
        separator(s, p + piece_text(slot_piece(o)).len()),
    ensures
        opt_operand_spec(s, piece_token(slot_piece(o), p)) == Ok::<Option<MObjOperand>, MObjParseError>(o),
{
    lemma_lex_piece(s, p, slot_piece(o));
    match o {
        None => {},
        Some(x) => {
            let t = piece_token(slot_piece(o), p);
            if t.kind is Word && tok_in(s, t) && tok_text(s, t) == text_none() {
                assert(s[p] == operand_text(x)[0]);
                assert(s[p] == text_none()[0]) by {
                    assert(tok_text(s, t)[0] == s[p]);
                }
                match x {
                    MObjOperand::Gpr(_) => assert(operand_text(x)[0] == 0x72),
                    MObjOperand::Psr(_) => assert(operand_text(x)[0] == 0x50),
                    MObjOperand::Imm(_) => {},
                }
            }
        },
    }
}

/// The operand that a `set_button_page` slot of operand `x` is written as.
pub open spec fn page_fmt(x: MObjOperand) -> MObjOperand {
    operand_of(operand_word(x) & 0x3fffffff, x is Imm)
}

proof fn lemma_page_fmt(x: MObjOperand)
    requires
        valid_operand(x),
    ensures
        valid_operand(page_fmt(x)),
        page_fmt(x) is Imm == x is Imm,
        page_slot(Some(page_fmt(x))) == page_slot(Some(x)),
{
    match x {
        MObjOperand::Gpr(v) => {
            assert(v <= 4095 ==> (v & 0x3fffffff) & 0x80000000 == 0 && (v & 0x3fffffff) & 0xfff == v) by (bit_vector);
        },
        MObjOperand::Psr(v) => {
            assert(v <= 127 ==> ((0x80000000 | v) & 0x3fffffff) & 0x80000000 == 0 && ((0x80000000 | v)
                & 0x3fffffff) & 0xfff == v && 0x80000000 | (v & 0x3fffffff) == 0x80000000 | ((0x80000000 | v) & 0x3fffffff)) by (bit_vector);
        },
        MObjOperand::Imm(v) => {
            assert((v & 0x3fffffff) & 0x3fffffff == v & 0x3fffffff) by (bit_vector);
        },
    }
}

/// The bits of a `set_button_page` slot word.
proof fn lemma_page_bits(o: Option<MObjOperand>, skip: bool)
    ensures
        ({
            let w = page_slot(o) | (if skip { 0x40000000u32 } else { 0u32 });
            &&& bit(w, 31) == o is Some
            &&& bit(w, 30) == skip
            &&& o matches Some(x) ==> w & 0x3fffffff == operand_word(x) & 0x3fffffff
        }),
{
    let k: u32 = if skip { 0x40000000u32 } else { 0u32 };
    match o {
        None => {
            assert(((0u32 | k) >> 31u32) & 1 == 0 && (((0u32 | k) >> 30u32) & 1 == 1 <==> k == 0x40000000)) by (bit_vector)
                requires k == 0 || k == 0x40000000;
        },
        Some(x) => {
            let v = operand_word(x);
            assert(((0x80000000 | (v & 0x3fffffff)) | k) >> 31u32 & 1 == 1
                && ((((0x80000000 | (v & 0x3fffffff)) | k) >> 30u32) & 1 == 1 <==> k == 0x40000000)
                && ((0x80000000 | (v & 0x3fffffff)) | k) & 0x3fffffff == v & 0x3fffffff) by (bit_vector)
                requires k == 0 || k == 0x40000000;
        },
    }
}

pub open spec fn fmt_slot(o: Option<MObjOperand>) -> Option<MObjOperand> {
    match o {
        None => None,
        Some(x) => Some(page_fmt(x)),
    }
}

/// The items after the mnemonic of `set_button_page`.
pub open spec fn page_pieces(b: Option<MObjOperand>, p: Option<MObjOperand>, skip: bool) -> Seq<Piece> {
    if skip {
        seq![slot_piece(b), slot_piece(p), Piece::Word(text_skip_out())]
    } else {
        seq![slot_piece(b), slot_piece(p)]
    }
}

proof fn lemma_page_pieces_text(b: Option<MObjOperand>, p: Option<MObjOperand>, skip: bool)
    ensures
        list_text(page_pieces(b, p, skip)) == piece_text(slot_piece(b)) + text_comma() + piece_text(slot_piece(p))
            + (if skip { text_comma() + text_skip_out() } else { Seq::empty() }),
{
    reveal_with_fuel(list_text, 4);
    let ps = page_pieces(b, p, skip);
    if skip {
        assert(ps.subrange(1, 3) =~= seq![slot_piece(p), Piece::Word(text_skip_out())]);
        assert(ps.subrange(1, 3).subrange(1, 2) =~= seq![Piece::Word(text_skip_out())]);
    } else {
        assert(ps.subrange(1, 2) =~= seq![slot_piece(p)]);
        assert(piece_text(slot_piece(b)) + text_comma() + piece_text(slot_piece(p)) + Seq::<u8>::empty()
            =~= piece_text(slot_piece(b)) + text_comma() + piece_text(slot_piece(p)));
    }
}

proof fn lemma_page_token_shape(b: Option<MObjOperand>, p: Option<MObjOperand>, skip: bool, p1: int)
    ensures
        ({
            let q1 = p1 + piece_text(slot_piece(b)).len();
            let q2 = q1 + 2 + piece_text(slot_piece(p)).len();
            let ts = list_tokens(page_pieces(b, p, skip), p1);
            &&& ts.len() == (if skip { 5int } else { 3int })
            &&& ts[0] == piece_token(slot_piece(b), p1)
            &&& ts[1].kind is Comma
            &&& ts[2] == piece_token(slot_piece(p), q1 + 2)
            &&& skip ==> ts[3].kind is Comma && ts[4] == piece_token(Piece::Word(text_skip_out()), q2 + 2)
        }),
{
    let ps = page_pieces(b, p, skip);
    let q1 = p1 + piece_text(slot_piece(b)).len();
    let q2 = q1 + 2 + piece_text(slot_piece(p)).len();
    let rest = ps.subrange(1, ps.len() as int);
    assert(ps[0] == slot_piece(b));
    let c1 = Token { kind: TokenKind::Comma, start: q1 as usize, end: (q1 + 1) as usize };
    assert(list_tokens(ps, p1) == seq![piece_token(slot_piece(b), p1), c1] + list_tokens(rest, q1 + 2));
    if skip {
        let rest2 = rest.subrange(1, rest.len() as int);
        assert(rest2 =~= seq![Piece::Word(text_skip_out())]);
        assert(list_tokens(rest2, q2 + 2) == seq![piece_token(Piece::Word(text_skip_out()), q2 + 2)]);
        assert(rest[0] == slot_piece(p));
        let c2 = Token { kind: TokenKind::Comma, start: q2 as usize, end: (q2 + 1) as usize };
        assert(list_tokens(rest, q1 + 2) == seq![piece_token(slot_piece(p), q1 + 2), c2] + list_tokens(rest2, q2 + 2));
    } else {
        assert(rest =~= seq![slot_piece(p)]);
        assert(list_tokens(rest, q1 + 2) == seq![piece_token(slot_piece(p), q1 + 2)]);
    }
}

proof fn lemma_button_page_text(b: Option<MObjOperand>, p: Option<MObjOperand>, skip: bool)
    requires
        b matches Some(x) ==> valid_operand(x),
        p matches Some(x) ==> valid_operand(x),
    ensures
        ({
            let c = set_button_page_cmd(b, p, skip);
            &&& format_seq(c) == mnemonic_of(MObjOpcode::SetButtonPage) + text_space() + list_text(
                page_pieces(fmt_slot(b), fmt_slot(p), skip),
            )
            &&& set_button_page_cmd(fmt_slot(b), fmt_slot(p), skip) == c
            &&& fmt_slot(b) matches Some(x) ==> valid_operand(x)
            &&& fmt_slot(p) matches Some(x) ==> valid_operand(x)
        }),
{
    let c = set_button_page_cmd(b, p, skip);
    reveal(format_seq);
    assert(cmd_opcode_of(c) == Ok::<MObjOpcode, crate::error::MObjCmdErrorDetails>(MObjOpcode::SetButtonPage));
    lemma_page_bits(b, false);
    lemma_page_bits(p, skip);
    assert(page_slot(b) | 0u32 == page_slot(b)) by (bit_vector);
    if b is Some {
        lemma_page_fmt(b->Some_0);
    }
    if p is Some {
        lemma_page_fmt(p->Some_0);
    }
    lemma_page_pieces_text(fmt_slot(b), fmt_slot(p), skip);
    assert(slot_text(bit(c.dst, 31), operand_of(c.dst & 0x3fffffff, c.inst.imm_op1)) == piece_text(slot_piece(fmt_slot(b))));
    assert(slot_text(bit(c.src, 31), operand_of(c.src & 0x3fffffff, c.inst.imm_op2)) == piece_text(slot_piece(fmt_slot(p))));
    let m = mnemonic_of(MObjOpcode::SetButtonPage);
    assert(set_button_page_text(c) =~= m + text_space() + list_text(page_pieces(fmt_slot(b), fmt_slot(p), skip)));
}

proof fn lemma_page_pieces_ok(b: Option<MObjOperand>, p: Option<MObjOperand>, skip: bool)
    requires
        b matches Some(x) ==> valid_operand(x),
        p matches Some(x) ==> valid_operand(x),
    ensures
        forall|i: int| 0 <= i < page_pieces(b, p, skip).len() ==> piece_ok(#[trigger] page_pieces(b, p, skip)[i]),
{
    assert(is_word_text(text_none()));
    assert(is_word_text(text_skip_out()));
}

proof fn lemma_page_lex(b: Option<MObjOperand>, p: Option<MObjOperand>, skip: bool)
    requires
        b matches Some(x) ==> valid_operand(x),
        p matches Some(x) ==> valid_operand(x),
    ensures
        ({
            let m = mnemonic_of(MObjOpcode::SetButtonPage);
            let ps = page_pieces(b, p, skip);
            let s = m + text_space() + list_text(ps);
            let toks = cmd_tokens(m, ps);
            &&& lex_from(s, 0) == Ok::<Seq<Token>, MObjParseError>(toks)
            &&& toks[0].kind is Word && tok_in(s, toks[0]) && tok_text(s, toks[0]) == m
        }),
{
    lemma_mnemonic(MObjOpcode::SetButtonPage);
    lemma_page_pieces_ok(b, p, skip);
    lemma_lex_cmd(mnemonic_of(MObjOpcode::SetButtonPage), page_pieces(b, p, skip));
}

/// The positions of the items of a `set_button_page` text.
proof fn lemma_page_layout(b: Option<MObjOperand>, p: Option<MObjOperand>, skip: bool)
    requires
        b matches Some(x) ==> valid_operand(x),
        p matches Some(x) ==> valid_operand(x),
    ensures
        ({
            let m = mnemonic_of(MObjOpcode::SetButtonPage);
            let s = m + text_space() + list_text(page_pieces(b, p, skip));
            let p1: int = m.len() as int + 1;
            let q1 = p1 + piece_text(slot_piece(b)).len();
            let pp = q1 + 2;
            let q2 = pp + piece_text(slot_piece(p)).len();
            &&& s.len() <= 100
            &&& s.subrange(p1, q1) == piece_text(slot_piece(b))
            &&& separator(s, q1) && s[q1] == 0x2c
            &&& s.subrange(pp, q2) == piece_text(slot_piece(p))
            &&& separator(s, q2)
            &&& skip ==> s.len() == q2 + 10 && s[q2] == 0x2c && s.subrange(q2 + 2, q2 + 10) == text_skip_out()
            &&& !skip ==> s.len() == q2
        }),
{
    let op = MObjOpcode::SetButtonPage;
    lemma_mnemonic(op);
    let m = mnemonic_of(op);
    lemma_page_pieces_text(b, p, skip);
    lemma_page_pieces_ok(b, p, skip);
    lemma_piece_len(slot_piece(b));
    lemma_piece_len(slot_piece(p));
    let s = m + text_space() + list_text(page_pieces(b, p, skip));
    let p1: int = m.len() as int + 1;
    let q1 = p1 + piece_text(slot_piece(b)).len();
    let pp = q1 + 2;
    let q2 = pp + piece_text(slot_piece(p)).len();
    assert(s.subrange(p1, q1) =~= piece_text(slot_piece(b)));
    assert(s.subrange(pp, q2) =~= piece_text(slot_piece(p)));
    if skip {
        assert(s.subrange(q2 + 2, q2 + 10) =~= text_skip_out());
    }
}

#[verifier::rlimit(100)]
proof fn lemma_page_slot_b(b: Option<MObjOperand>, p: Option<MObjOperand>, skip: bool)
    requires
        b matches Some(x) ==> valid_operand(x),
        p matches Some(x) ==> valid_operand(x),
    ensures
        ({
            let m = mnemonic_of(MObjOpcode::SetButtonPage);
            let ps = page_pieces(b, p, skip);
            let s = m + text_space() + list_text(ps);
            let toks = cmd_tokens(m, ps);
            &&& toks.len() == (if skip { 6int } else { 4int })
            &&& opt_operand_at(s, toks, 1) == Ok::<Option<MObjOperand>, MObjParseError>(b)
            &&& comma_err(s, toks, 2) is None
        }),
{
    let m = mnemonic_of(MObjOpcode::SetButtonPage);
    lemma_mnemonic(MObjOpcode::SetButtonPage);
    let ps = page_pieces(b, p, skip);
    let s = m + text_space() + list_text(ps);
    let p1: int = m.len() as int + 1;
    lemma_page_layout(b, p, skip);
    lemma_page_token_shape(b, p, skip, p1);
    lemma_page_pieces_ok(b, p, skip);
    lemma_slot_token(s, p1, b);
}

#[verifier::rlimit(100)]
proof fn lemma_page_slot_p(b: Option<MObjOperand>, p: Option<MObjOperand>, skip: bool)
    requires
        b matches Some(x) ==> valid_operand(x),
        p matches Some(x) ==> valid_operand(x),
    ensures
        ({
            let m = mnemonic_of(MObjOpcode::SetButtonPage);
            let ps = page_pieces(b, p, skip);
            let s = m + text_space() + list_text(ps);
            let toks = cmd_tokens(m, ps);
            &&& opt_operand_at(s, toks, 3) == Ok::<Option<MObjOperand>, MObjParseError>(p)
        }),
{
    let m = mnemonic_of(MObjOpcode::SetButtonPage);
    lemma_mnemonic(MObjOpcode::SetButtonPage);
    let ps = page_pieces(b, p, skip);
    let s = m + text_space() + list_text(ps);
    let p1: int = m.len() as int + 1;
    lemma_page_layout(b, p, skip);
    lemma_page_token_shape(b, p, skip, p1);
    lemma_page_pieces_ok(b, p, skip);
    let q1 = p1 + piece_text(slot_piece(b)).len();
    lemma_slot_token(s, q1 + 2, p);
}

#[verifier::rlimit(100)]
proof fn lemma_page_skip(b: Option<MObjOperand>, p: Option<MObjOperand>)
    requires
        b matches Some(x) ==> valid_operand(x),
        p matches Some(x) ==> valid_operand(x),
    ensures
        ({
            let m = mnemonic_of(MObjOpcode::SetButtonPage);
            let ps = page_pieces(b, p, true);
            let s = m + text_space() + list_text(ps);
            let toks = cmd_tokens(m, ps);
            &&& comma_err(s, toks, 4) is None && is_word(s, toks[5], text_skip_out())
        }),
{
    let m = mnemonic_of(MObjOpcode::SetButtonPage);
    lemma_mnemonic(MObjOpcode::SetButtonPage);
    let ps = page_pieces(b, p, true);
    let s = m + text_space() + list_text(ps);
    let p1: int = m.len() as int + 1;
    lemma_page_layout(b, p, true);
    lemma_page_token_shape(b, p, true, p1);
    let q1 = p1 + piece_text(slot_piece(b)).len();
    let q2 = q1 + 2 + piece_text(slot_piece(p)).len();
    assert(is_word_text(text_skip_out()));
    lemma_lex_word(s, q2 + 2, text_skip_out());
}

proof fn lemma_page_slots(b: Option<MObjOperand>, p: Option<MObjOperand>, skip: bool)
    requires
        b matches Some(x) ==> valid_operand(x),
        p matches Some(x) ==> valid_operand(x),
    ensures
        ({
            let m = mnemonic_of(MObjOpcode::SetButtonPage);
            let ps = page_pieces(b, p, skip);
            let s = m + text_space() + list_text(ps);
            let toks = cmd_tokens(m, ps);
            &&& toks.len() == (if skip { 6int } else { 4int })
            &&& opt_operand_at(s, toks, 1) == Ok::<Option<MObjOperand>, MObjParseError>(b)
            &&& comma_err(s, toks, 2) is None
            &&& opt_operand_at(s, toks, 3) == Ok::<Option<MObjOperand>, MObjParseError>(p)
            &&& skip ==> comma_err(s, toks, 4) is None && is_word(s, toks[5], text_skip_out())
        }),
{
    lemma_page_slot_b(b, p, skip);
    lemma_page_slot_p(b, p, skip);
    if skip {
        lemma_page_skip(b, p);
    }
}

proof fn lemma_page_tokens(b: Option<MObjOperand>, p: Option<MObjOperand>, skip: bool)
    requires
        b matches Some(x) ==> valid_operand(x),
        p matches Some(x) ==> valid_operand(x),
    ensures
        ({
            let m = mnemonic_of(MObjOpcode::SetButtonPage);
            let ps = page_pieces(b, p, skip);
            let s = m + text_space() + list_text(ps);
            let toks = cmd_tokens(m, ps);
            &&& lex_from(s, 0) == Ok::<Seq<Token>, MObjParseError>(toks)
            &&& toks[0].kind is Word && tok_in(s, toks[0]) && tok_text(s, toks[0]) == m
            &&& toks.len() == (if skip { 6int } else { 4int })
            &&& opt_operand_at(s, toks, 1) == Ok::<Option<MObjOperand>, MObjParseError>(b)
            &&& comma_err(s, toks, 2) is None
            &&& opt_operand_at(s, toks, 3) == Ok::<Option<MObjOperand>, MObjParseError>(p)
            &&& skip ==> comma_err(s, toks, 4) is None && is_word(s, toks[5], text_skip_out())
        }),
{
    lemma_page_lex(b, p, skip);
    lemma_page_slots(b, p, skip);
}

proof fn lemma_button_page_parse(b: Option<MObjOperand>, p: Option<MObjOperand>, skip: bool)
    requires
        b matches Some(x) ==> valid_operand(x),
        p matches Some(x) ==> valid_operand(x),
    ensures
        assemble_spec(mnemonic_of(MObjOpcode::SetButtonPage) + text_space() + list_text(page_pieces(b, p, skip)))
            == Ok::<MObjCmd, MObjParseError>(set_button_page_cmd(b, p, skip)),
{
    let op = MObjOpcode::SetButtonPage;
    lemma_mnemonic(op);
    lemma_page_tokens(b, p, skip);
    let m = mnemonic_of(op);
    let s = m + text_space() + list_text(page_pieces(b, p, skip));
    let toks = cmd_tokens(m, page_pieces(b, p, skip));
    reveal(parse_set_button_page);
    assert(parse_set_button_page(s, toks) == Ok::<MObjCmd, MObjParseError>(set_button_page_cmd(b, p, skip)));
}

/// Formatting a `set_button_page` command and assembling the text gives the command back.
proof fn lemma_button_page_round_trip(b: Option<MObjOperand>, p: Option<MObjOperand>, skip: bool)
    requires
        b matches Some(x) ==> valid_operand(x),
        p matches Some(x) ==> valid_operand(x),
    ensures
        assemble_spec(format_seq(set_button_page_cmd(b, p, skip))) == Ok::<MObjCmd, MObjParseError>(set_button_page_cmd(b, p, skip)),
{
    lemma_button_page_text(b, p, skip);
    lemma_button_page_parse(fmt_slot(b), fmt_slot(p), skip);
}

/// Operands that the assembler accepts are valid.
proof fn lemma_operand_spec_valid(s: Seq<u8>, t: Token)
    requires
        operand_spec(s, t) is Ok,
    ensures
        valid_operand(operand_spec(s, t)->Ok_0),
{
}

/// Whether a command is `set_stream` or `set_stream_ss`.
pub open spec fn is_set_stream(c: MObjCmd) -> bool {
    cmd_opcode_of(c) == Ok::<MObjOpcode, crate::error::MObjCmdErrorDetails>(MObjOpcode::SetStream)
        || cmd_opcode_of(c) == Ok::<MObjOpcode, crate::error::MObjCmdErrorDetails>(MObjOpcode::SetStreamSs)
}

/// A command of the generic form has the fields its operation selects.
proof fn lemma_generic_wf(op: MObjOpcode, n: u8, a: Option<MObjOperand>, b: Option<MObjOperand>)
    requires
        n <= 2,
    ensures
        generic_cmd(op, n, a, b).inst.wf(),
{
}

/// The twelve bytes of a well-formed command decode to it.
pub proof fn law_bytes_round_trip(c: MObjCmd)
    requires
        c.inst.wf(),
    ensures
        cmd_of_bytes(cmd_bytes(c)) == c,
{
    let b = cmd_bytes(c);
    lemma_be_bytes(crate::mobj::word_of(c.inst));
    lemma_be_bytes(c.dst);
    lemma_be_bytes(c.src);
    assert(b.subrange(4, 8) =~= crate::mobj::be_bytes(c.dst));
    assert(b.subrange(8, 12) =~= crate::mobj::be_bytes(c.src));
    assert(be32(b) == be32(crate::mobj::be_bytes(crate::mobj::word_of(c.inst))));
    lemma_inst_word_round_trip(c.inst);
}

/// For every text that assembles to a command other than `set_stream` and `set_stream_ss`:
/// assembling the command's formatted text gives the same command, so the same twelve bytes;
/// those bytes decode to the command, whose text is therefore unchanged.
pub proof fn law_format_assemble_round_trip(s: Seq<u8>)
    requires
        assemble_spec(s) is Ok,
        !is_set_stream(assemble_spec(s)->Ok_0),
    ensures
        ({
            let c = assemble_spec(s)->Ok_0;
            &&& assemble_spec(format_seq(c)) == Ok::<MObjCmd, MObjParseError>(c)
            &&& cmd_bytes(assemble_spec(format_seq(c))->Ok_0) == cmd_bytes(c)
            &&& cmd_of_bytes(cmd_bytes(c)) == c
            &&& format_seq(cmd_of_bytes(cmd_bytes(assemble_spec(format_seq(c))->Ok_0))) == format_seq(c)
        }),
{
    let c = assemble_spec(s)->Ok_0;
    let toks = lex_from(s, 0)->Ok_0;
    assert(parse_spec(s, toks) == Ok::<MObjCmd, MObjParseError>(c));
    let op = op_named(tok_text(s, toks[0]))->Some_0;
    if op == MObjOpcode::SetStream || op == MObjOpcode::SetStreamSs {
        reveal(crate::mobj_asm::parse_set_stream);
        lemma_set_stream_irregular(s, toks, op);
        assert(false);
    } else if op == MObjOpcode::SetButtonPage {
        lemma_button_page_output(s, toks);
        let b = opt_operand_at(s, toks, 1)->Ok_0;
        let p = opt_operand_at(s, toks, 3)->Ok_0;
        lemma_button_page_round_trip(b, p, toks.len() > 4);
        assert(set_button_page_cmd(b, p, toks.len() > 4).inst.wf());
        law_bytes_round_trip(c);
    } else {
        assert(parse_generic(s, toks, op) == Ok::<MObjCmd, MObjParseError>(c));
        if toks.len() == 1 {
            lemma_generic_round_trip(op, 0, None, None);
            lemma_generic_wf(op, 0, None, None);
        } else {
            let x = operand_spec(s, toks[1])->Ok_0;
            lemma_operand_spec_valid(s, toks[1]);
            if toks.len() == 2 {
                lemma_generic_round_trip(op, 1, Some(x), None);
                lemma_generic_wf(op, 1, Some(x), None);
            } else {
                let y = operand_at(s, toks, 3)->Ok_0;
                lemma_operand_spec_valid(s, toks[3]);
                lemma_generic_round_trip(op, 2, Some(x), Some(y));
                lemma_generic_wf(op, 2, Some(x), Some(y));
            }
        }
        law_bytes_round_trip(c);
    }
}

/// What `set_stream` assembles to is a `set_stream` command.
proof fn lemma_set_stream_irregular(s: Seq<u8>, toks: Seq<Token>, op: MObjOpcode)
    requires
        op == MObjOpcode::SetStream || op == MObjOpcode::SetStreamSs,
        crate::mobj_asm::parse_set_stream(s, toks, op) is Ok,
    ensures
        is_set_stream(crate::mobj_asm::parse_set_stream(s, toks, op)->Ok_0),
{
    reveal(crate::mobj_asm::parse_set_stream);
}

/// What `set_button_page` assembles to: its two slots, valid, and whether `skip_out` follows.
proof fn lemma_button_page_output(s: Seq<u8>, toks: Seq<Token>)
    requires
        parse_set_button_page(s, toks) is Ok,
    ensures
        ({
            let b = opt_operand_at(s, toks, 1);
            let p = opt_operand_at(s, toks, 3);
            &&& b is Ok && p is Ok
            &&& parse_set_button_page(s, toks)->Ok_0 == set_button_page_cmd(b->Ok_0, p->Ok_0, toks.len() > 4)
            &&& b->Ok_0 matches Some(x) ==> valid_operand(x)
            &&& p->Ok_0 matches Some(x) ==> valid_operand(x)
        }),
{
    reveal(parse_set_button_page);
    if toks.len() > 1 && opt_operand_at(s, toks, 1)->Ok_0 is Some {
        lemma_operand_spec_valid(s, toks[1]);
    }
    if toks.len() > 3 && opt_operand_at(s, toks, 3)->Ok_0 is Some {
        lemma_operand_spec_valid(s, toks[3]);
    }
}

} // verus!
