use crate::mobj::{
    bytes_equal, op_group, op_named, op_option, op_sub_group, opcode_named, operand_word,
    text_disabled, text_enabled, text_none, text_psr, text_skip_out, MObjCmd, MObjInstruction,
    MObjOpcode, MObjOperand,
};
use vstd::prelude::*;
use vstd::string::StringSliceAdditionalSpecFns;

verus! {

/// Errors of the assembler that come from its operand rules.
#[derive(Debug, Clone, Copy, PartialEq, Eq, Structural)]
pub enum MObjParseErrorType {
    /// A number does not fit in `u32`.
    U32OutOfRange,
    /// A GPR number is out of 0..=4095.
    GprOutOfRange,
    /// A PSR number is out of 0..=127.
    PsrOutOfRange,
    /// In `set_stream`, audio and PG/TextST, or IG and angle, mix a register and an immediate.
    SetStreamOperandTypeMismatch,
}

/// An operand-rule error and the byte range of the text it concerns.
#[derive(Debug, Clone, Copy, PartialEq, Eq, Structural)]
pub struct MObjParseErrorDetails {
    pub start: usize,
    pub end: usize,
    pub error_type: MObjParseErrorType,
}

/// Why a text does not assemble.
#[derive(Debug, Clone, Copy, PartialEq, Eq, Structural)]
pub enum MObjParseError {
    /// No token starts at this byte offset.
    InvalidToken { location: usize },
    /// The text ended where more was expected.
    UnrecognizedEof { location: usize },
    /// A token that the grammar does not allow where it stands.
    UnrecognizedToken { start: usize, end: usize },
    /// An operand-rule error.
    User { error: MObjParseErrorDetails },
}

/// What a token is.
#[derive(Debug, Clone, Copy, PartialEq, Eq, Structural)]
pub enum TokenKind {
    Comma,
    /// A run of letters, digits and `_` that starts with a letter or `_`.
    Word,
    /// A decimal or `0x` hexadecimal number; `None` where it exceeds `u32`.
    Number(Option<u32>),
}

/// A token and its byte range.
#[derive(Debug, Clone, Copy, PartialEq, Eq, Structural)]
pub struct Token {
    pub kind: TokenKind,
    pub start: usize,
    pub end: usize,
}

pub open spec fn is_space(b: u8) -> bool {
    b == 0x20 || b == 0x09 || b == 0x0a || b == 0x0d
}

pub open spec fn is_digit(b: u8) -> bool {
    0x30 <= b <= 0x39
}

pub open spec fn is_hex(b: u8) -> bool {
    is_digit(b) || (0x61 <= b <= 0x66) || (0x41 <= b <= 0x46)
}

pub open spec fn is_word_start(b: u8) -> bool {
    (0x61 <= b <= 0x7a) || (0x41 <= b <= 0x5a) || b == 0x5f
}

pub open spec fn is_word_char(b: u8) -> bool {
    is_word_start(b) || is_digit(b)
}

pub open spec fn hex_digit(b: u8) -> int {
    if is_digit(b) {
        b - 0x30
    } else if 0x61 <= b <= 0x66 {
        b - 0x61 + 10
    } else {
        b - 0x41 + 10
    }
}

/// Bytes that continue a word.
pub open spec fn word_class() -> spec_fn(u8) -> bool {
    |b: u8| is_word_char(b)
}

/// Decimal digits.
pub open spec fn digit_class() -> spec_fn(u8) -> bool {
    |b: u8| is_digit(b)
}

/// Hexadecimal digits.
pub open spec fn hex_class() -> spec_fn(u8) -> bool {
    |b: u8| is_hex(b)
}

/// The end of the run of bytes satisfying `f` that starts at `i`.
pub open spec fn run_end(s: Seq<u8>, i: int, f: spec_fn(u8) -> bool) -> int
    decreases s.len() - i,
{
    if 0 <= i < s.len() && f(s[i]) {
        run_end(s, i + 1, f)
    } else {
        i
    }
}

/// The offset just past the `*/` that closes a comment whose body starts at `i`.
pub open spec fn comment_end(s: Seq<u8>, i: int) -> Option<int>
    decreases s.len() - i,
{
    if i < 0 || i + 1 >= s.len() {
        None
    } else if s[i] == 0x2a && s[i + 1] == 0x2f {
        Some(i + 2)
    } else {
        comment_end(s, i + 1)
    }
}

/// Value of the decimal digits `s[a..b]`.
pub open spec fn dec_value(s: Seq<u8>, a: int, b: int) -> int
    decreases b - a,
{
    if b <= a {
        0
    } else {
        dec_value(s, a, b - 1) * 10 + (s[b - 1] - 0x30)
    }
}

/// Value of the hexadecimal digits `s[a..b]`.
pub open spec fn hex_value(s: Seq<u8>, a: int, b: int) -> int
    decreases b - a,
{
    if b <= a {
        0
    } else {
        hex_value(s, a, b - 1) * 16 + hex_digit(s[b - 1])
    }
}

/// Whether `s[a..b]` starts a hexadecimal number: `0x` and at least one hex digit.
pub open spec fn hex_prefix(s: Seq<u8>, a: int, b: int) -> bool {
    b - a >= 3 && s[a] == 0x30 && s[a + 1] == 0x78 && is_hex(s[a + 2])
}

/// The value of the number text `s[a..b]`.
pub open spec fn num_value(s: Seq<u8>, a: int, b: int) -> int {
    if hex_prefix(s, a, b) {
        hex_value(s, a + 2, b)
    } else {
        dec_value(s, a, b)
    }
}

/// Whether `s[a..b]` is number text: decimal digits, or `0x` and hex digits.
pub open spec fn is_number_text(s: Seq<u8>, a: int, b: int) -> bool {
    &&& 0 <= a < b <= s.len()
    &&& if hex_prefix(s, a, b) {
        forall|k: int| a + 2 <= k < b ==> is_hex(#[trigger] s[k])
    } else {
        forall|k: int| a <= k < b ==> is_digit(#[trigger] s[k])
    }
}

/// A value as a `u32`, or `None` where it does not fit.
pub open spec fn fit_u32(v: int) -> Option<u32> {
    if v <= u32::MAX {
        Some(v as u32)
    } else {
        None
    }
}

/// The end of the number token that starts at `i` (a digit).
pub open spec fn number_end(s: Seq<u8>, i: int) -> int {
    if i + 2 < s.len() && s[i] == 0x30 && s[i + 1] == 0x78 && is_hex(s[i + 2]) {
        run_end(s, i + 2, hex_class())
    } else {
        run_end(s, i, digit_class())
    }
}

/// The tokens of `s` from offset `i` on: whitespace and `/* */` comments separate them.
#[verifier::opaque]
pub open spec fn lex_from(s: Seq<u8>, i: int) -> Result<Seq<Token>, MObjParseError>
    decreases s.len() - i,
{
    if i < 0 || i >= s.len() {
        Ok(Seq::empty())
    } else if is_space(s[i]) {
        lex_from(s, i + 1)
    } else if s[i] == 0x2f && i + 1 < s.len() && s[i + 1] == 0x2a {
        match comment_end(s, i + 2) {
            Some(j) => if i < j <= s.len() {
                lex_from(s, j)
            } else {
                Err(MObjParseError::InvalidToken { location: i as usize })
            },
            None => Err(MObjParseError::InvalidToken { location: i as usize }),
        }
    } else if s[i] == 0x2c {
        lex_prepend(Token { kind: TokenKind::Comma, start: i as usize, end: (i + 1) as usize }, lex_from(s, i + 1))
    } else if is_word_start(s[i]) {
        let j = run_end(s, i + 1, word_class());
        if i < j <= s.len() {
            lex_prepend(Token { kind: TokenKind::Word, start: i as usize, end: j as usize }, lex_from(s, j))
        } else {
            Err(MObjParseError::InvalidToken { location: i as usize })
        }
    } else if is_digit(s[i]) {
        let j = number_end(s, i);
        if i < j <= s.len() {
            lex_prepend(
                Token {
                    kind: TokenKind::Number(fit_u32(num_value(s, i, j))),
                    start: i as usize,
                    end: j as usize,
                },
                lex_from(s, j),
            )
        } else {
            Err(MObjParseError::InvalidToken { location: i as usize })
        }
    } else {
        Err(MObjParseError::InvalidToken { location: i as usize })
    }
}

/// `Ok([t] + ts)` for `Ok(ts)`.
pub open spec fn lex_prepend(t: Token, r: Result<Seq<Token>, MObjParseError>) -> Result<
    Seq<Token>,
    MObjParseError,
> {
    match r {
        Ok(ts) => Ok(seq![t] + ts),
        Err(e) => Err(e),
    }
}

fn space(b: u8) -> (r: bool)
    ensures
        r == is_space(b),
{
    b == 0x20 || b == 0x09 || b == 0x0a || b == 0x0d
}

fn digit(b: u8) -> (r: bool)
    ensures
        r == is_digit(b),
{
    0x30 <= b && b <= 0x39
}

fn hex(b: u8) -> (r: bool)
    ensures
        r == is_hex(b),
{
    digit(b) || (0x61 <= b && b <= 0x66) || (0x41 <= b && b <= 0x46)
}

fn word_start(b: u8) -> (r: bool)
    ensures
        r == is_word_start(b),
{
    (0x61 <= b && b <= 0x7a) || (0x41 <= b && b <= 0x5a) || b == 0x5f
}

fn word_char(b: u8) -> (r: bool)
    ensures
        r == is_word_char(b),
{
    word_start(b) || digit(b)
}

/// Which byte class a scan runs over.
enum Class {
    Word,
    Digit,
    Hex,
}

spec fn class_fn(c: Class) -> spec_fn(u8) -> bool {
    match c {
        Class::Word => word_class(),
        Class::Digit => digit_class(),
        Class::Hex => hex_class(),
    }
}

fn in_class(b: u8, c: &Class) -> (r: bool)
    ensures
        r == (class_fn(*c))(b),
{
    match c {
        Class::Word => word_char(b),
        Class::Digit => digit(b),
        Class::Hex => hex(b),
    }
}

fn scan(s: &[u8], i: usize, c: Class) -> (r: usize)
    requires
        i <= s@.len(),
    ensures
        r == run_end(s@, i as int, class_fn(c)),
        i <= r <= s@.len(),
        forall|k: int| i <= k < r ==> (class_fn(c))(#[trigger] s@[k]),
        i < s@.len() && (class_fn(c))(s@[i as int]) ==> r > i,
{
    let mut j = i;
    while j < s.len() && in_class(s[j], &c)
        invariant
            i <= j <= s@.len(),
            run_end(s@, i as int, class_fn(c)) == run_end(s@, j as int, class_fn(c)),
            forall|k: int| i <= k < j ==> (class_fn(c))(#[trigger] s@[k]),
        decreases s@.len() - j,
    {
        j = j + 1;
    }
    j
}

/// The value of number text `s[a..b]`, where it fits in `u32`.
fn number_value(s: &[u8], a: usize, b: usize) -> (r: Option<u32>)
    requires
        is_number_text(s@, a as int, b as int),
    ensures
        r == fit_u32(num_value(s@, a as int, b as int)),
{
    let hexadecimal = b - a >= 3 && s[a] == 0x30 && s[a + 1] == 0x78 && hex(s[a + 2]);
    let (from, base): (usize, u64) = if hexadecimal {
        (a + 2, 16)
    } else {
        (a, 10)
    };
    let ghost value = |j: int|
        if hexadecimal {
            hex_value(s@, from as int, j)
        } else {
            dec_value(s@, from as int, j)
        };
    let mut acc: u64 = 0;
    let mut over = false;
    let mut j = from;
    while j < b
        invariant
            from <= j <= b <= s@.len(),
            base == (if hexadecimal { 16u64 } else { 10u64 }),
            value(from as int) == 0,
            forall|k: int| #[trigger] value(k) == if hexadecimal {
                hex_value(s@, from as int, k)
            } else {
                dec_value(s@, from as int, k)
            },
            over ==> value(j as int) > u32::MAX,
            !over ==> acc == value(j as int),
            value(j as int) >= 0,
            hexadecimal == hex_prefix(s@, a as int, b as int),
            from == (if hexadecimal { a + 2 } else { a as int }),
            is_number_text(s@, a as int, b as int),
        decreases b - j,
    {
        proof {
            if hexadecimal {
                assert(is_hex(s@[j as int]));
            } else {
                assert(is_digit(s@[j as int]));
            }
        }
        let d: u64 = if hexadecimal {
            if digit(s[j]) {
                (s[j] - 0x30) as u64
            } else if 0x61 <= s[j] && s[j] <= 0x66 {
                (s[j] - 0x61 + 10) as u64
            } else {
                (s[j] as u64 + 10) - 0x41
            }
        } else {
            (s[j] as u64) - 0x30
        };
        proof {
            if hexadecimal {
                assert(hex_value(s@, from as int, j + 1) == hex_value(s@, from as int, j as int) * 16
                    + hex_digit(s@[j as int]));
            } else {
                assert(dec_value(s@, from as int, j + 1) == dec_value(s@, from as int, j as int) * 10
                    + (s@[j as int] - 0x30));
            }
        }
        if !over {
            if acc > 0xffffffff {
                over = true;
            } else {
                acc = acc * base + d;
            }
        }
        j = j + 1;
    }
    if over || acc > 0xffffffff {
        None
    } else {
        Some(acc as u32)
    }
}

/// `Ok(front + ts)` for `Ok(ts)`.
pub open spec fn lex_prepend_all(front: Seq<Token>, r: Result<Seq<Token>, MObjParseError>) -> Result<
    Seq<Token>,
    MObjParseError,
> {
    match r {
        Ok(ts) => Ok(front + ts),
        Err(e) => Err(e),
    }
}

fn find_comment_end(s: &[u8], i: usize) -> (r: Option<usize>)
    requires
        i <= s@.len(),
    ensures
        match r {
            Some(j) => comment_end(s@, i as int) == Some(j as int) && i < j <= s@.len(),
            None => comment_end(s@, i as int) is None,
        },
{
    let mut k = i;
    while s.len() - k > 1
        invariant
            i <= k <= s@.len(),
            comment_end(s@, i as int) == comment_end(s@, k as int),
        decreases s@.len() - k,
    {
        if s[k] == 0x2a && s[k + 1] == 0x2f {
            return Some(k + 2);
        }
        k = k + 1;
    }
    None
}

/// Takes the next token, or skips whitespace or a comment, at offset `i`.
fn lex_one(s: &[u8], i: usize) -> (r: Result<(Option<Token>, usize), MObjParseError>)
    requires
        i < s@.len(),
    ensures
        match r {
            Ok((None, j)) => i < j <= s@.len() && lex_from(s@, i as int) == lex_from(s@, j as int),
            Ok((Some(t), j)) => i < j <= s@.len() && lex_from(s@, i as int) == lex_prepend(
                t,
                lex_from(s@, j as int),
            ),
            Err(e) => lex_from(s@, i as int) == Err::<Seq<Token>, MObjParseError>(e),
        },
{
    reveal(lex_from);
    let b = s[i];
    if space(b) {
        Ok((None, i + 1))
    } else if b == 0x2f && s.len() - i > 1 && s[i + 1] == 0x2a {
        match find_comment_end(s, i + 2) {
            Some(j) => Ok((None, j)),
            None => Err(MObjParseError::InvalidToken { location: i }),
        }
    } else if b == 0x2c {
        Ok((Some(Token { kind: TokenKind::Comma, start: i, end: i + 1 }), i + 1))
    } else if word_start(b) {
        let j = scan(s, i + 1, Class::Word);
        Ok((Some(Token { kind: TokenKind::Word, start: i, end: j }), j))
    } else if digit(b) {
        let hexadecimal = s.len() - i > 2 && b == 0x30 && s[i + 1] == 0x78 && hex(s[i + 2]);
        let j = if hexadecimal {
            scan(s, i + 2, Class::Hex)
        } else {
            scan(s, i, Class::Digit)
        };
        proof {
            assert(j == number_end(s@, i as int));
            assert(is_number_text(s@, i as int, j as int)) by {
                if hexadecimal {
                    assert(hex_prefix(s@, i as int, j as int));
                } else {
                    assert(is_digit(s@[i as int]));
                    if j >= i + 2 {
                        assert(is_digit(s@[i + 1]));
                    }
                    assert(!hex_prefix(s@, i as int, j as int));
                }
            }
        }
        Ok((Some(Token { kind: TokenKind::Number(number_value(s, i, j)), start: i, end: j }), j))
    } else {
        Err(MObjParseError::InvalidToken { location: i })
    }
}

/// Splits assembly text into tokens.
pub fn lex(s: &[u8]) -> (r: Result<Vec<Token>, MObjParseError>)
    ensures
        match r {
            Ok(v) => lex_from(s@, 0) == Ok::<Seq<Token>, MObjParseError>(v@),
            Err(e) => lex_from(s@, 0) == Err::<Seq<Token>, MObjParseError>(e),
        },
{
    let mut toks: Vec<Token> = Vec::new();
    let mut i: usize = 0;
    while i < s.len()
        invariant
            i <= s@.len(),
            lex_from(s@, 0) == lex_prepend_all(toks@, lex_from(s@, i as int)),
        decreases s@.len() - i,
    {
        match lex_one(s, i) {
            Ok((None, j)) => {
                i = j;
            },
            Ok((Some(t), j)) => {
                proof {
                    match lex_from(s@, j as int) {
                        Ok(ts) => assert(toks@.push(t) + ts =~= toks@ + (seq![t] + ts)),
                        Err(_) => {},
                    }
                }
                toks.push(t);
                i = j;
            },
            Err(e) => {
                return Err(e);
            },
        }
    }
    assert(toks@ + Seq::<Token>::empty() =~= toks@);
    reveal(lex_from);
    Ok(toks)
}

/// The bytes of a token.
pub open spec fn tok_text(s: Seq<u8>, t: Token) -> Seq<u8> {
    s.subrange(t.start as int, t.end as int)
}

/// Whether a token lies inside the text.
pub open spec fn tok_in(s: Seq<u8>, t: Token) -> bool {
    t.start < t.end <= s.len()
}

/// Whether a token is the word `w`.
pub open spec fn is_word(s: Seq<u8>, t: Token, w: Seq<u8>) -> bool {
    t.kind is Word && tok_in(s, t) && tok_text(s, t) == w
}

pub open spec fn user_err(a: int, b: int, ty: MObjParseErrorType) -> MObjParseError {
    MObjParseError::User { error: MObjParseErrorDetails { start: a as usize, end: b as usize, error_type: ty } }
}

pub open spec fn unexpected(t: Token) -> MObjParseError {
    MObjParseError::UnrecognizedToken { start: t.start, end: t.end }
}

pub open spec fn eof(s: Seq<u8>) -> MObjParseError {
    MObjParseError::UnrecognizedEof { location: s.len() as usize }
}

/// A register number `s[a..b]` checked against `max`. A PSR out of range is reported over
/// the whole `PSRN` token; a GPR out of range over its digits.
pub open spec fn register_spec(s: Seq<u8>, a: int, b: int, max: int, psr: bool) -> Result<MObjOperand, MObjParseError> {
    match fit_u32(num_value(s, a, b)) {
        None => Err(user_err(a, b, MObjParseErrorType::U32OutOfRange)),
        Some(v) => if v > max {
            if psr {
                Err(user_err(a - 3, b, MObjParseErrorType::PsrOutOfRange))
            } else {
                Err(user_err(a, b, MObjParseErrorType::GprOutOfRange))
            }
        } else if psr {
            Ok(MObjOperand::Psr(v))
        } else {
            Ok(MObjOperand::Gpr(v))
        },
    }
}

/// The operand a token writes: a number is immediate, `rN` a GPR (0..=4095), `PSRN` a PSR
/// (0..=127).
pub open spec fn operand_spec(s: Seq<u8>, t: Token) -> Result<MObjOperand, MObjParseError> {
    let a = t.start as int;
    let b = t.end as int;
    match t.kind {
        TokenKind::Number(Some(v)) => Ok(MObjOperand::Imm(v)),
        TokenKind::Number(None) => Err(user_err(a, b, MObjParseErrorType::U32OutOfRange)),
        TokenKind::Comma => Err(unexpected(t)),
        TokenKind::Word => if !tok_in(s, t) {
            Err(unexpected(t))
        } else if s[a] == 0x72 && is_number_text(s, a + 1, b) {
            register_spec(s, a + 1, b, 4095, false)
        } else if b - a >= 4 && s.subrange(a, a + 3) == text_psr() && is_number_text(s, a + 3, b) {
            register_spec(s, a + 3, b, 127, true)
        } else {
            Err(unexpected(t))
        },
    }
}

/// An operand slot that may be `none`.
pub open spec fn opt_operand_spec(s: Seq<u8>, t: Token) -> Result<Option<MObjOperand>, MObjParseError> {
    if is_word(s, t, text_none()) {
        Ok(None)
    } else {
        match operand_spec(s, t) {
            Ok(o) => Ok(Some(o)),
            Err(e) => Err(e),
        }
    }
}

pub open spec fn operand_at(s: Seq<u8>, toks: Seq<Token>, k: int) -> Result<MObjOperand, MObjParseError> {
    if k < toks.len() { operand_spec(s, toks[k]) } else { Err(eof(s)) }
}

pub open spec fn opt_operand_at(s: Seq<u8>, toks: Seq<Token>, k: int) -> Result<Option<MObjOperand>, MObjParseError> {
    if k < toks.len() { opt_operand_spec(s, toks[k]) } else { Err(eof(s)) }
}

/// The error where a comma is expected at `k`, if any.
pub open spec fn comma_err(s: Seq<u8>, toks: Seq<Token>, k: int) -> Option<MObjParseError> {
    if k >= toks.len() {
        Some(eof(s))
    } else if toks[k].kind is Comma {
        None
    } else {
        Some(unexpected(toks[k]))
    }
}

/// Whether an optional operand is immediate.
pub open spec fn imm_flag(o: Option<MObjOperand>) -> bool {
    o matches Some(MObjOperand::Imm(_))
}

pub open spec fn word_or_zero(o: Option<MObjOperand>) -> u32 {
    match o {
        Some(x) => operand_word(x),
        None => 0,
    }
}

/// A command with up to two plain operands.
pub open spec fn generic_cmd(op: MObjOpcode, n: u8, a: Option<MObjOperand>, b: Option<MObjOperand>) -> MObjCmd {
    MObjCmd {
        inst: MObjInstruction {
            op_cnt: n,
            grp: op_group(op),
            sub_grp: op_sub_group(op),
            imm_op1: imm_flag(a),
            imm_op2: imm_flag(b),
            branch_opt: if op_group(op) == 0 { op_option(op) } else { 0 },
            cmp_opt: if op_group(op) == 1 { op_option(op) } else { 0 },
            set_opt: if op_group(op) == 2 { op_option(op) } else { 0 },
        },
        dst: word_or_zero(a),
        src: word_or_zero(b),
    }
}

/// A 16-bit `set_stream` slot: presence in bit 15, 12-bit value.
pub open spec fn stream_slot(o: Option<MObjOperand>) -> u32 {
    match o {
        Some(x) => 0x8000 | (operand_word(x) & 0xfff),
        None => 0,
    }
}

/// A `set_stream` or `set_stream_ss` command.
pub open spec fn set_stream_cmd(
    op: MObjOpcode,
    audio: Option<MObjOperand>,
    pg: Option<MObjOperand>,
    enabled: bool,
    ig: Option<MObjOperand>,
    angle: Option<MObjOperand>,
) -> MObjCmd {
    MObjCmd {
        inst: MObjInstruction {
            op_cnt: 2,
            grp: 2,
            sub_grp: 1,
            imm_op1: imm_flag(audio) || imm_flag(pg),
            imm_op2: imm_flag(ig) || imm_flag(angle),
            branch_opt: 0,
            cmp_opt: 0,
            set_opt: op_option(op),
        },
        dst: (stream_slot(audio) << 16u32) | stream_slot(pg) | (if enabled { 0x4000u32 } else { 0u32 }),
        src: (stream_slot(ig) << 16u32) | stream_slot(angle),
    }
}

/// A `set_button_page` slot: presence in bit 31, 30-bit value.
pub open spec fn page_slot(o: Option<MObjOperand>) -> u32 {
    match o {
        Some(x) => 0x80000000 | (operand_word(x) & 0x3fffffff),
        None => 0,
    }
}

/// A `set_button_page` command.
pub open spec fn set_button_page_cmd(button: Option<MObjOperand>, page: Option<MObjOperand>, skip_out: bool) -> MObjCmd {
    MObjCmd {
        inst: MObjInstruction {
            op_cnt: 2,
            grp: 2,
            sub_grp: 1,
            imm_op1: imm_flag(button),
            imm_op2: imm_flag(page),
            branch_opt: 0,
            cmp_opt: 0,
            set_opt: 3,
        },
        dst: page_slot(button),
        src: page_slot(page) | (if skip_out { 0x40000000u32 } else { 0u32 }),
    }
}

/// Whether two optional operands mix a register and an immediate.
pub open spec fn mixed(x: Option<MObjOperand>, y: Option<MObjOperand>) -> bool {
    x is Some && y is Some && imm_flag(x) != imm_flag(y)
}

pub open spec fn parse_generic(s: Seq<u8>, toks: Seq<Token>, op: MObjOpcode) -> Result<MObjCmd, MObjParseError> {
    if toks.len() == 1 {
        Ok(generic_cmd(op, 0, None, None))
    } else {
        match operand_spec(s, toks[1]) {
            Err(e) => Err(e),
            Ok(a) => if toks.len() == 2 {
                Ok(generic_cmd(op, 1, Some(a), None))
            } else if !(toks[2].kind is Comma) {
                Err(unexpected(toks[2]))
            } else {
                match operand_at(s, toks, 3) {
                    Err(e) => Err(e),
                    Ok(b) => if toks.len() > 4 {
                        Err(unexpected(toks[4]))
                    } else {
                        Ok(generic_cmd(op, 2, Some(a), Some(b)))
                    },
                }
            },
        }
    }
}

/// `enabled` or `disabled` at `k`.
pub open spec fn flag_at(s: Seq<u8>, toks: Seq<Token>, k: int) -> Result<bool, MObjParseError> {
    if k >= toks.len() {
        Err(eof(s))
    } else if is_word(s, toks[k], text_enabled()) {
        Ok(true)
    } else if is_word(s, toks[k], text_disabled()) {
        Ok(false)
    } else {
        Err(unexpected(toks[k]))
    }
}

#[verifier::opaque]
pub open spec fn parse_set_stream(s: Seq<u8>, toks: Seq<Token>, op: MObjOpcode) -> Result<MObjCmd, MObjParseError> {
    match opt_operand_at(s, toks, 1) {
        Err(e) => Err(e),
        Ok(audio) => match comma_err(s, toks, 2) {
            Some(e) => Err(e),
            None => match opt_operand_at(s, toks, 3) {
                Err(e) => Err(e),
                Ok(pg) => match comma_err(s, toks, 4) {
                    Some(e) => Err(e),
                    None => match flag_at(s, toks, 5) {
                        Err(e) => Err(e),
                        Ok(enabled) => match comma_err(s, toks, 6) {
                            Some(e) => Err(e),
                            None => match opt_operand_at(s, toks, 7) {
                                Err(e) => Err(e),
                                Ok(ig) => match comma_err(s, toks, 8) {
                                    Some(e) => Err(e),
                                    None => match opt_operand_at(s, toks, 9) {
                                        Err(e) => Err(e),
                                        Ok(angle) => if toks.len() > 10 {
                                            Err(unexpected(toks[10]))
                                        } else if mixed(audio, pg) {
                                            Err(user_err(toks[1].start as int, toks[3].end as int, MObjParseErrorType::SetStreamOperandTypeMismatch))
                                        } else if mixed(ig, angle) {
                                            Err(user_err(toks[7].start as int, toks[9].end as int, MObjParseErrorType::SetStreamOperandTypeMismatch))
                                        } else {
                                            Ok(set_stream_cmd(op, audio, pg, enabled, ig, angle))
                                        },
                                    },
                                },
                            },
                        },
                    },
                },
            },
        },
    }
}

#[verifier::opaque]
pub open spec fn parse_set_button_page(s: Seq<u8>, toks: Seq<Token>) -> Result<MObjCmd, MObjParseError> {
    match opt_operand_at(s, toks, 1) {
        Err(e) => Err(e),
        Ok(button) => match comma_err(s, toks, 2) {
            Some(e) => Err(e),
            None => match opt_operand_at(s, toks, 3) {
                Err(e) => Err(e),
                Ok(page) => if toks.len() == 4 {
                    Ok(set_button_page_cmd(button, page, false))
                } else {
                    match comma_err(s, toks, 4) {
                        Some(e) => Err(e),
                        None => if toks.len() == 5 {
                            Err(eof(s))
                        } else if !is_word(s, toks[5], text_skip_out()) {
                            Err(unexpected(toks[5]))
                        } else if toks.len() > 6 {
                            Err(unexpected(toks[6]))
                        } else {
                            Ok(set_button_page_cmd(button, page, true))
                        },
                    }
                },
            },
        },
    }
}

/// The command that a token list writes.
pub open spec fn parse_spec(s: Seq<u8>, toks: Seq<Token>) -> Result<MObjCmd, MObjParseError> {
    if toks.len() == 0 {
        Err(eof(s))
    } else if !(toks[0].kind is Word && tok_in(s, toks[0])) || op_named(tok_text(s, toks[0])) is None {
        Err(unexpected(toks[0]))
    } else {
        let op = op_named(tok_text(s, toks[0]))->Some_0;
        if op == MObjOpcode::SetStream || op == MObjOpcode::SetStreamSs {
            parse_set_stream(s, toks, op)
        } else if op == MObjOpcode::SetButtonPage {
            parse_set_button_page(s, toks)
        } else {
            parse_generic(s, toks, op)
        }
    }
}

/// The command that assembly text writes.
pub open spec fn assemble_spec(s: Seq<u8>) -> Result<MObjCmd, MObjParseError> {
    match lex_from(s, 0) {
        Err(e) => Err(e),
        Ok(toks) => parse_spec(s, toks),
    }
}

fn user_error(a: usize, b: usize, ty: MObjParseErrorType) -> (r: MObjParseError)
    ensures
        r == user_err(a as int, b as int, ty),
{
    MObjParseError::User { error: MObjParseErrorDetails { start: a, end: b, error_type: ty } }
}

fn unexpected_token(t: &Token) -> (r: MObjParseError)
    ensures
        r == unexpected(*t),
{
    MObjParseError::UnrecognizedToken { start: t.start, end: t.end }
}

fn eof_error(s: &[u8]) -> (r: MObjParseError)
    ensures
        r == eof(s@),
{
    MObjParseError::UnrecognizedEof { location: s.len() }
}

fn word_is(s: &[u8], t: &Token, w: Vec<u8>) -> (r: bool)
    ensures
        r == is_word(s@, *t, w@),
{
    match t.kind {
        TokenKind::Word => {
            if t.start < t.end && t.end <= s.len() {
                let part = &s[t.start..t.end];
                assert(part@ =~= s@.subrange(t.start as int, t.end as int));
                bytes_equal(part, w.as_slice())
            } else {
                false
            }
        },
        _ => false,
    }
}

fn register_operand(s: &[u8], a: usize, b: usize, max: u32, psr: bool) -> (r: Result<MObjOperand, MObjParseError>)
    requires
        is_number_text(s@, a as int, b as int),
        psr ==> a >= 3,
    ensures
        r == register_spec(s@, a as int, b as int, max as int, psr),
{
    match number_value(s, a, b) {
        None => Err(user_error(a, b, MObjParseErrorType::U32OutOfRange)),
        Some(v) => if v > max {
            if psr {
                Err(user_error(a - 3, b, MObjParseErrorType::PsrOutOfRange))
            } else {
                Err(user_error(a, b, MObjParseErrorType::GprOutOfRange))
            }
        } else if psr {
            Ok(MObjOperand::Psr(v))
        } else {
            Ok(MObjOperand::Gpr(v))
        },
    }
}

fn is_number_at(s: &[u8], a: usize, b: usize) -> (r: bool)
    requires
        a <= b <= s@.len(),
    ensures
        r == is_number_text(s@, a as int, b as int),
{
    if a >= b {
        return false;
    }
    let hexadecimal = b - a >= 3 && s[a] == 0x30 && s[a + 1] == 0x78 && hex(s[a + 2]);
    let (from, c) = if hexadecimal {
        (a + 2, Class::Hex)
    } else {
        (a, Class::Digit)
    };
    let prefix = &s[0..b];
    assert(prefix@ =~= s@.subrange(0, b as int));
    let end = scan(prefix, from, c);
    proof {
        if end == b {
            if hexadecimal {
                assert forall|k: int| a + 2 <= k < b implies is_hex(#[trigger] s@[k]) by {
                    assert(prefix@[k] == s@[k]);
                }
            } else {
                assert forall|k: int| a <= k < b implies is_digit(#[trigger] s@[k]) by {
                    assert(prefix@[k] == s@[k]);
                }
            }
        } else {
            assert(end < b);
            assert(prefix@[end as int] == s@[end as int]);
            lemma_run_end_stops(prefix@, from as int, class_fn(c));
        }
    }
    end == b
}

proof fn lemma_run_end_stops(s: Seq<u8>, i: int, f: spec_fn(u8) -> bool)
    requires
        0 <= i <= s.len(),
    ensures
        run_end(s, i, f) < s.len() ==> !f(s[run_end(s, i, f)]),
        i <= run_end(s, i, f) <= s.len(),
    decreases s.len() - i,
{
    if i < s.len() && f(s[i]) {
        lemma_run_end_stops(s, i + 1, f);
    }
}

fn psr_prefix(s: &[u8], a: usize) -> (r: bool)
    requires
        a + 3 <= s@.len(),
    ensures
        r == (s@.subrange(a as int, a + 3) == text_psr()),
{
    let _ = s.len();
    let part = &s[a..a + 3];
    assert(part@ =~= s@.subrange(a as int, a + 3));
    bytes_equal(part, vec![0x50, 0x53, 0x52].as_slice())
}

fn operand_token(s: &[u8], t: &Token) -> (r: Result<MObjOperand, MObjParseError>)
    ensures
        r == operand_spec(s@, *t),
{
    match t.kind {
        TokenKind::Number(Some(v)) => Ok(MObjOperand::Imm(v)),
        TokenKind::Number(None) => Err(user_error(t.start, t.end, MObjParseErrorType::U32OutOfRange)),
        TokenKind::Comma => Err(unexpected_token(t)),
        TokenKind::Word => {
            let a = t.start;
            let b = t.end;
            if !(a < b && b <= s.len()) {
                Err(unexpected_token(t))
            } else if s[a] == 0x72 && is_number_at(s, a + 1, b) {
                register_operand(s, a + 1, b, 4095, false)
            } else if b - a >= 4 && psr_prefix(s, a) && is_number_at(s, a + 3, b) {
                register_operand(s, a + 3, b, 127, true)
            } else {
                Err(unexpected_token(t))
            }
        },
    }
}

fn opt_operand_token(s: &[u8], t: &Token) -> (r: Result<Option<MObjOperand>, MObjParseError>)
    ensures
        r == opt_operand_spec(s@, *t),
{
    if word_is(s, t, vec![0x6e, 0x6f, 0x6e, 0x65]) {
        Ok(None)
    } else {
        match operand_token(s, t) {
            Ok(o) => Ok(Some(o)),
            Err(e) => Err(e),
        }
    }
}

fn operand_at_exec(s: &[u8], toks: &Vec<Token>, k: usize) -> (r: Result<MObjOperand, MObjParseError>)
    ensures
        r == operand_at(s@, toks@, k as int),
{
    if k < toks.len() {
        operand_token(s, &toks[k])
    } else {
        Err(eof_error(s))
    }
}

fn opt_operand_at_exec(s: &[u8], toks: &Vec<Token>, k: usize) -> (r: Result<Option<MObjOperand>, MObjParseError>)
    ensures
        r == opt_operand_at(s@, toks@, k as int),
{
    if k < toks.len() {
        opt_operand_token(s, &toks[k])
    } else {
        Err(eof_error(s))
    }
}

fn comma_error(s: &[u8], toks: &Vec<Token>, k: usize) -> (r: Option<MObjParseError>)
    ensures
        r == comma_err(s@, toks@, k as int),
{
    if k >= toks.len() {
        Some(eof_error(s))
    } else {
        match toks[k].kind {
            TokenKind::Comma => None,
            _ => Some(unexpected_token(&toks[k])),
        }
    }
}

fn flag_at_exec(s: &[u8], toks: &Vec<Token>, k: usize) -> (r: Result<bool, MObjParseError>)
    ensures
        r == flag_at(s@, toks@, k as int),
{
    if k >= toks.len() {
        Err(eof_error(s))
    } else if word_is(s, &toks[k], vec![0x65, 0x6e, 0x61, 0x62, 0x6c, 0x65, 0x64]) {
        Ok(true)
    } else if word_is(s, &toks[k], vec![0x64, 0x69, 0x73, 0x61, 0x62, 0x6c, 0x65, 0x64]) {
        Ok(false)
    } else {
        Err(unexpected_token(&toks[k]))
    }
}

fn imm_of(o: &Option<MObjOperand>) -> (r: bool)
    ensures
        r == imm_flag(*o),
{
    match o {
        Some(MObjOperand::Imm(_)) => true,
        _ => false,
    }
}

fn word_or_zero_exec(o: &Option<MObjOperand>) -> (r: u32)
    ensures
        r == word_or_zero(*o),
{
    match o {
        Some(x) => x.into_val(),
        None => 0,
    }
}

fn stream_slot_exec(o: &Option<MObjOperand>) -> (r: u32)
    ensures
        r == stream_slot(*o),
{
    match o {
        Some(x) => 0x8000 | (x.into_val() & 0xfff),
        None => 0,
    }
}

fn page_slot_exec(o: &Option<MObjOperand>) -> (r: u32)
    ensures
        r == page_slot(*o),
{
    match o {
        Some(x) => 0x80000000 | (x.into_val() & 0x3fffffff),
        None => 0,
    }
}

fn make_generic(op: MObjOpcode, n: u8, a: Option<MObjOperand>, b: Option<MObjOperand>) -> (r: MObjCmd)
    ensures
        r == generic_cmd(op, n, a, b),
{
    let grp = op.group();
    MObjCmd {
        inst: MObjInstruction {
            op_cnt: n,
            grp,
            sub_grp: op.sub_group(),
            imm_op1: imm_of(&a),
            imm_op2: imm_of(&b),
            branch_opt: if grp == 0 { op.option() } else { 0 },
            cmp_opt: if grp == 1 { op.option() } else { 0 },
            set_opt: if grp == 2 { op.option() } else { 0 },
        },
        dst: word_or_zero_exec(&a),
        src: word_or_zero_exec(&b),
    }
}

fn make_set_stream(
    op: MObjOpcode,
    audio: Option<MObjOperand>,
    pg: Option<MObjOperand>,
    enabled: bool,
    ig: Option<MObjOperand>,
    angle: Option<MObjOperand>,
) -> (r: MObjCmd)
    ensures
        r == set_stream_cmd(op, audio, pg, enabled, ig, angle),
{
    MObjCmd {
        inst: MObjInstruction {
            op_cnt: 2,
            grp: 2,
            sub_grp: 1,
            imm_op1: imm_of(&audio) || imm_of(&pg),
            imm_op2: imm_of(&ig) || imm_of(&angle),
            branch_opt: 0,
            cmp_opt: 0,
            set_opt: op.option(),
        },
        dst: (stream_slot_exec(&audio) << 16u32) | stream_slot_exec(&pg) | (if enabled { 0x4000u32 } else { 0u32 }),
        src: (stream_slot_exec(&ig) << 16u32) | stream_slot_exec(&angle),
    }
}

fn make_set_button_page(button: Option<MObjOperand>, page: Option<MObjOperand>, skip_out: bool) -> (r: MObjCmd)
    ensures
        r == set_button_page_cmd(button, page, skip_out),
{
    MObjCmd {
        inst: MObjInstruction {
            op_cnt: 2,
            grp: 2,
            sub_grp: 1,
            imm_op1: imm_of(&button),
            imm_op2: imm_of(&page),
            branch_opt: 0,
            cmp_opt: 0,
            set_opt: 3,
        },
        dst: page_slot_exec(&button),
        src: page_slot_exec(&page) | (if skip_out { 0x40000000u32 } else { 0u32 }),
    }
}

fn mixed_exec(x: &Option<MObjOperand>, y: &Option<MObjOperand>) -> (r: bool)
    ensures
        r == mixed(*x, *y),
{
    x.is_some() && y.is_some() && imm_of(x) != imm_of(y)
}

fn parse_generic_exec(s: &[u8], toks: &Vec<Token>, op: MObjOpcode) -> (r: Result<MObjCmd, MObjParseError>)
    requires
        toks@.len() >= 1,
    ensures
        r == parse_generic(s@, toks@, op),
{
    if toks.len() == 1 {
        return Ok(make_generic(op, 0, None, None));
    }
    let a = operand_token(s, &toks[1])?;
    if toks.len() == 2 {
        return Ok(make_generic(op, 1, Some(a), None));
    }
    match toks[2].kind {
        TokenKind::Comma => {},
        _ => {
            return Err(unexpected_token(&toks[2]));
        },
    }
    let b = operand_at_exec(s, toks, 3)?;
    if toks.len() > 4 {
        return Err(unexpected_token(&toks[4]));
    }
    Ok(make_generic(op, 2, Some(a), Some(b)))
}

fn parse_set_stream_exec(s: &[u8], toks: &Vec<Token>, op: MObjOpcode) -> (r: Result<MObjCmd, MObjParseError>)
    ensures
        r == parse_set_stream(s@, toks@, op),
{
    reveal(parse_set_stream);
    let audio = opt_operand_at_exec(s, toks, 1)?;
    if let Some(e) = comma_error(s, toks, 2) {
        return Err(e);
    }
    let pg = opt_operand_at_exec(s, toks, 3)?;
    if let Some(e) = comma_error(s, toks, 4) {
        return Err(e);
    }
    let enabled = flag_at_exec(s, toks, 5)?;
    if let Some(e) = comma_error(s, toks, 6) {
        return Err(e);
    }
    let ig = opt_operand_at_exec(s, toks, 7)?;
    if let Some(e) = comma_error(s, toks, 8) {
        return Err(e);
    }
    let angle = opt_operand_at_exec(s, toks, 9)?;
    if toks.len() > 10 {
        return Err(unexpected_token(&toks[10]));
    }
    if mixed_exec(&audio, &pg) {
        return Err(user_error(toks[1].start, toks[3].end, MObjParseErrorType::SetStreamOperandTypeMismatch));
    }
    if mixed_exec(&ig, &angle) {
        return Err(user_error(toks[7].start, toks[9].end, MObjParseErrorType::SetStreamOperandTypeMismatch));
    }
    Ok(make_set_stream(op, audio, pg, enabled, ig, angle))
}

fn parse_set_button_page_exec(s: &[u8], toks: &Vec<Token>) -> (r: Result<MObjCmd, MObjParseError>)
    ensures
        r == parse_set_button_page(s@, toks@),
{
    reveal(parse_set_button_page);
    let button = opt_operand_at_exec(s, toks, 1)?;
    if let Some(e) = comma_error(s, toks, 2) {
        return Err(e);
    }
    let page = opt_operand_at_exec(s, toks, 3)?;
    if toks.len() == 4 {
        return Ok(make_set_button_page(button, page, false));
    }
    if let Some(e) = comma_error(s, toks, 4) {
        return Err(e);
    }
    if toks.len() == 5 {
        return Err(eof_error(s));
    }
    if !word_is(s, &toks[5], vec![0x73, 0x6b, 0x69, 0x70, 0x5f, 0x6f, 0x75, 0x74]) {
        return Err(unexpected_token(&toks[5]));
    }
    if toks.len() > 6 {
        return Err(unexpected_token(&toks[6]));
    }
    Ok(make_set_button_page(button, page, true))
}

/// Parses a token list as one command.
pub fn parse_tokens(s: &[u8], toks: &Vec<Token>) -> (r: Result<MObjCmd, MObjParseError>)
    ensures
        r == parse_spec(s@, toks@),
{
    if toks.len() == 0 {
        return Err(eof_error(s));
    }
    let t0 = toks[0];
    let named = match t0.kind {
        TokenKind::Word => if t0.start < t0.end && t0.end <= s.len() {
            let w = &s[t0.start..t0.end];
            assert(w@ =~= tok_text(s@, t0));
            opcode_named(w)
        } else {
            None
        },
        _ => None,
    };
    match named {
        None => Err(unexpected_token(&t0)),
        Some(op) => {
            if op == MObjOpcode::SetStream || op == MObjOpcode::SetStreamSs {
                parse_set_stream_exec(s, toks, op)
            } else if op == MObjOpcode::SetButtonPage {
                parse_set_button_page_exec(s, toks)
            } else {
                parse_generic_exec(s, toks, op)
            }
        },
    }
}

impl MObjCmd {
    /// Assembles one command from its text: a mnemonic, then operands separated by commas.
    /// Whitespace and `/* */` comments may stand between tokens.
    pub fn assemble(s: &str) -> (r: Result<MObjCmd, MObjParseError>)
        ensures
            r == assemble_spec(s.spec_bytes()),
    {
        let b = s.as_bytes();
        let toks = lex(b)?;
        parse_tokens(b, &toks)
    }
}

impl MObjParseError {
    /// The byte range of the text that the error concerns, for underlining: a single offset
    /// for an invalid token or an early end.
    pub fn span(&self) -> (r: (usize, usize))
        ensures
            r == match *self {
                MObjParseError::InvalidToken { location } => (location, location),
                MObjParseError::UnrecognizedEof { location } => (location, location),
                MObjParseError::UnrecognizedToken { start, end } => (start, end),
                MObjParseError::User { error } => (error.start, error.end),
            },
    {
        match *self {
            MObjParseError::InvalidToken { location } => (location, location),
            MObjParseError::UnrecognizedEof { location } => (location, location),
            MObjParseError::UnrecognizedToken { start, end } => (start, end),
            MObjParseError::User { error } => (error.start, error.end),
        }
    }
}

} // verus!
