//! The lexer and grammar. Source text is a sequence of bytes (the dialect
//! is plain ASCII; any other byte is an invalid token): one header line of
//! four integers — word width, register count, stack size, heap size —
//! followed by label declarations and instructions, one per line. Operands
//! are `R<index>` or `SP` for registers, a signed integer literal for
//! immediates, and a bare identifier for label references; a label is
//! declared as `.name`. Parsing is a pure function: it yields the whole
//! program and its header, or a failure with the offending byte span —
//! never a partial program.

use vstd::prelude::*;
use vstd::string::StringSliceAdditionalSpecFns;

use crate::codegen::OpcodeKind;
use crate::opcodes::{HeaderConfig, Instruction, LabelHash, Opcode, Operand, Port, Program,
    Register};

verus! {

/// The payload of one token.
#[derive(Debug, Clone, Copy, PartialEq, Eq, Structural)]
pub enum TokenData {
    /// An unsigned integer literal (a minus sign is its own token).
    Int(u64),
    Minus,
    /// A general-purpose register, `R<index>`.
    Reg(u8),
    /// The stack pointer, `SP`.
    SpReg,
    /// A bare identifier: a label reference. Its text is the token's span
    /// of the source.
    Ident,
    /// A label declaration, `.name`. Its text is the token's span of the
    /// source without the leading dot.
    LabelDef,
    /// An opcode mnemonic.
    Mn(OpcodeKind),
    /// A port name.
    PortName(Port),
    Newline,
}

/// One token: its byte span in the source and its payload.
#[derive(Debug, Clone, Copy, PartialEq, Eq, Structural)]
pub struct Token {
    pub start: usize,
    pub end: usize,
    pub data: TokenData,
}

/// The set of token kinds a failing parse expected at the offending spot.
#[derive(Debug, Clone, Copy, PartialEq, Eq, Structural)]
pub struct ExpectedSet {
    pub int: bool,
    pub minus: bool,
    pub reg: bool,
    pub sp: bool,
    pub ident: bool,
    pub label_def: bool,
    pub mnemonic: bool,
    pub port: bool,
    pub newline: bool,
}

/// Why parsing failed.
#[derive(Debug, Clone, Copy, PartialEq, Eq, Structural)]
pub enum ParseFailureKind {
    /// A token standing where the line should have ended.
    UnexpectedToken,
    /// A byte sequence that is no token at all (or a literal too large
    /// for its place).
    InvalidToken,
    /// The source ended where one of the expected kinds was owed.
    UnexpectedEndOfInput { expected: ExpectedSet },
    /// A well-formed token of the wrong kind.
    UnrecognizedToken { expected: ExpectedSet },
}

/// A parse failure: what went wrong and the byte span of the source it
/// went wrong at.
#[derive(Debug, Clone, Copy, PartialEq, Eq, Structural)]
pub struct ParseFailure {
    pub kind: ParseFailureKind,
    pub start: usize,
    pub end: usize,
}

pub open spec fn is_space(c: u8) -> bool {
    c == 32 || c == 9 || c == 13
}

pub open spec fn is_digit(c: u8) -> bool {
    48 <= c <= 57
}

pub open spec fn is_word_start(c: u8) -> bool {
    (65 <= c <= 90) || (97 <= c <= 122) || c == 95
}

pub open spec fn is_word_char(c: u8) -> bool {
    is_word_start(c) || is_digit(c)
}

/// The first position at or after `i` that is not a digit.
pub open spec fn digits_end(s: Seq<u8>, i: int) -> int
    decreases s.len() - i,
{
    if i < 0 || i >= s.len() || !is_digit(s[i]) {
        i
    } else {
        digits_end(s, i + 1)
    }
}

/// The first position at or after `i` that is not a word character.
pub open spec fn word_end(s: Seq<u8>, i: int) -> int
    decreases s.len() - i,
{
    if i < 0 || i >= s.len() || !is_word_char(s[i]) {
        i
    } else {
        word_end(s, i + 1)
    }
}

/// The value of the digit run `s[i..j)`.
pub open spec fn digits_val(s: Seq<u8>, i: int, j: int) -> nat
    decreases j - i,
{
    if j <= i {
        0
    } else {
        digits_val(s, i, j - 1) * 10 + ((s[j - 1] - 48) as nat)
    }
}

proof fn lemma_digits_end_bounds(s: Seq<u8>, i: int)
    requires
        0 <= i <= s.len(),
    ensures
        i <= digits_end(s, i) <= s.len(),
        i < s.len() && is_digit(s[i]) ==> i < digits_end(s, i),
    decreases s.len() - i,
{
    if i < s.len() && is_digit(s[i]) {
        lemma_digits_end_bounds(s, i + 1);
    }
}

proof fn lemma_word_end_bounds(s: Seq<u8>, i: int)
    requires
        0 <= i <= s.len(),
    ensures
        i <= word_end(s, i) <= s.len(),
        i < s.len() && is_word_char(s[i]) ==> i < word_end(s, i),
    decreases s.len() - i,
{
    if i < s.len() && is_word_char(s[i]) {
        lemma_word_end_bounds(s, i + 1);
    }
}

/// Classify the word `s[i..j)`: the stack pointer, a register index, a
/// mnemonic, a port name, or a bare identifier. A register index beyond
/// the widest register file (255) is no token.
pub open spec fn classify_word(s: Seq<u8>, i: int, j: int) -> Result<TokenData, ParseFailure> {
    let n = j - i;
    if n == 2 && s[i] == 83 && s[i + 1] == 80 {  // SP
        Ok(TokenData::SpReg)
    } else if s[i] == 82 && n >= 2 && digits_end(s, i + 1) >= j {  // R<index>
        if digits_val(s, i + 1, j) <= 255 {
            Ok(TokenData::Reg(digits_val(s, i + 1, j) as u8))
        } else {
            Err(ParseFailure { kind: ParseFailureKind::InvalidToken, start: i as usize, end: j as usize })
        }
    } else {
        match mnemonic_of(s, i, j) {
            Some(k) => Ok(TokenData::Mn(k)),
            None => match port_of(s, i, j) {
                Some(p) => Ok(TokenData::PortName(p)),
                None => Ok(TokenData::Ident),
            },
        }
    }
}

/// The mnemonic the word `s[i..j)` spells, if any.
pub open spec fn mnemonic_of(s: Seq<u8>, i: int, j: int) -> Option<OpcodeKind> {
    let n = j - i;
    if n == 2 {
        if s[i] == 73 && s[i + 1] == 78 {  // IN
            Some(OpcodeKind::In)
        } else {
            None
        }
    } else if n == 3 {
        let (a, b, c) = (s[i], s[i + 1], s[i + 2]);
        if a == 65 && b == 68 && c == 68 {  // ADD
            Some(OpcodeKind::Add)
        } else if a == 83 && b == 85 && c == 66 {  // SUB
            Some(OpcodeKind::Sub)
        } else if a == 77 && b == 85 && c == 76 {  // MUL
            Some(OpcodeKind::Mul)
        } else if a == 68 && b == 73 && c == 86 {  // DIV
            Some(OpcodeKind::Div)
        } else if a == 77 && b == 79 && c == 68 {  // MOD
            Some(OpcodeKind::Mod)
        } else if a == 77 && b == 79 && c == 86 {  // MOV
            Some(OpcodeKind::Mov)
        } else if a == 73 && b == 77 && c == 77 {  // IMM
            Some(OpcodeKind::Imm)
        } else if a == 74 && b == 77 && c == 80 {  // JMP
            Some(OpcodeKind::Jmp)
        } else if a == 82 && b == 83 && c == 72 {  // RSH
            Some(OpcodeKind::Rsh)
        } else if a == 76 && b == 83 && c == 72 {  // LSH
            Some(OpcodeKind::Lsh)
        } else if a == 76 && b == 79 && c == 68 {  // LOD
            Some(OpcodeKind::Lod)
        } else if a == 83 && b == 84 && c == 82 {  // STR
            Some(OpcodeKind::Str)
        } else if a == 66 && b == 71 && c == 69 {  // BGE
            Some(OpcodeKind::Bge)
        } else if a == 78 && b == 79 && c == 82 {  // NOR
            Some(OpcodeKind::Nor)
        } else if a == 79 && b == 85 && c == 84 {  // OUT
            Some(OpcodeKind::Out)
        } else if a == 66 && b == 82 && c == 67 {  // BRC
            Some(OpcodeKind::Brc)
        } else if a == 66 && b == 78 && c == 67 {  // BNC
            Some(OpcodeKind::Bnc)
        } else if a == 72 && b == 76 && c == 84 {  // HLT
            Some(OpcodeKind::Hlt)
        } else {
            None
        }
    } else {
        None
    }
}

/// The port the word `s[i..j)` names, if any.
pub open spec fn port_of(s: Seq<u8>, i: int, j: int) -> Option<Port> {
    let n = j - i;
    if n == 1 && s[i] == 88 {  // X
        Some(Port::X)
    } else if n == 1 && s[i] == 89 {  // Y
        Some(Port::Y)
    } else if n == 4 && s[i] == 84 && s[i + 1] == 69 && s[i + 2] == 88 && s[i + 3] == 84 {  // TEXT
        Some(Port::Text)
    } else if n == 4 && s[i] == 78 && s[i + 1] == 85 && s[i + 2] == 77 && s[i + 3] == 66 {  // NUMB
        Some(Port::Numb)
    } else if n == 6 && s[i] == 67 && s[i + 1] == 79 && s[i + 2] == 76 && s[i + 3] == 79 && s[i
        + 4] == 85 && s[i + 5] == 82 {  // COLOUR
        Some(Port::Colour)
    } else {
        None
    }
}

/// The next token at position `i` (requires `0 <= i < s.len()`): `None`
/// skips one byte of whitespace, `Some` is a token; either way the new
/// position follows it.
pub open spec fn spec_next(s: Seq<u8>, i: int) -> Result<(Option<Token>, int), ParseFailure> {
    if is_space(s[i]) {
        Ok((None, i + 1))
    } else if s[i] == 10 {  // newline
        Ok((Some(Token { start: i as usize, end: (i + 1) as usize, data: TokenData::Newline }), i + 1))
    } else if is_digit(s[i]) {
        let j = digits_end(s, i);
        if digits_val(s, i, j) > 0x7fff_ffff_ffff_ffff {
            Err(ParseFailure { kind: ParseFailureKind::InvalidToken, start: i as usize, end: j as usize })
        } else {
            Ok(
                (
                    Some(
                        Token {
                            start: i as usize,
                            end: j as usize,
                            data: TokenData::Int(digits_val(s, i, j) as u64),
                        },
                    ),
                    j,
                ),
            )
        }
    } else if s[i] == 45 {  // minus
        Ok((Some(Token { start: i as usize, end: (i + 1) as usize, data: TokenData::Minus }), i + 1))
    } else if is_word_start(s[i]) {
        let j = word_end(s, i);
        match classify_word(s, i, j) {
            Err(e) => Err(e),
            Ok(d) => Ok((Some(Token { start: i as usize, end: j as usize, data: d }), j)),
        }
    } else if s[i] == 46 {  // dot: a label declaration
        if i + 1 < s.len() && is_word_start(s[i + 1]) {
            let j = word_end(s, i + 1);
            Ok((Some(Token { start: i as usize, end: j as usize, data: TokenData::LabelDef }), j))
        } else {
            Err(
                ParseFailure {
                    kind: ParseFailureKind::InvalidToken,
                    start: i as usize,
                    end: (i + 1) as usize,
                },
            )
        }
    } else {
        Err(
            ParseFailure {
                kind: ParseFailureKind::InvalidToken,
                start: i as usize,
                end: (i + 1) as usize,
            },
        )
    }
}

/// The next token always stands strictly after `i`, within the source.
proof fn lemma_next_advances(s: Seq<u8>, i: int)
    requires
        0 <= i < s.len(),
    ensures
        spec_next(s, i) matches Ok(r) ==> i < r.1 <= s.len(),
{
    lemma_digits_end_bounds(s, i);
    lemma_word_end_bounds(s, i);
    if i + 1 <= s.len() {
        lemma_word_end_bounds(s, i + 1);
    }
}

/// The token sequence of `s[i..)`, or the first lexical failure.
pub open spec fn spec_tokens(s: Seq<u8>, i: int) -> Result<Seq<Token>, ParseFailure>
    decreases s.len() - i,
    when 0 <= i
    via spec_tokens_dec
{
    if i >= s.len() {
        Ok(Seq::empty())
    } else {
        match spec_next(s, i) {
            Err(e) => Err(e),
            Ok((None, j)) => spec_tokens(s, j),
            Ok((Some(t), j)) => match spec_tokens(s, j) {
                Err(e) => Err(e),
                Ok(rest) => Ok(seq![t] + rest),
            },
        }
    }
}

#[via_fn]
proof fn spec_tokens_dec(s: Seq<u8>, i: int) {
    if 0 <= i < s.len() {
        lemma_next_advances(s, i);
    }
}

/// Find the end of a digit run.
fn scan_digits(bytes: &[u8], i: usize) -> (j: usize)
    requires
        i <= bytes@.len(),
    ensures
        j == digits_end(bytes@, i as int),
        i <= j <= bytes@.len(),
{
    proof {
        lemma_digits_end_bounds(bytes@, i as int);
    }
    let mut j = i;
    while j < bytes.len() && 48 <= bytes[j] && bytes[j] <= 57
        invariant
            i <= j <= bytes@.len(),
            digits_end(bytes@, i as int) == digits_end(bytes@, j as int),
        decreases bytes@.len() - j,
    {
        j = j + 1;
    }
    j
}

/// Find the end of a word.
fn scan_word(bytes: &[u8], i: usize) -> (j: usize)
    requires
        i <= bytes@.len(),
    ensures
        j == word_end(bytes@, i as int),
        i <= j <= bytes@.len(),
{
    proof {
        lemma_word_end_bounds(bytes@, i as int);
    }
    let mut j = i;
    while j < bytes.len() && ((65 <= bytes[j] && bytes[j] <= 90) || (97 <= bytes[j] && bytes[j]
        <= 122) || bytes[j] == 95 || (48 <= bytes[j] && bytes[j] <= 57))
        invariant
            i <= j <= bytes@.len(),
            word_end(bytes@, i as int) == word_end(bytes@, j as int),
        decreases bytes@.len() - j,
    {
        j = j + 1;
    }
    j
}

/// A longer digit run is worth at least as much.
proof fn lemma_digits_val_monotone(s: Seq<u8>, i: int, k: int, j: int)
    requires
        i <= k <= j,
    ensures
        digits_val(s, i, k) <= digits_val(s, i, j),
    decreases j - k,
{
    if k < j {
        lemma_digits_val_monotone(s, i, k + 1, j);
        assert(digits_val(s, i, k + 1) == digits_val(s, i, k) * 10 + ((s[k] - 48) as nat));
        assert(digits_val(s, i, k) * 10 >= digits_val(s, i, k)) by (nonlinear_arith);
    }
}

/// The value of the digit run `bytes[i..j)`, or `None` if it exceeds the
/// largest immediate (the largest signed 64-bit value).
fn digits_value(bytes: &[u8], i: usize, j: usize) -> (r: Option<u64>)
    requires
        i <= j <= bytes@.len(),
        forall|k: int| i <= k < j ==> is_digit(#[trigger] bytes@[k]),
    ensures
        digits_val(bytes@, i as int, j as int) <= 0x7fff_ffff_ffff_ffff ==> r == Some(
            (digits_val(bytes@, i as int, j as int) as u64),
        ),
        digits_val(bytes@, i as int, j as int) > 0x7fff_ffff_ffff_ffff ==> r is None,
{
    let mut acc: u64 = 0;
    let mut k = i;
    while k < j
        invariant
            i <= k <= j <= bytes@.len(),
            forall|q: int| i <= q < j ==> is_digit(#[trigger] bytes@[q]),
            acc == digits_val(bytes@, i as int, k as int),
            acc <= 0x7fff_ffff_ffff_ffff,
        decreases j - k,
    {
        let d = bytes[k] - 48;
        let wide: u128 = (acc as u128) * 10 + (d as u128);
        if wide > 0x7fff_ffff_ffff_ffff {
            proof {
                lemma_digits_val_monotone(bytes@, i as int, k as int + 1, j as int);
            }
            return None;
        }
        acc = wide as u64;
        k = k + 1;
    }
    Some(acc)
}

/// Classify a word; mirrors `classify_word`.
fn classify_word_exec(bytes: &[u8], i: usize, j: usize) -> (r: Result<TokenData, ParseFailure>)
    requires
        i < j <= bytes@.len(),
    ensures
        r == classify_word(bytes@, i as int, j as int),
{
    let n = j - i;
    if n == 2 && bytes[i] == 83 && bytes[i + 1] == 80 {
        return Ok(TokenData::SpReg);
    }
    if bytes[i] == 82 && n >= 2 {
        let de = scan_digits(bytes, i + 1);
        if de >= j {
            proof {
                lemma_digits_end_bounds(bytes@, i as int + 1);
                assert(forall|k: int|
                    i + 1 <= k < j ==> is_digit(#[trigger] bytes@[k])) by {
                    lemma_digits_prefix(bytes@, i as int + 1, j as int);
                }
            }
            match digits_value(bytes, i + 1, j) {
                Some(v) => if v <= 255 {
                    return Ok(TokenData::Reg(v as u8));
                } else {
                    return Err(
                        ParseFailure { kind: ParseFailureKind::InvalidToken, start: i, end: j },
                    );
                },
                None => {
                    return Err(
                        ParseFailure { kind: ParseFailureKind::InvalidToken, start: i, end: j },
                    );
                },
            }
        }
    }
    match mnemonic_of_exec(bytes, i, j) {
        Some(k) => Ok(TokenData::Mn(k)),
        None => match port_of_exec(bytes, i, j) {
            Some(p) => Ok(TokenData::PortName(p)),
            None => Ok(TokenData::Ident),
        },
    }
}

/// Everything before a digit run's end is a digit.
proof fn lemma_digits_prefix(s: Seq<u8>, i: int, j: int)
    requires
        0 <= i,
        j <= digits_end(s, i),
    ensures
        forall|k: int| i <= k < j ==> is_digit(#[trigger] s[k]),
    decreases s.len() - i,
{
    if i < s.len() && is_digit(s[i]) && i + 1 <= j {
        lemma_digits_prefix(s, i + 1, j);
    }
}

/// Spell out a mnemonic; mirrors `mnemonic_of`.
fn mnemonic_of_exec(bytes: &[u8], i: usize, j: usize) -> (r: Option<OpcodeKind>)
    requires
        i < j <= bytes@.len(),
    ensures
        r == mnemonic_of(bytes@, i as int, j as int),
{
    let n = j - i;
    if n == 2 {
        if bytes[i] == 73 && bytes[i + 1] == 78 {
            Some(OpcodeKind::In)
        } else {
            None
        }
    } else if n == 3 {
        let a = bytes[i];
        let b = bytes[i + 1];
        let c = bytes[i + 2];
        if a == 65 && b == 68 && c == 68 {
            Some(OpcodeKind::Add)
        } else if a == 83 && b == 85 && c == 66 {
            Some(OpcodeKind::Sub)
        } else if a == 77 && b == 85 && c == 76 {
            Some(OpcodeKind::Mul)
        } else if a == 68 && b == 73 && c == 86 {
            Some(OpcodeKind::Div)
        } else if a == 77 && b == 79 && c == 68 {
            Some(OpcodeKind::Mod)
        } else if a == 77 && b == 79 && c == 86 {
            Some(OpcodeKind::Mov)
        } else if a == 73 && b == 77 && c == 77 {
            Some(OpcodeKind::Imm)
        } else if a == 74 && b == 77 && c == 80 {
            Some(OpcodeKind::Jmp)
        } else if a == 82 && b == 83 && c == 72 {
            Some(OpcodeKind::Rsh)
        } else if a == 76 && b == 83 && c == 72 {
            Some(OpcodeKind::Lsh)
        } else if a == 76 && b == 79 && c == 68 {
            Some(OpcodeKind::Lod)
        } else if a == 83 && b == 84 && c == 82 {
            Some(OpcodeKind::Str)
        } else if a == 66 && b == 71 && c == 69 {
            Some(OpcodeKind::Bge)
        } else if a == 78 && b == 79 && c == 82 {
            Some(OpcodeKind::Nor)
        } else if a == 79 && b == 85 && c == 84 {
            Some(OpcodeKind::Out)
        } else if a == 66 && b == 82 && c == 67 {
            Some(OpcodeKind::Brc)
        } else if a == 66 && b == 78 && c == 67 {
            Some(OpcodeKind::Bnc)
        } else if a == 72 && b == 76 && c == 84 {
            Some(OpcodeKind::Hlt)
        } else {
            None
        }
    } else {
        None
    }
}

/// Spell out a port name; mirrors `port_of`.
fn port_of_exec(bytes: &[u8], i: usize, j: usize) -> (r: Option<Port>)
    requires
        i < j <= bytes@.len(),
    ensures
        r == port_of(bytes@, i as int, j as int),
{
    let n = j - i;
    if n == 1 && bytes[i] == 88 {
        Some(Port::X)
    } else if n == 1 && bytes[i] == 89 {
        Some(Port::Y)
    } else if n == 4 && bytes[i] == 84 && bytes[i + 1] == 69 && bytes[i + 2] == 88 && bytes[i + 3]
        == 84 {
        Some(Port::Text)
    } else if n == 4 && bytes[i] == 78 && bytes[i + 1] == 85 && bytes[i + 2] == 77 && bytes[i + 3]
        == 66 {
        Some(Port::Numb)
    } else if n == 6 && bytes[i] == 67 && bytes[i + 1] == 79 && bytes[i + 2] == 76 && bytes[i + 3]
        == 79 && bytes[i + 4] == 85 && bytes[i + 5] == 82 {
        Some(Port::Colour)
    } else {
        None
    }
}

/// Every token of `spec_tokens` spans real source bytes, a label
/// declaration always has a name after its dot, and an integer literal
/// fits the largest immediate.
pub open spec fn wf_tokens(ts: Seq<Token>, len: nat) -> bool {
    forall|k: int|
        0 <= k < ts.len() ==> (#[trigger] ts[k]).start <= ts[k].end <= len && (ts[k].data
            is LabelDef ==> ts[k].start + 1 <= ts[k].end) && (ts[k].data matches TokenData::Int(v)
            ==> v <= 0x7fff_ffff_ffff_ffff)
}

/// Tokenize the source; yields exactly `spec_tokens`, every token span
/// within the source and every failure span within the source.
fn tokenize(bytes: &[u8]) -> (r: Result<Vec<Token>, ParseFailure>)
    ensures
        match spec_tokens(bytes@, 0) {
            Ok(ts) => r matches Ok(v) && v@ == ts && wf_tokens(ts, bytes@.len()),
            Err(e) => r == Err::<Vec<Token>, ParseFailure>(e) && e.start <= e.end <= bytes@.len(),
        },
{
    let mut acc: Vec<Token> = Vec::new();
    let mut i: usize = 0;
    while i < bytes.len()
        invariant
            i <= bytes@.len(),
            wf_tokens(acc@, bytes@.len()),
            spec_tokens(bytes@, 0) is Ok ==> spec_tokens(bytes@, i as int) is Ok && spec_tokens(
                bytes@,
                0,
            )->Ok_0 == acc@ + spec_tokens(bytes@, i as int)->Ok_0,
            spec_tokens(bytes@, 0) is Err ==> spec_tokens(bytes@, i as int) == spec_tokens(
                bytes@,
                0,
            ),
        decreases bytes@.len() - i,
    {
        let ghost i0 = i as int;
        proof {
            lemma_next_advances(bytes@, i0);
        }
        let c = bytes[i];
        let step: Result<(Option<Token>, usize), ParseFailure> = if c == 32 || c == 9 || c == 13 {
            Ok((None, i + 1))
        } else if c == 10 {
            Ok((Some(Token { start: i, end: i + 1, data: TokenData::Newline }), i + 1))
        } else if 48 <= c && c <= 57 {
            let j = scan_digits(bytes, i);
            proof {
                lemma_digits_prefix(bytes@, i0, j as int);
            }
            match digits_value(bytes, i, j) {
                Some(v) => Ok((Some(Token { start: i, end: j, data: TokenData::Int(v) }), j)),
                None => Err(
                    ParseFailure { kind: ParseFailureKind::InvalidToken, start: i, end: j },
                ),
            }
        } else if c == 45 {
            Ok((Some(Token { start: i, end: i + 1, data: TokenData::Minus }), i + 1))
        } else if (65 <= c && c <= 90) || (97 <= c && c <= 122) || c == 95 {
            let j = scan_word(bytes, i);
            match classify_word_exec(bytes, i, j) {
                Err(e) => Err(e),
                Ok(d) => Ok((Some(Token { start: i, end: j, data: d }), j)),
            }
        } else if c == 46 {
            if i + 1 < bytes.len() && ((65 <= bytes[i + 1] && bytes[i + 1] <= 90) || (97 <= bytes[i
                + 1] && bytes[i + 1] <= 122) || bytes[i + 1] == 95) {
                let j = scan_word(bytes, i + 1);
                proof {
                    lemma_word_end_bounds(bytes@, i0 + 1);
                }
                Ok((Some(Token { start: i, end: j, data: TokenData::LabelDef }), j))
            } else {
                Err(ParseFailure { kind: ParseFailureKind::InvalidToken, start: i, end: i + 1 })
            }
        } else {
            Err(ParseFailure { kind: ParseFailureKind::InvalidToken, start: i, end: i + 1 })
        };
        assert(match spec_next(bytes@, i0) {
            Ok((ot, j)) => step matches Ok(r) && r.0 == ot && r.1 == j,
            Err(e) => step == Err::<(Option<Token>, usize), ParseFailure>(e),
        });
        match step {
            Err(e) => {
                proof {
                    if spec_tokens(bytes@, 0) is Ok {
                        assert(spec_tokens(bytes@, i0) is Ok);
                        assert(false);
                    }
                }
                return Err(e);
            },
            Ok((ot, j)) => {
                proof {
                    if spec_tokens(bytes@, 0) is Ok {
                        let rest = spec_tokens(bytes@, i0)->Ok_0;
                        let rest2 = spec_tokens(bytes@, j as int)->Ok_0;
                        match spec_next(bytes@, i0) {
                            Ok((Some(t), _)) => {
                                assert(rest == seq![t] + rest2);
                                assert(acc@ + (seq![t] + rest2) =~= (acc@ + seq![t]) + rest2);
                                assert(acc@.push(t) =~= acc@ + seq![t]);
                            },
                            _ => {},
                        }
                    }
                }
                match ot {
                    Some(t) => {
                        acc.push(t);
                    },
                    None => {},
                }
                i = j;
            },
        }
    }
    proof {
        if spec_tokens(bytes@, 0) is Ok {
            assert(spec_tokens(bytes@, i as int) == Ok::<Seq<Token>, ParseFailure>(Seq::empty()));
            assert(spec_tokens(bytes@, 0)->Ok_0 =~= acc@);
        }
    }
    Ok(acc)
}

/// An empty expected set, for the constructors below to fill.
pub open spec fn exp_none() -> ExpectedSet {
    ExpectedSet {
        int: false,
        minus: false,
        reg: false,
        sp: false,
        ident: false,
        label_def: false,
        mnemonic: false,
        port: false,
        newline: false,
    }
}

/// What a header field may be: an integer.
pub open spec fn exp_int() -> ExpectedSet {
    ExpectedSet { int: true, ..exp_none() }
}

/// What may begin a line: a mnemonic, a label declaration, a blank line.
pub open spec fn exp_line_start() -> ExpectedSet {
    ExpectedSet { mnemonic: true, label_def: true, newline: true, ..exp_none() }
}

/// What a destination may be: a register.
pub open spec fn exp_dst_reg() -> ExpectedSet {
    ExpectedSet { reg: true, sp: true, ..exp_none() }
}

/// What a value operand may be.
pub open spec fn exp_operand() -> ExpectedSet {
    ExpectedSet { int: true, minus: true, reg: true, sp: true, ident: true, ..exp_none() }
}

/// What a branch target may be: a label reference.
pub open spec fn exp_label_ref() -> ExpectedSet {
    ExpectedSet { ident: true, ..exp_none() }
}

/// What an I/O channel may be: a port name.
pub open spec fn exp_port() -> ExpectedSet {
    ExpectedSet { port: true, ..exp_none() }
}

/// A failure at a token's span.
pub open spec fn fail_at(t: Token, kind: ParseFailureKind) -> ParseFailure {
    ParseFailure { kind, start: t.start, end: t.end }
}

/// A failure at the end of the source.
pub open spec fn fail_eof(slen: nat, expected: ExpectedSet) -> ParseFailure {
    ParseFailure {
        kind: ParseFailureKind::UnexpectedEndOfInput { expected },
        start: slen as usize,
        end: slen as usize,
    }
}

/// The text a token stands for: its span of the source, without the
/// leading dot for a label declaration.
pub open spec fn token_name(s: Seq<u8>, t: Token) -> Seq<u8> {
    match t.data {
        TokenData::LabelDef => s.subrange(t.start + 1, t.end as int),
        _ => s.subrange(t.start as int, t.end as int),
    }
}

/// The index of `name` in the intern table from entry `k` on, or the
/// table's length if it is absent.
pub open spec fn find_from(table: Seq<Seq<u8>>, name: Seq<u8>, k: int) -> int
    decreases table.len() - k,
{
    if k < 0 || k >= table.len() {
        table.len() as int
    } else if table[k] == name {
        k
    } else {
        find_from(table, name, k + 1)
    }
}

/// Intern a name: the identity it already has, or the next fresh one. The
/// same name always yields the same identity, distinct names always yield
/// distinct identities.
pub open spec fn intern(table: Seq<Seq<u8>>, name: Seq<u8>) -> (u64, Seq<Seq<u8>>) {
    let k = find_from(table, name, 0);
    if k < table.len() {
        (k as u64, table)
    } else {
        (table.len() as u64, table.push(name))
    }
}

/// Parse one value operand at token `i`, interning a label reference.
pub open spec fn parse_operand(
    s: Seq<u8>,
    toks: Seq<Token>,
    i: int,
    table: Seq<Seq<u8>>,
) -> Result<(Operand, int, Seq<Seq<u8>>), ParseFailure> {
    if i >= toks.len() {
        Err(fail_eof(s.len(), exp_operand()))
    } else {
        match toks[i].data {
            TokenData::Int(v) => Ok((Operand::Immediate(v as i64), i + 1, table)),
            TokenData::Minus => if i + 1 >= toks.len() {
                Err(fail_eof(s.len(), exp_int()))
            } else {
                match toks[i + 1].data {
                    TokenData::Int(v) => Ok(
                        (Operand::Immediate(((0 - (v as int)) as i64)), i + 2, table),
                    ),
                    _ => Err(
                        fail_at(
                            toks[i + 1],
                            ParseFailureKind::UnrecognizedToken { expected: exp_int() },
                        ),
                    ),
                }
            },
            TokenData::Reg(n) => Ok((Operand::Register(Register::Gpr(n)), i + 1, table)),
            TokenData::SpReg => Ok((Operand::Register(Register::Sp), i + 1, table)),
            TokenData::Ident => {
                let (id, table2) = intern(table, token_name(s, toks[i]));
                Ok((Operand::Label(LabelHash(id)), i + 1, table2))
            },
            _ => Err(
                fail_at(toks[i], ParseFailureKind::UnrecognizedToken { expected: exp_operand() }),
            ),
        }
    }
}

/// Parse a destination register at token `i`.
pub open spec fn parse_dst(s: Seq<u8>, toks: Seq<Token>, i: int) -> Result<
    (Register, int),
    ParseFailure,
> {
    if i >= toks.len() {
        Err(fail_eof(s.len(), exp_dst_reg()))
    } else {
        match toks[i].data {
            TokenData::Reg(n) => Ok((Register::Gpr(n), i + 1)),
            TokenData::SpReg => Ok((Register::Sp, i + 1)),
            _ => Err(
                fail_at(toks[i], ParseFailureKind::UnrecognizedToken { expected: exp_dst_reg() }),
            ),
        }
    }
}

/// Parse a branch target at token `i`: a label reference, interned.
pub open spec fn parse_label_ref(
    s: Seq<u8>,
    toks: Seq<Token>,
    i: int,
    table: Seq<Seq<u8>>,
) -> Result<(LabelHash, int, Seq<Seq<u8>>), ParseFailure> {
    if i >= toks.len() {
        Err(fail_eof(s.len(), exp_label_ref()))
    } else {
        match toks[i].data {
            TokenData::Ident => {
                let (id, table2) = intern(table, token_name(s, toks[i]));
                Ok((LabelHash(id), i + 1, table2))
            },
            _ => Err(
                fail_at(
                    toks[i],
                    ParseFailureKind::UnrecognizedToken { expected: exp_label_ref() },
                ),
            ),
        }
    }
}

/// Parse a port name at token `i`.
pub open spec fn parse_port(s: Seq<u8>, toks: Seq<Token>, i: int) -> Result<
    (Port, int),
    ParseFailure,
> {
    if i >= toks.len() {
        Err(fail_eof(s.len(), exp_port()))
    } else {
        match toks[i].data {
            TokenData::PortName(p) => Ok((p, i + 1)),
            _ => Err(
                fail_at(toks[i], ParseFailureKind::UnrecognizedToken { expected: exp_port() }),
            ),
        }
    }
}

/// The line must end here: at the end of the source or at a newline.
pub open spec fn expect_line_end(toks: Seq<Token>, i: int) -> Result<int, ParseFailure> {
    if i >= toks.len() {
        Ok(i)
    } else {
        match toks[i].data {
            TokenData::Newline => Ok(i + 1),
            _ => Err(fail_at(toks[i], ParseFailureKind::UnexpectedToken)),
        }
    }
}

/// The opcode of a two-operand arithmetic mnemonic.
pub open spec fn arith_opcode(k: OpcodeKind, a: Operand, b: Operand) -> Opcode {
    match k {
        OpcodeKind::Add => Opcode::Add(a, b),
        OpcodeKind::Sub => Opcode::Sub(a, b),
        OpcodeKind::Mul => Opcode::Mul(a, b),
        OpcodeKind::Div => Opcode::Div(a, b),
        OpcodeKind::Mod => Opcode::Mod(a, b),
        OpcodeKind::Nor => Opcode::Nor(a, b),
        _ => Opcode::Hlt,
    }
}

/// The opcode of a one-operand mnemonic with a destination.
pub open spec fn mono_opcode(k: OpcodeKind, a: Operand) -> Opcode {
    match k {
        OpcodeKind::Mov => Opcode::Mov(a),
        OpcodeKind::Imm => Opcode::Imm(a),
        OpcodeKind::Rsh => Opcode::Rsh(a),
        OpcodeKind::Lsh => Opcode::Lsh(a),
        OpcodeKind::Lod => Opcode::Lod(a),
        _ => Opcode::Hlt,
    }
}

/// The opcode of a conditional branch mnemonic.
pub open spec fn branch_opcode(k: OpcodeKind, l: LabelHash, a: Operand, b: Operand) -> Opcode {
    match k {
        OpcodeKind::Bge => Opcode::Bge(l, a, b),
        OpcodeKind::Brc => Opcode::Brc(l, a, b),
        OpcodeKind::Bnc => Opcode::Bnc(l, a, b),
        _ => Opcode::Hlt,
    }
}

/// Parse the operands of mnemonic `k`, standing from token `i` on, into
/// an instruction.
pub open spec fn parse_instruction(
    s: Seq<u8>,
    toks: Seq<Token>,
    i: int,
    table: Seq<Seq<u8>>,
    k: OpcodeKind,
) -> Result<(Instruction, int, Seq<Seq<u8>>), ParseFailure> {
    match k {
        OpcodeKind::Add | OpcodeKind::Sub | OpcodeKind::Mul | OpcodeKind::Div | OpcodeKind::Mod
            | OpcodeKind::Nor => match parse_dst(s, toks, i) {
            Err(e) => Err(e),
            Ok((d, i1)) => match parse_operand(s, toks, i1, table) {
                Err(e) => Err(e),
                Ok((a, i2, t2)) => match parse_operand(s, toks, i2, t2) {
                    Err(e) => Err(e),
                    Ok((b, i3, t3)) => Ok(
                        (
                            Instruction { opcode: arith_opcode(k, a, b), yielded: Some(d) },
                            i3,
                            t3,
                        ),
                    ),
                },
            },
        },
        OpcodeKind::Mov | OpcodeKind::Imm | OpcodeKind::Rsh | OpcodeKind::Lsh
            | OpcodeKind::Lod => match parse_dst(s, toks, i) {
            Err(e) => Err(e),
            Ok((d, i1)) => match parse_operand(s, toks, i1, table) {
                Err(e) => Err(e),
                Ok((a, i2, t2)) => Ok(
                    (Instruction { opcode: mono_opcode(k, a), yielded: Some(d) }, i2, t2),
                ),
            },
        },
        OpcodeKind::Str => match parse_operand(s, toks, i, table) {
            Err(e) => Err(e),
            Ok((a, i1, t1)) => match parse_operand(s, toks, i1, t1) {
                Err(e) => Err(e),
                Ok((b, i2, t2)) => Ok(
                    (Instruction { opcode: Opcode::Str(a, b), yielded: None }, i2, t2),
                ),
            },
        },
        OpcodeKind::Jmp => match parse_operand(s, toks, i, table) {
            Err(e) => Err(e),
            Ok((a, i1, t1)) => Ok(
                (Instruction { opcode: Opcode::Jmp(a), yielded: None }, i1, t1),
            ),
        },
        OpcodeKind::Bge | OpcodeKind::Brc | OpcodeKind::Bnc => match parse_label_ref(
            s,
            toks,
            i,
            table,
        ) {
            Err(e) => Err(e),
            Ok((l, i1, t1)) => match parse_operand(s, toks, i1, t1) {
                Err(e) => Err(e),
                Ok((a, i2, t2)) => match parse_operand(s, toks, i2, t2) {
                    Err(e) => Err(e),
                    Ok((b, i3, t3)) => Ok(
                        (
                            Instruction { opcode: branch_opcode(k, l, a, b), yielded: None },
                            i3,
                            t3,
                        ),
                    ),
                },
            },
        },
        OpcodeKind::In => match parse_dst(s, toks, i) {
            Err(e) => Err(e),
            Ok((d, i1)) => match parse_port(s, toks, i1) {
                Err(e) => Err(e),
                Ok((p, i2)) => Ok(
                    (Instruction { opcode: Opcode::In(p), yielded: Some(d) }, i2, table),
                ),
            },
        },
        OpcodeKind::Out => match parse_port(s, toks, i) {
            Err(e) => Err(e),
            Ok((p, i1)) => match parse_operand(s, toks, i1, table) {
                Err(e) => Err(e),
                Ok((a, i2, t2)) => Ok(
                    (Instruction { opcode: Opcode::Out(p, a), yielded: None }, i2, t2),
                ),
            },
        },
        OpcodeKind::Hlt => Ok((Instruction { opcode: Opcode::Hlt, yielded: None }, i, table)),
    }
}

/// Parse one line beginning at token `i` (requires `i < toks.len()`): a
/// blank line yields no node, a label declaration or an instruction yields
/// one, and anything left over on the line is an unexpected token.
pub open spec fn parse_line(
    s: Seq<u8>,
    toks: Seq<Token>,
    i: int,
    table: Seq<Seq<u8>>,
) -> Result<(Seq<Program>, int, Seq<Seq<u8>>), ParseFailure> {
    match toks[i].data {
        TokenData::Newline => Ok((Seq::empty(), i + 1, table)),
        TokenData::LabelDef => {
            let (id, table2) = intern(table, token_name(s, toks[i]));
            match expect_line_end(toks, i + 1) {
                Err(e) => Err(e),
                Ok(j) => Ok((seq![Program::Label(LabelHash(id))], j, table2)),
            }
        },
        TokenData::Mn(k) => match parse_instruction(s, toks, i + 1, table, k) {
            Err(e) => Err(e),
            Ok((ins, j, table2)) => match expect_line_end(toks, j) {
                Err(e) => Err(e),
                Ok(j2) => Ok((seq![Program::Instruction(ins)], j2, table2)),
            },
        },
        _ => Err(
            fail_at(toks[i], ParseFailureKind::UnrecognizedToken { expected: exp_line_start() }),
        ),
    }
}

/// Every piece of a line stands strictly after the tokens before it and
/// within the token stream.
proof fn lemma_parse_line_advances(s: Seq<u8>, toks: Seq<Token>, i: int, table: Seq<Seq<u8>>)
    requires
        0 <= i < toks.len(),
    ensures
        parse_line(s, toks, i, table) matches Ok(r) ==> i < r.1 <= toks.len(),
{
}

/// One header value at token `i`: an integer that fits a machine size.
pub open spec fn parse_header_value(s: Seq<u8>, toks: Seq<Token>, i: int) -> Result<
    (usize, int),
    ParseFailure,
> {
    if i >= toks.len() {
        Err(fail_eof(s.len(), exp_int()))
    } else {
        match toks[i].data {
            TokenData::Int(v) => if v <= usize::MAX as u64 {
                Ok((v as usize, i + 1))
            } else {
                Err(fail_at(toks[i], ParseFailureKind::InvalidToken))
            },
            _ => Err(
                fail_at(toks[i], ParseFailureKind::UnrecognizedToken { expected: exp_int() }),
            ),
        }
    }
}

/// Parse the header: any leading blank lines, then the four configuration
/// values — word width, register count, stack size, heap size — and the
/// end of the line.
pub open spec fn parse_header(s: Seq<u8>, toks: Seq<Token>, i: int) -> Result<
    (HeaderConfig, int),
    ParseFailure,
>
    decreases toks.len() - i,
{
    if 0 <= i < toks.len() && toks[i].data == TokenData::Newline {
        parse_header(s, toks, i + 1)
    } else {
        match parse_header_value(s, toks, i) {
            Err(e) => Err(e),
            Ok((bits, i1)) => match parse_header_value(s, toks, i1) {
                Err(e) => Err(e),
                Ok((regs, i2)) => match parse_header_value(s, toks, i2) {
                    Err(e) => Err(e),
                    Ok((stack, i3)) => match parse_header_value(s, toks, i3) {
                        Err(e) => Err(e),
                        Ok((heap, i4)) => match expect_line_end(toks, i4) {
                            Err(e) => Err(e),
                            Ok(j) => Ok(
                                (
                                    HeaderConfig {
                                        word_width_bits: bits,
                                        register_count: regs,
                                        stack_size: stack,
                                        heap_size: heap,
                                    },
                                    j,
                                ),
                            ),
                        },
                    },
                },
            },
        }
    }
}

/// Parse every line from token `i` on, threading the intern table.
pub open spec fn parse_lines(
    s: Seq<u8>,
    toks: Seq<Token>,
    i: int,
    table: Seq<Seq<u8>>,
) -> Result<Seq<Program>, ParseFailure>
    decreases toks.len() - i,
    when 0 <= i
    via parse_lines_dec
{
    if i >= toks.len() {
        Ok(Seq::empty())
    } else {
        match parse_line(s, toks, i, table) {
            Err(e) => Err(e),
            Ok((nodes, j, table2)) => match parse_lines(s, toks, j, table2) {
                Err(e) => Err(e),
                Ok(rest) => Ok(nodes + rest),
            },
        }
    }
}

#[via_fn]
proof fn parse_lines_dec(s: Seq<u8>, toks: Seq<Token>, i: int, table: Seq<Seq<u8>>) {
    if 0 <= i < toks.len() {
        lemma_parse_line_advances(s, toks, i, table);
    }
}

/// What parsing a token stream yields: the header, then the program
/// nodes, with label names interned in first-appearance order.
pub open spec fn parse_tokens(s: Seq<u8>, toks: Seq<Token>) -> Result<
    (Seq<Program>, HeaderConfig),
    ParseFailure,
> {
    match parse_header(s, toks, 0) {
        Err(e) => Err(e),
        Ok((h, i)) => match parse_lines(s, toks, i, Seq::empty()) {
            Err(e) => Err(e),
            Ok(nodes) => Ok((nodes, h)),
        },
    }
}

/// What parsing source text yields: tokens, then the program and header.
pub open spec fn spec_parse(s: Seq<u8>) -> Result<(Seq<Program>, HeaderConfig), ParseFailure> {
    match spec_tokens(s, 0) {
        Err(e) => Err(e),
        Ok(toks) => parse_tokens(s, toks),
    }
}

fn mk_exp_int() -> (r: ExpectedSet)
    ensures
        r == exp_int(),
{
    ExpectedSet {
        int: true,
        minus: false,
        reg: false,
        sp: false,
        ident: false,
        label_def: false,
        mnemonic: false,
        port: false,
        newline: false,
    }
}

fn mk_exp_line_start() -> (r: ExpectedSet)
    ensures
        r == exp_line_start(),
{
    ExpectedSet {
        int: false,
        minus: false,
        reg: false,
        sp: false,
        ident: false,
        label_def: true,
        mnemonic: true,
        port: false,
        newline: true,
    }
}

fn mk_exp_dst_reg() -> (r: ExpectedSet)
    ensures
        r == exp_dst_reg(),
{
    ExpectedSet {
        int: false,
        minus: false,
        reg: true,
        sp: true,
        ident: false,
        label_def: false,
        mnemonic: false,
        port: false,
        newline: false,
    }
}

fn mk_exp_operand() -> (r: ExpectedSet)
    ensures
        r == exp_operand(),
{
    ExpectedSet {
        int: true,
        minus: true,
        reg: true,
        sp: true,
        ident: true,
        label_def: false,
        mnemonic: false,
        port: false,
        newline: false,
    }
}

fn mk_exp_label_ref() -> (r: ExpectedSet)
    ensures
        r == exp_label_ref(),
{
    ExpectedSet {
        int: false,
        minus: false,
        reg: false,
        sp: false,
        ident: true,
        label_def: false,
        mnemonic: false,
        port: false,
        newline: false,
    }
}

fn mk_exp_port() -> (r: ExpectedSet)
    ensures
        r == exp_port(),
{
    ExpectedSet {
        int: false,
        minus: false,
        reg: false,
        sp: false,
        ident: false,
        label_def: false,
        mnemonic: false,
        port: true,
        newline: false,
    }
}

/// Whether a stored name equals the source bytes `bytes[start..end)`.
fn range_eq(a: &Vec<u8>, bytes: &[u8], start: usize, end: usize) -> (r: bool)
    requires
        start <= end <= bytes@.len(),
    ensures
        r == (a@ == bytes@.subrange(start as int, end as int)),
{
    let ghost sub = bytes@.subrange(start as int, end as int);
    if a.len() != end - start {
        return false;
    }
    let mut q: usize = 0;
    while q < a.len()
        invariant
            start <= end <= bytes@.len(),
            a@.len() == end - start,
            q <= a@.len(),
            sub == bytes@.subrange(start as int, end as int),
            forall|t: int| 0 <= t < q ==> a@[t] == bytes@[start + t],
        decreases a@.len() - q,
    {
        if a[q] != bytes[start + q] {
            proof {
                assert(sub[q as int] == bytes@[start + q]);
            }
            return false;
        }
        q = q + 1;
    }
    proof {
        assert(a@ =~= sub);
    }
    true
}

/// Copy the source bytes `bytes[start..end)` out as a name.
fn copy_range(bytes: &[u8], start: usize, end: usize) -> (v: Vec<u8>)
    requires
        start <= end <= bytes@.len(),
    ensures
        v@ == bytes@.subrange(start as int, end as int),
{
    let mut v: Vec<u8> = Vec::new();
    let mut q: usize = start;
    while q < end
        invariant
            start <= q <= end <= bytes@.len(),
            v@ =~= bytes@.subrange(start as int, q as int),
        decreases end - q,
    {
        v.push(bytes[q]);
        proof {
            assert(v@ =~= bytes@.subrange(start as int, q as int + 1));
        }
        q = q + 1;
    }
    proof {
        assert(v@ =~= bytes@.subrange(start as int, end as int));
    }
    v
}

/// Intern the name `bytes[start..end)`; mirrors `intern`.
fn intern_exec(bytes: &[u8], table: &mut Vec<Vec<u8>>, start: usize, end: usize) -> (id: u64)
    requires
        start <= end <= bytes@.len(),
    ensures
        ({
            let r = intern(old(table).deep_view(), bytes@.subrange(start as int, end as int));
            id == r.0 && final(table).deep_view() == r.1
        }),
{
    let ghost name = bytes@.subrange(start as int, end as int);
    let ghost dv = table.deep_view();
    let n = table.len();
    let mut k: usize = 0;
    while k < n
        invariant
            start <= end <= bytes@.len(),
            name == bytes@.subrange(start as int, end as int),
            dv == table.deep_view(),
            n == table@.len(),
            k <= n,
            find_from(dv, name, 0) == find_from(dv, name, k as int),
        decreases n - k,
    {
        proof {
            assert(dv[k as int] =~= table@[k as int]@);
        }
        if range_eq(&table[k], bytes, start, end) {
            proof {
                assert(find_from(dv, name, k as int) == k);
            }
            return k as u64;
        }
        k = k + 1;
    }
    proof {
        assert(find_from(dv, name, n as int) == dv.len());
    }
    let fresh = copy_range(bytes, start, end);
    table.push(fresh);
    proof {
        assert(table.deep_view() =~~= dv.push(name));
    }
    n as u64
}

fn arith_opcode_exec(k: OpcodeKind, a: Operand, b: Operand) -> (r: Opcode)
    ensures
        r == arith_opcode(k, a, b),
{
    match k {
        OpcodeKind::Add => Opcode::Add(a, b),
        OpcodeKind::Sub => Opcode::Sub(a, b),
        OpcodeKind::Mul => Opcode::Mul(a, b),
        OpcodeKind::Div => Opcode::Div(a, b),
        OpcodeKind::Mod => Opcode::Mod(a, b),
        OpcodeKind::Nor => Opcode::Nor(a, b),
        _ => Opcode::Hlt,
    }
}

fn mono_opcode_exec(k: OpcodeKind, a: Operand) -> (r: Opcode)
    ensures
        r == mono_opcode(k, a),
{
    match k {
        OpcodeKind::Mov => Opcode::Mov(a),
        OpcodeKind::Imm => Opcode::Imm(a),
        OpcodeKind::Rsh => Opcode::Rsh(a),
        OpcodeKind::Lsh => Opcode::Lsh(a),
        OpcodeKind::Lod => Opcode::Lod(a),
        _ => Opcode::Hlt,
    }
}

fn branch_opcode_exec(k: OpcodeKind, l: LabelHash, a: Operand, b: Operand) -> (r: Opcode)
    ensures
        r == branch_opcode(k, l, a, b),
{
    match k {
        OpcodeKind::Bge => Opcode::Bge(l, a, b),
        OpcodeKind::Brc => Opcode::Brc(l, a, b),
        OpcodeKind::Bnc => Opcode::Bnc(l, a, b),
        _ => Opcode::Hlt,
    }
}

/// Parse one value operand; mirrors `parse_operand`. On failure the table
/// is of no further use and nothing is said of it.
fn parse_operand_exec(
    bytes: &[u8],
    toks: &Vec<Token>,
    i: usize,
    table: &mut Vec<Vec<u8>>,
) -> (r: Result<(Operand, usize), ParseFailure>)
    requires
        wf_tokens(toks@, bytes@.len()),
        i <= toks@.len(),
    ensures
        match parse_operand(bytes@, toks@, i as int, old(table).deep_view()) {
            Ok((op, j, t2)) => r matches Ok(p) && p.0 == op && p.1 == j && final(table).deep_view() == t2,
            Err(e) => r == Err::<(Operand, usize), ParseFailure>(e),
        },
        r matches Err(e) ==> e.start <= e.end <= bytes@.len(),
{
    if i >= toks.len() {
        return Err(
            ParseFailure {
                kind: ParseFailureKind::UnexpectedEndOfInput { expected: mk_exp_operand() },
                start: bytes.len(),
                end: bytes.len(),
            },
        );
    }
    let t = toks[i];
    match t.data {
        TokenData::Int(v) => Ok((Operand::Immediate(v as i64), i + 1)),
        TokenData::Minus => if i + 1 >= toks.len() {
            Err(
                ParseFailure {
                    kind: ParseFailureKind::UnexpectedEndOfInput { expected: mk_exp_int() },
                    start: bytes.len(),
                    end: bytes.len(),
                },
            )
        } else {
            let t2 = toks[i + 1];
            match t2.data {
                TokenData::Int(v) => {
                    let neg: i64 = 0i64 - (v as i64);
                    Ok((Operand::Immediate(neg), i + 2))
                },
                _ => Err(
                    ParseFailure {
                        kind: ParseFailureKind::UnrecognizedToken { expected: mk_exp_int() },
                        start: t2.start,
                        end: t2.end,
                    },
                ),
            }
        },
        TokenData::Reg(n) => Ok((Operand::Register(Register::Gpr(n)), i + 1)),
        TokenData::SpReg => Ok((Operand::Register(Register::Sp), i + 1)),
        TokenData::Ident => {
            let id = intern_exec(bytes, table, t.start, t.end);
            Ok((Operand::Label(LabelHash(id)), i + 1))
        },
        _ => Err(
            ParseFailure {
                kind: ParseFailureKind::UnrecognizedToken { expected: mk_exp_operand() },
                start: t.start,
                end: t.end,
            },
        ),
    }
}

/// Parse a destination register; mirrors `parse_dst`.
fn parse_dst_exec(bytes: &[u8], toks: &Vec<Token>, i: usize) -> (r: Result<
    (Register, usize),
    ParseFailure,
>)
    requires
        wf_tokens(toks@, bytes@.len()),
        i <= toks@.len(),
    ensures
        match parse_dst(bytes@, toks@, i as int) {
            Ok((d, j)) => r matches Ok(p) && p.0 == d && p.1 == j,
            Err(e) => r == Err::<(Register, usize), ParseFailure>(e),
        },
        r matches Err(e) ==> e.start <= e.end <= bytes@.len(),
{
    if i >= toks.len() {
        return Err(
            ParseFailure {
                kind: ParseFailureKind::UnexpectedEndOfInput { expected: mk_exp_dst_reg() },
                start: bytes.len(),
                end: bytes.len(),
            },
        );
    }
    let t = toks[i];
    match t.data {
        TokenData::Reg(n) => Ok((Register::Gpr(n), i + 1)),
        TokenData::SpReg => Ok((Register::Sp, i + 1)),
        _ => Err(
            ParseFailure {
                kind: ParseFailureKind::UnrecognizedToken { expected: mk_exp_dst_reg() },
                start: t.start,
                end: t.end,
            },
        ),
    }
}

/// Parse a branch target; mirrors `parse_label_ref`.
fn parse_label_ref_exec(
    bytes: &[u8],
    toks: &Vec<Token>,
    i: usize,
    table: &mut Vec<Vec<u8>>,
) -> (r: Result<(LabelHash, usize), ParseFailure>)
    requires
        wf_tokens(toks@, bytes@.len()),
        i <= toks@.len(),
    ensures
        match parse_label_ref(bytes@, toks@, i as int, old(table).deep_view()) {
            Ok((l, j, t2)) => r matches Ok(p) && p.0 == l && p.1 == j && final(table).deep_view() == t2,
            Err(e) => r == Err::<(LabelHash, usize), ParseFailure>(e),
        },
        r matches Err(e) ==> e.start <= e.end <= bytes@.len(),
{
    if i >= toks.len() {
        return Err(
            ParseFailure {
                kind: ParseFailureKind::UnexpectedEndOfInput { expected: mk_exp_label_ref() },
                start: bytes.len(),
                end: bytes.len(),
            },
        );
    }
    let t = toks[i];
    match t.data {
        TokenData::Ident => {
            let id = intern_exec(bytes, table, t.start, t.end);
            Ok((LabelHash(id), i + 1))
        },
        _ => Err(
            ParseFailure {
                kind: ParseFailureKind::UnrecognizedToken { expected: mk_exp_label_ref() },
                start: t.start,
                end: t.end,
            },
        ),
    }
}

/// Parse a port name; mirrors `parse_port`.
fn parse_port_exec(bytes: &[u8], toks: &Vec<Token>, i: usize) -> (r: Result<
    (Port, usize),
    ParseFailure,
>)
    requires
        wf_tokens(toks@, bytes@.len()),
        i <= toks@.len(),
    ensures
        match parse_port(bytes@, toks@, i as int) {
            Ok((p, j)) => r matches Ok(q) && q.0 == p && q.1 == j,
            Err(e) => r == Err::<(Port, usize), ParseFailure>(e),
        },
        r matches Err(e) ==> e.start <= e.end <= bytes@.len(),
{
    if i >= toks.len() {
        return Err(
            ParseFailure {
                kind: ParseFailureKind::UnexpectedEndOfInput { expected: mk_exp_port() },
                start: bytes.len(),
                end: bytes.len(),
            },
        );
    }
    let t = toks[i];
    match t.data {
        TokenData::PortName(p) => Ok((p, i + 1)),
        _ => Err(
            ParseFailure {
                kind: ParseFailureKind::UnrecognizedToken { expected: mk_exp_port() },
                start: t.start,
                end: t.end,
            },
        ),
    }
}

/// The line must end here; mirrors `expect_line_end`.
fn expect_line_end_exec(bytes: &[u8], toks: &Vec<Token>, i: usize) -> (r: Result<
    usize,
    ParseFailure,
>)
    requires
        wf_tokens(toks@, bytes@.len()),
        i <= toks@.len(),
    ensures
        match expect_line_end(toks@, i as int) {
            Ok(j) => r matches Ok(j2) && j2 == j,
            Err(e) => r == Err::<usize, ParseFailure>(e),
        },
        r matches Err(e) ==> e.start <= e.end <= bytes@.len(),
{
    if i >= toks.len() {
        return Ok(i);
    }
    let t = toks[i];
    match t.data {
        TokenData::Newline => Ok(i + 1),
        _ => Err(
            ParseFailure { kind: ParseFailureKind::UnexpectedToken, start: t.start, end: t.end },
        ),
    }
}

/// Parse the operands of one mnemonic; mirrors `parse_instruction`.
fn parse_instruction_exec(
    bytes: &[u8],
    toks: &Vec<Token>,
    i: usize,
    table: &mut Vec<Vec<u8>>,
    k: OpcodeKind,
) -> (r: Result<(Instruction, usize), ParseFailure>)
    requires
        wf_tokens(toks@, bytes@.len()),
        i <= toks@.len(),
    ensures
        match parse_instruction(bytes@, toks@, i as int, old(table).deep_view(), k) {
            Ok((ins, j, t2)) => r matches Ok(p) && p.0 == ins && p.1 == j && final(table).deep_view() == t2,
            Err(e) => r == Err::<(Instruction, usize), ParseFailure>(e),
        },
        r matches Err(e) ==> e.start <= e.end <= bytes@.len(),
{
    match k {
        OpcodeKind::Add | OpcodeKind::Sub | OpcodeKind::Mul | OpcodeKind::Div | OpcodeKind::Mod
            | OpcodeKind::Nor => {
            let (d, i1) = match parse_dst_exec(bytes, toks, i) {
                Err(e) => {
                    return Err(e);
                },
                Ok(p) => p,
            };
            let (a, i2) = match parse_operand_exec(bytes, toks, i1, table) {
                Err(e) => {
                    return Err(e);
                },
                Ok(p) => p,
            };
            let (b, i3) = match parse_operand_exec(bytes, toks, i2, table) {
                Err(e) => {
                    return Err(e);
                },
                Ok(p) => p,
            };
            Ok((Instruction { opcode: arith_opcode_exec(k, a, b), yielded: Some(d) }, i3))
        },
        OpcodeKind::Mov | OpcodeKind::Imm | OpcodeKind::Rsh | OpcodeKind::Lsh | OpcodeKind::Lod => {
            let (d, i1) = match parse_dst_exec(bytes, toks, i) {
                Err(e) => {
                    return Err(e);
                },
                Ok(p) => p,
            };
            let (a, i2) = match parse_operand_exec(bytes, toks, i1, table) {
                Err(e) => {
                    return Err(e);
                },
                Ok(p) => p,
            };
            Ok((Instruction { opcode: mono_opcode_exec(k, a), yielded: Some(d) }, i2))
        },
        OpcodeKind::Str => {
            let (a, i1) = match parse_operand_exec(bytes, toks, i, table) {
                Err(e) => {
                    return Err(e);
                },
                Ok(p) => p,
            };
            let (b, i2) = match parse_operand_exec(bytes, toks, i1, table) {
                Err(e) => {
                    return Err(e);
                },
                Ok(p) => p,
            };
            Ok((Instruction { opcode: Opcode::Str(a, b), yielded: None }, i2))
        },
        OpcodeKind::Jmp => {
            let (a, i1) = match parse_operand_exec(bytes, toks, i, table) {
                Err(e) => {
                    return Err(e);
                },
                Ok(p) => p,
            };
            Ok((Instruction { opcode: Opcode::Jmp(a), yielded: None }, i1))
        },
        OpcodeKind::Bge | OpcodeKind::Brc | OpcodeKind::Bnc => {
            let (l, i1) = match parse_label_ref_exec(bytes, toks, i, table) {
                Err(e) => {
                    return Err(e);
                },
                Ok(p) => p,
            };
            let (a, i2) = match parse_operand_exec(bytes, toks, i1, table) {
                Err(e) => {
                    return Err(e);
                },
                Ok(p) => p,
            };
            let (b, i3) = match parse_operand_exec(bytes, toks, i2, table) {
                Err(e) => {
                    return Err(e);
                },
                Ok(p) => p,
            };
            Ok((Instruction { opcode: branch_opcode_exec(k, l, a, b), yielded: None }, i3))
        },
        OpcodeKind::In => {
            let (d, i1) = match parse_dst_exec(bytes, toks, i) {
                Err(e) => {
                    return Err(e);
                },
                Ok(p) => p,
            };
            let (p, i2) = match parse_port_exec(bytes, toks, i1) {
                Err(e) => {
                    return Err(e);
                },
                Ok(q) => q,
            };
            Ok((Instruction { opcode: Opcode::In(p), yielded: Some(d) }, i2))
        },
        OpcodeKind::Out => {
            let (p, i1) = match parse_port_exec(bytes, toks, i) {
                Err(e) => {
                    return Err(e);
                },
                Ok(q) => q,
            };
            let (a, i2) = match parse_operand_exec(bytes, toks, i1, table) {
                Err(e) => {
                    return Err(e);
                },
                Ok(q) => q,
            };
            Ok((Instruction { opcode: Opcode::Out(p, a), yielded: None }, i2))
        },
        OpcodeKind::Hlt => Ok((Instruction { opcode: Opcode::Hlt, yielded: None }, i)),
    }
}

/// The nodes one line yields.
pub open spec fn opt_seq(o: Option<Program>) -> Seq<Program> {
    match o {
        None => Seq::empty(),
        Some(p) => seq![p],
    }
}

/// Parse one line; mirrors `parse_line`.
fn parse_line_exec(
    bytes: &[u8],
    toks: &Vec<Token>,
    i: usize,
    table: &mut Vec<Vec<u8>>,
) -> (r: Result<(Option<Program>, usize), ParseFailure>)
    requires
        wf_tokens(toks@, bytes@.len()),
        i < toks@.len(),
    ensures
        match parse_line(bytes@, toks@, i as int, old(table).deep_view()) {
            Ok((nodes, j, t2)) => r matches Ok(p) && opt_seq(p.0) == nodes && p.1 == j && final(table).deep_view() == t2,
            Err(e) => r == Err::<(Option<Program>, usize), ParseFailure>(e),
        },
        r matches Err(e) ==> e.start <= e.end <= bytes@.len(),
{
    let n = toks.len();
    assert(i < n);
    let t = toks[i];
    match t.data {
        TokenData::Newline => Ok((None, i + 1)),
        TokenData::LabelDef => {
            let id = intern_exec(bytes, table, t.start + 1, t.end);
            match expect_line_end_exec(bytes, toks, i + 1) {
                Err(e) => Err(e),
                Ok(j) => Ok((Some(Program::Label(LabelHash(id))), j)),
            }
        },
        TokenData::Mn(k) => {
            let (ins, j) = match parse_instruction_exec(bytes, toks, i + 1, table, k) {
                Err(e) => {
                    return Err(e);
                },
                Ok(p) => p,
            };
            match expect_line_end_exec(bytes, toks, j) {
                Err(e) => Err(e),
                Ok(j2) => Ok((Some(Program::Instruction(ins)), j2)),
            }
        },
        _ => Err(
            ParseFailure {
                kind: ParseFailureKind::UnrecognizedToken { expected: mk_exp_line_start() },
                start: t.start,
                end: t.end,
            },
        ),
    }
}

/// Parse one header value; mirrors `parse_header_value`.
fn parse_header_value_exec(bytes: &[u8], toks: &Vec<Token>, i: usize) -> (r: Result<
    (usize, usize),
    ParseFailure,
>)
    requires
        wf_tokens(toks@, bytes@.len()),
        i <= toks@.len(),
    ensures
        match parse_header_value(bytes@, toks@, i as int) {
            Ok((v, j)) => r matches Ok(p) && p.0 == v && p.1 == j,
            Err(e) => r == Err::<(usize, usize), ParseFailure>(e),
        },
        r matches Err(e) ==> e.start <= e.end <= bytes@.len(),
{
    if i >= toks.len() {
        return Err(
            ParseFailure {
                kind: ParseFailureKind::UnexpectedEndOfInput { expected: mk_exp_int() },
                start: bytes.len(),
                end: bytes.len(),
            },
        );
    }
    let t = toks[i];
    match t.data {
        TokenData::Int(v) => if v <= usize::MAX as u64 {
            Ok((v as usize, i + 1))
        } else {
            Err(ParseFailure { kind: ParseFailureKind::InvalidToken, start: t.start, end: t.end })
        },
        _ => Err(
            ParseFailure {
                kind: ParseFailureKind::UnrecognizedToken { expected: mk_exp_int() },
                start: t.start,
                end: t.end,
            },
        ),
    }
}

/// Parse the header line; mirrors `parse_header`.
fn parse_header_exec(bytes: &[u8], toks: &Vec<Token>) -> (r: Result<
    (HeaderConfig, usize),
    ParseFailure,
>)
    requires
        wf_tokens(toks@, bytes@.len()),
    ensures
        match parse_header(bytes@, toks@, 0) {
            Ok((h, j)) => r matches Ok(p) && p.0 == h && p.1 == j && j <= toks@.len(),
            Err(e) => r == Err::<(HeaderConfig, usize), ParseFailure>(e),
        },
        r matches Err(e) ==> e.start <= e.end <= bytes@.len(),
{
    let mut i: usize = 0;
    while i < toks.len() && matches!(toks[i].data, TokenData::Newline)
        invariant
            i <= toks@.len(),
            parse_header(bytes@, toks@, 0) == parse_header(bytes@, toks@, i as int),
        decreases toks@.len() - i,
    {
        i = i + 1;
    }
    let (bits, i1) = match parse_header_value_exec(bytes, toks, i) {
        Err(e) => {
            return Err(e);
        },
        Ok(p) => p,
    };
    let (regs, i2) = match parse_header_value_exec(bytes, toks, i1) {
        Err(e) => {
            return Err(e);
        },
        Ok(p) => p,
    };
    let (stack, i3) = match parse_header_value_exec(bytes, toks, i2) {
        Err(e) => {
            return Err(e);
        },
        Ok(p) => p,
    };
    let (heap, i4) = match parse_header_value_exec(bytes, toks, i3) {
        Err(e) => {
            return Err(e);
        },
        Ok(p) => p,
    };
    let j = match expect_line_end_exec(bytes, toks, i4) {
        Err(e) => {
            return Err(e);
        },
        Ok(j) => j,
    };
    Ok(
        (
            HeaderConfig {
                word_width_bits: bits,
                register_count: regs,
                stack_size: stack,
                heap_size: heap,
            },
            j,
        ),
    )
}

/// Parse source text into a program and its header configuration; a pure
/// function of the text. Yields exactly `spec_parse` of the source bytes:
/// on success the whole program with label names interned in
/// first-appearance order, on failure the kind of failure and the byte
/// span of the source it stands at — within the source, and never a
/// partial program.
pub fn parse(code: &str) -> (r: Result<(Vec<Program>, HeaderConfig), ParseFailure>)
    ensures
        match spec_parse(code.spec_bytes()) {
            Ok((prog, h)) => r matches Ok(p) && p.0@ == prog && p.1 == h,
            Err(e) => r == Err::<(Vec<Program>, HeaderConfig), ParseFailure>(e),
        },
        r matches Err(e) ==> e.start <= e.end <= code.spec_bytes().len(),
{
    let bytes = code.as_bytes();
    let toks = match tokenize(bytes) {
        Err(e) => {
            return Err(e);
        },
        Ok(v) => v,
    };
    let (h, start) = match parse_header_exec(bytes, &toks) {
        Err(e) => {
            return Err(e);
        },
        Ok(p) => p,
    };
    let ghost s = bytes@;
    let ghost start0 = start as int;
    let mut table: Vec<Vec<u8>> = Vec::new();
    let mut nodes: Vec<Program> = Vec::new();
    let mut i = start;
    proof {
        assert(table.deep_view() =~= Seq::<Seq<u8>>::empty());
    }
    while i < toks.len()
        invariant
            wf_tokens(toks@, s.len()),
            s == bytes@,
            s == code.spec_bytes(),
            0 <= start0,
            i <= toks@.len(),
            spec_parse(s) == (match parse_lines(s, toks@, start0, Seq::empty()) {
                Ok(ns) => Ok::<(Seq<Program>, HeaderConfig), ParseFailure>((ns, h)),
                Err(e) => Err::<(Seq<Program>, HeaderConfig), ParseFailure>(e),
            }),
            parse_lines(s, toks@, start0, Seq::empty()) is Ok ==> parse_lines(
                s,
                toks@,
                i as int,
                table.deep_view(),
            ) is Ok && parse_lines(s, toks@, start0, Seq::empty())->Ok_0 == nodes@ + parse_lines(
                s,
                toks@,
                i as int,
                table.deep_view(),
            )->Ok_0,
            parse_lines(s, toks@, start0, Seq::empty()) is Err ==> parse_lines(
                s,
                toks@,
                i as int,
                table.deep_view(),
            ) == parse_lines(s, toks@, start0, Seq::empty()),
        decreases toks@.len() - i,
    {
        let ghost pre_table = table.deep_view();
        let ghost i0 = i as int;
        match parse_line_exec(bytes, &toks, i, &mut table) {
            Err(e) => {
                proof {
                    if parse_lines(s, toks@, start0, Seq::empty()) is Ok {
                        assert(parse_lines(s, toks@, i0, pre_table) is Ok);
                        assert(false);
                    }
                }
                return Err(e);
            },
            Ok((opt, j)) => {
                proof {
                    lemma_parse_line_advances(s, toks@, i0, pre_table);
                    if parse_lines(s, toks@, start0, Seq::empty()) is Ok {
                        let line = parse_line(s, toks@, i0, pre_table)->Ok_0;
                        let rest2 = parse_lines(s, toks@, j as int, table.deep_view())->Ok_0;
                        assert(parse_lines(s, toks@, i0, pre_table)->Ok_0 == line.0 + rest2);
                        assert(nodes@ + (line.0 + rest2) =~= (nodes@ + line.0) + rest2);
                        match opt {
                            Some(p) => {
                                assert(nodes@.push(p) =~= nodes@ + opt_seq(opt));
                            },
                            None => {
                                assert(nodes@ + opt_seq(opt) =~= nodes@);
                            },
                        }
                    }
                }
                match opt {
                    Some(p) => {
                        nodes.push(p);
                    },
                    None => {},
                }
                i = j;
            },
        }
    }
    proof {
        if parse_lines(s, toks@, start0, Seq::empty()) is Ok {
            assert(parse_lines(s, toks@, i as int, table.deep_view()) == Ok::<
                Seq<Program>,
                ParseFailure,
            >(Seq::empty()));
            assert(parse_lines(s, toks@, start0, Seq::empty())->Ok_0 =~= nodes@);
        }
    }
    Ok((nodes, h))
}

} // verus!
