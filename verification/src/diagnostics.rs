//! The diagnostics reporter: renders one parse failure against the
//! original source text and a display name as a span-annotated message —
//! a severity marker, the failure kind (with the expected token kinds
//! where the failure carries them), the position as line and column, the
//! offending source line, and a caret run underlining the span. This is
//! presentation only: it builds text, and the caller decides where it
//! goes and what happens next.

use vstd::prelude::*;
use vstd::string::StringSliceAdditionalSpecFns;

use crate::io::{dec_rep, push_decimal};
use crate::parser::{ExpectedSet, ParseFailure, ParseFailureKind};

verus! {

/// The number of the line byte `pos` stands on, starting at 1.
pub open spec fn line_of(s: Seq<u8>, pos: int) -> nat
    decreases pos,
{
    if pos <= 0 {
        1
    } else {
        line_of(s, pos - 1) + (if s[pos - 1] == 10 {
            1nat
        } else {
            0nat
        })
    }
}

/// Where the line holding byte `pos` begins: just after the last newline
/// before `pos`, or the start of the source.
pub open spec fn line_start(s: Seq<u8>, pos: int) -> int
    decreases pos,
{
    if pos <= 0 {
        0
    } else if s[pos - 1] == 10 {
        pos
    } else {
        line_start(s, pos - 1)
    }
}

/// Where the line holding byte `pos` ends: the next newline at or after
/// `pos`, or the end of the source.
pub open spec fn line_end(s: Seq<u8>, pos: int) -> int
    decreases s.len() - pos,
{
    if pos < 0 || pos >= s.len() || s[pos] == 10 {
        pos
    } else {
        line_end(s, pos + 1)
    }
}

/// The bytes `s[i..j)` read as one-byte characters.
pub open spec fn chars_of(s: Seq<u8>, i: int, j: int) -> Seq<char> {
    Seq::new((j - i) as nat, |k: int| s[i + k] as char)
}

/// `n` copies of one character.
pub open spec fn repeat_char(c: char, n: nat) -> Seq<char> {
    Seq::new(n, |k: int| c)
}

/// The names of the expected token kinds, each preceded by one space.
pub open spec fn expected_names(e: ExpectedSet) -> Seq<char> {
    (if e.int {
        " integer"@
    } else {
        Seq::empty()
    }) + (if e.minus {
        " minus"@
    } else {
        Seq::empty()
    }) + (if e.reg {
        " register"@
    } else {
        Seq::empty()
    }) + (if e.sp {
        " stack-pointer"@
    } else {
        Seq::empty()
    }) + (if e.ident {
        " identifier"@
    } else {
        Seq::empty()
    }) + (if e.label_def {
        " label"@
    } else {
        Seq::empty()
    }) + (if e.mnemonic {
        " mnemonic"@
    } else {
        Seq::empty()
    }) + (if e.port {
        " port"@
    } else {
        Seq::empty()
    }) + (if e.newline {
        " newline"@
    } else {
        Seq::empty()
    })
}

/// The message a failure kind is reported with.
pub open spec fn message_of(kind: ParseFailureKind) -> Seq<char> {
    match kind {
        ParseFailureKind::UnexpectedToken => "unexpected token"@,
        ParseFailureKind::InvalidToken => "invalid token"@,
        ParseFailureKind::UnexpectedEndOfInput { expected } => "unexpected end of input, expected:"@
            + expected_names(expected),
        ParseFailureKind::UnrecognizedToken { expected } => "unrecognized token, expected:"@
            + expected_names(expected),
    }
}

/// The whole rendered diagnostic: severity and message, the position as
/// name, line and column, the offending source line, and a caret run
/// under the span (at least one caret, stopping at the end of the line).
pub open spec fn render_spec(s: Seq<u8>, name: Seq<char>, f: ParseFailure) -> Seq<char> {
    let pos = f.start as int;
    let ls = line_start(s, pos);
    let le = line_end(s, pos);
    let caret_end = if f.end as int > le {
        le
    } else {
        f.end as int
    };
    let carets = if caret_end > pos + 1 {
        (caret_end - pos) as nat
    } else {
        1nat
    };
    "error: "@ + message_of(f.kind) + "\n --> "@ + name + ":"@ + dec_rep(line_of(s, pos)) + ":"@
        + dec_rep((pos - ls + 1) as nat) + "\n"@ + chars_of(s, ls, le) + "\n"@ + repeat_char(
        ' ',
        (pos - ls) as nat,
    ) + repeat_char('^', carets) + "\n"@
}

/// Append a text piece to the rendering.
fn push_str_chars(buf: &mut Vec<char>, piece: &str)
    ensures
        final(buf)@ == old(buf)@ + piece@,
{
    let n = piece.unicode_len();
    let mut k: usize = 0;
    while k < n
        invariant
            n == piece@.len(),
            k <= n,
            buf@ == old(buf)@ + piece@.take(k as int),
        decreases n - k,
    {
        let c = piece.get_char(k);
        proof {
            assert((old(buf)@ + piece@.take(k as int)).push(piece@[k as int]) =~= old(buf)@
                + piece@.take(k as int + 1));
        }
        buf.push(c);
        k = k + 1;
    }
    proof {
        assert(old(buf)@ + piece@.take(n as int) =~= old(buf)@ + piece@);
    }
}

/// Append `n` copies of one character to the rendering.
fn push_repeat(buf: &mut Vec<char>, c: char, n: usize)
    ensures
        final(buf)@ == old(buf)@ + repeat_char(c, n as nat),
{
    let mut k: usize = 0;
    while k < n
        invariant
            k <= n,
            buf@ == old(buf)@ + repeat_char(c, k as nat),
        decreases n - k,
    {
        proof {
            assert((old(buf)@ + repeat_char(c, k as nat)).push(c) =~= old(buf)@ + repeat_char(
                c,
                (k + 1) as nat,
            ));
        }
        buf.push(c);
        k = k + 1;
    }
    proof {
        assert(old(buf)@ + repeat_char(c, 0nat) =~= old(buf)@ + repeat_char(c, 0nat));
    }
}

/// Append the bytes `bytes[i..j)` as one-byte characters.
fn push_bytes_chars(buf: &mut Vec<char>, bytes: &[u8], i: usize, j: usize)
    requires
        i <= j <= bytes@.len(),
    ensures
        final(buf)@ == old(buf)@ + chars_of(bytes@, i as int, j as int),
{
    let mut k: usize = i;
    while k < j
        invariant
            i <= k <= j <= bytes@.len(),
            buf@ == old(buf)@ + chars_of(bytes@, i as int, k as int),
        decreases j - k,
    {
        proof {
            assert((old(buf)@ + chars_of(bytes@, i as int, k as int)).push(bytes@[k as int] as char)
                =~= old(buf)@ + chars_of(bytes@, i as int, k as int + 1));
        }
        let c = bytes[k] as char;
        buf.push(c);
        k = k + 1;
    }
}

/// Append a text piece when its kind is in the set.
fn push_opt(buf: &mut Vec<char>, cond: bool, piece: &str)
    ensures
        final(buf)@ == old(buf)@ + (if cond {
            piece@
        } else {
            Seq::<char>::empty()
        }),
{
    if cond {
        push_str_chars(buf, piece);
    } else {
        proof {
            assert(buf@ =~= buf@ + Seq::<char>::empty());
        }
    }
}

/// Append the expected-set names; mirrors `expected_names`.
fn push_expected(buf: &mut Vec<char>, e: &ExpectedSet)
    ensures
        final(buf)@ == old(buf)@ + expected_names(*e),
{
    let ghost e0 = old(buf)@;
    let ghost p1: Seq<char> = if e.int { " integer"@ } else { Seq::empty() };
    let ghost p2: Seq<char> = if e.minus { " minus"@ } else { Seq::empty() };
    let ghost p3: Seq<char> = if e.reg { " register"@ } else { Seq::empty() };
    let ghost p4: Seq<char> = if e.sp { " stack-pointer"@ } else { Seq::empty() };
    let ghost p5: Seq<char> = if e.ident { " identifier"@ } else { Seq::empty() };
    let ghost p6: Seq<char> = if e.label_def { " label"@ } else { Seq::empty() };
    let ghost p7: Seq<char> = if e.mnemonic { " mnemonic"@ } else { Seq::empty() };
    let ghost p8: Seq<char> = if e.port { " port"@ } else { Seq::empty() };
    let ghost p9: Seq<char> = if e.newline { " newline"@ } else { Seq::empty() };
    push_opt(buf, e.int, " integer");
    push_opt(buf, e.minus, " minus");
    push_opt(buf, e.reg, " register");
    push_opt(buf, e.sp, " stack-pointer");
    push_opt(buf, e.ident, " identifier");
    push_opt(buf, e.label_def, " label");
    push_opt(buf, e.mnemonic, " mnemonic");
    push_opt(buf, e.port, " port");
    push_opt(buf, e.newline, " newline");
    proof {
        assert(buf@ == e0 + p1 + p2 + p3 + p4 + p5 + p6 + p7 + p8 + p9);
        vstd::seq_lib::lemma_concat_associative(e0, p1, p2);
        vstd::seq_lib::lemma_concat_associative(e0, p1 + p2, p3);
        vstd::seq_lib::lemma_concat_associative(e0, p1 + p2 + p3, p4);
        vstd::seq_lib::lemma_concat_associative(e0, p1 + p2 + p3 + p4, p5);
        vstd::seq_lib::lemma_concat_associative(e0, p1 + p2 + p3 + p4 + p5, p6);
        vstd::seq_lib::lemma_concat_associative(e0, p1 + p2 + p3 + p4 + p5 + p6, p7);
        vstd::seq_lib::lemma_concat_associative(e0, p1 + p2 + p3 + p4 + p5 + p6 + p7, p8);
        vstd::seq_lib::lemma_concat_associative(e0, p1 + p2 + p3 + p4 + p5 + p6 + p7 + p8, p9);
        assert(buf@ == e0 + (p1 + p2 + p3 + p4 + p5 + p6 + p7 + p8 + p9));
        assert(expected_names(*e) == p1 + p2 + p3 + p4 + p5 + p6 + p7 + p8 + p9);
    }
}

/// Where the failing line begins, and the line's number.
fn find_line(bytes: &[u8], pos: usize) -> (r: (usize, usize))
    requires
        pos < usize::MAX,
        pos <= bytes@.len(),
    ensures
        r.0 == line_start(bytes@, pos as int),
        r.1 == line_of(bytes@, pos as int),
        r.0 <= pos,
        1 <= r.1 <= pos + 1,
{
    let mut ls: usize = 0;
    let mut ln: usize = 1;
    let mut q: usize = 0;
    while q < pos
        invariant
            pos < usize::MAX,
            q <= pos <= bytes@.len(),
            ls == line_start(bytes@, q as int),
            ln == line_of(bytes@, q as int),
            ls <= q,
            1 <= ln <= q + 1,
        decreases pos - q,
    {
        if bytes[q] == 10 {
            ls = q + 1;
            ln = ln + 1;
        }
        q = q + 1;
    }
    (ls, ln)
}

/// Where the failing line ends.
fn find_line_end(bytes: &[u8], pos: usize) -> (r: usize)
    requires
        pos <= bytes@.len(),
    ensures
        r == line_end(bytes@, pos as int),
        pos <= r <= bytes@.len(),
{
    let mut q: usize = pos;
    while q < bytes.len() && bytes[q] != 10
        invariant
            pos <= q <= bytes@.len(),
            line_end(bytes@, pos as int) == line_end(bytes@, q as int),
        decreases bytes@.len() - q,
    {
        q = q + 1;
    }
    q
}

/// Render one parse failure against the source it came from and a display
/// name for that source; yields exactly `render_spec`. The failure's span
/// must lie within the source, as every failure `parse` returns does.
#[verifier::rlimit(100)]
#[verifier::spinoff_prover]
pub fn render_diagnostic(source: &str, name: &str, failure: &ParseFailure) -> (r: Vec<char>)
    requires
        failure.start <= failure.end <= source.spec_bytes().len(),
        source.spec_bytes().len() < usize::MAX,
    ensures
        r@ == render_spec(source.spec_bytes(), name@, *failure),
{
    let bytes = source.as_bytes();
    let pos = failure.start;
    let (ls, ln) = find_line(bytes, pos);
    let le = find_line_end(bytes, pos);
    let caret_end = if failure.end > le {
        le
    } else {
        failure.end
    };
    let carets = if caret_end > pos + 1 {
        caret_end - pos
    } else {
        1
    };
    let mut buf: Vec<char> = Vec::new();
    push_str_chars(&mut buf, "error: ");
    match failure.kind {
        ParseFailureKind::UnexpectedToken => {
            push_str_chars(&mut buf, "unexpected token");
        },
        ParseFailureKind::InvalidToken => {
            push_str_chars(&mut buf, "invalid token");
        },
        ParseFailureKind::UnexpectedEndOfInput { expected } => {
            push_str_chars(&mut buf, "unexpected end of input, expected:");
            push_expected(&mut buf, &expected);
        },
        ParseFailureKind::UnrecognizedToken { expected } => {
            push_str_chars(&mut buf, "unrecognized token, expected:");
            push_expected(&mut buf, &expected);
        },
    }
    push_str_chars(&mut buf, "\n --> ");
    push_str_chars(&mut buf, name);
    push_str_chars(&mut buf, ":");
    push_decimal(&mut buf, ln as u64);
    push_str_chars(&mut buf, ":");
    push_decimal(&mut buf, (pos - ls + 1) as u64);
    push_str_chars(&mut buf, "\n");
    push_bytes_chars(&mut buf, bytes, ls, le);
    push_str_chars(&mut buf, "\n");
    push_repeat(&mut buf, ' ', pos - ls);
    push_repeat(&mut buf, '^', carets);
    push_str_chars(&mut buf, "\n");
    proof {
        assert(buf@ =~= render_spec(source.spec_bytes(), name@, *failure));
    }
    buf
}

} // verus!
