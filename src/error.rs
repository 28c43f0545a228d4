//! Rendering a diagnostic: the line and column of an offset, the source line,
//! and a caret under the offending character.
use vstd::prelude::*;
use crate::chars::{chars_of, push_char};
use crate::scan::{lemma_line_end, line_end};

verus! {

/// The number of newline characters in `cs`.
pub open spec fn newline_count(cs: Seq<char>) -> nat
    decreases cs.len(),
{
    if cs.len() == 0 {
        0
    } else {
        newline_count(cs.drop_last()) + if cs.last() == '\n' { 1nat } else { 0nat }
    }
}

/// The offset where the line holding offset `k` begins: just after the last
/// newline before `k`, or 0.
pub open spec fn line_start(cs: Seq<char>, k: int) -> int
    decreases k,
{
    if k <= 0 {
        0
    } else if cs[k - 1] == '\n' {
        k
    } else {
        line_start(cs, k - 1)
    }
}

/// The one-based line of offset `k`.
pub open spec fn line_of(cs: Seq<char>, k: int) -> nat {
    1 + newline_count(cs.subrange(0, k))
}

/// The one-based column of offset `k`, counted in characters.
pub open spec fn column_of(cs: Seq<char>, k: int) -> nat {
    (1 + k - line_start(cs, k)) as nat
}

/// The text of the line that begins at offset `s`, without its line ending
/// (`\n` or `\r\n`).
pub open spec fn line_text(cs: Seq<char>, s: int) -> Seq<char> {
    let t = cs.subrange(s, line_end(cs, s));
    if t.len() > 0 && t.last() == '\r' {
        t.drop_last()
    } else {
        t
    }
}

/// The decimal digit of value `d`.
pub open spec fn digit_char(d: nat) -> char {
    (48 + d) as char
}

/// The decimal numeral of `n`, without leading zeros.
pub open spec fn decimal(n: nat) -> Seq<char>
    decreases n,
{
    if n < 10 {
        seq![digit_char(n)]
    } else {
        decimal(n / 10).push(digit_char(n % 10))
    }
}

/// The diagnostic for `message` at offset `position` of `source` (an offset
/// past the end stands for the end): `line:column: message`, then the
/// source line, then spaces and a caret under the column.
pub open spec fn diagnostic(source: Seq<char>, message: Seq<char>, position: int) -> Seq<char> {
    let k = if position < source.len() { position } else { source.len() as int };
    let column = column_of(source, k);
    decimal(line_of(source, k)) + seq![':'] + decimal(column) + seq![':', ' '] + message + seq!['\n']
        + line_text(source, line_start(source, k)) + seq!['\n'] + Seq::new((column - 1) as nat, |i: int| ' ')
        + seq!['^']
}

/// Appends the decimal numeral of `n` to `out`.
fn push_decimal(out: &mut String, n: u128)
    ensures
        final(out)@ == old(out)@ + decimal(n as nat),
    decreases n,
{
    if n >= 10 {
        push_decimal(out, n / 10);
    }
    let d = (n % 10) as u8;
    push_char(out, (48u8 + d) as char);
    proof {
        assert(final(out)@ =~= old(out)@ + decimal(n as nat));
    }
}

/// The number of newlines before offset `k`, and where the line holding
/// `k` begins.
fn locate(cs: &Vec<char>, k: usize) -> (r: (usize, usize))
    requires
        k <= cs.len(),
    ensures
        r.0 == newline_count(cs@.subrange(0, k as int)),
        r.1 == line_start(cs@, k as int),
        r.0 <= k,
        r.1 <= k,
{
    let mut newlines: usize = 0;
    let mut start: usize = 0;
    let mut i: usize = 0;
    while i < k
        invariant
            k <= cs.len(),
            i <= k,
            newlines <= i,
            start <= i,
            newlines == newline_count(cs@.subrange(0, i as int)),
            start == line_start(cs@, i as int),
        decreases k - i,
    {
        proof {
            assert(cs@.subrange(0, i + 1).drop_last() =~= cs@.subrange(0, i as int));
        }
        if cs[i] == '\n' {
            newlines = newlines + 1;
            start = i + 1;
        }
        i = i + 1;
    }
    (newlines, start)
}

/// Appends the text of the line that begins at `start`.
fn push_line(out: &mut String, cs: &Vec<char>, start: usize)
    requires
        start <= cs.len(),
    ensures
        final(out)@ == old(out)@ + line_text(cs@, start as int),
{
    proof {
        lemma_line_end(cs@, start as int);
    }
    let mut j: usize = start;
    while j < cs.len() && cs[j] != '\n'
        invariant
            start <= j <= line_end(cs@, start as int),
            line_end(cs@, j as int) == line_end(cs@, start as int),
        decreases cs.len() - j,
    {
        proof {
            lemma_line_end(cs@, j + 1);
        }
        j = j + 1;
    }
    let e = if j > start && cs[j - 1] == '\r' { j - 1 } else { j };
    let mut m: usize = start;
    while m < e
        invariant
            start <= m <= e <= cs.len(),
            out@ == old(out)@ + cs@.subrange(start as int, m as int),
        decreases e - m,
    {
        push_char(out, cs[m]);
        m = m + 1;
        proof {
            assert(out@ =~= old(out)@ + cs@.subrange(start as int, m as int));
        }
    }
    proof {
        let t = cs@.subrange(start as int, j as int);
        if t.len() > 0 && t.last() == '\r' {
            assert(t.drop_last() =~= cs@.subrange(start as int, e as int));
        } else {
            assert(t =~= cs@.subrange(start as int, e as int));
        }
    }
}

/// Appends `n` spaces.
fn push_spaces(out: &mut String, n: usize)
    ensures
        final(out)@ == old(out)@ + Seq::new(n as nat, |x: int| ' '),
{
    let mut i: usize = 0;
    while i < n
        invariant
            i <= n,
            out@ == old(out)@ + Seq::new(i as nat, |x: int| ' '),
        decreases n - i,
    {
        push_char(out, ' ');
        i = i + 1;
        proof {
            assert(out@ =~= old(out)@ + Seq::new(i as nat, |x: int| ' '));
        }
    }
}

/// Renders `message` at offset `position` of `source` as a three-line
/// diagnostic: `line:column: message`, the source line, and a caret under
/// the column. Lines and columns count characters from 1; a position past
/// the end of the source stands for the end.
pub fn format_error_message_inline(source: &str, message: &str, position: usize) -> (r: String)
    ensures
        r@ == diagnostic(source@, message@, position as int),
{
    let cs = chars_of(source);
    let k = if position < cs.len() { position } else { cs.len() };
    let (newlines, start) = locate(&cs, k);
    let column = (k - start) as u128 + 1;
    let mut out = String::new();
    push_decimal(&mut out, newlines as u128 + 1);
    push_char(&mut out, ':');
    push_decimal(&mut out, column);
    push_char(&mut out, ':');
    push_char(&mut out, ' ');
    out.append(message);
    push_char(&mut out, '\n');
    push_line(&mut out, &cs, start);
    push_char(&mut out, '\n');
    push_spaces(&mut out, k - start);
    push_char(&mut out, '^');
    proof {
        let kk = k as int;
        assert(column_of(source@, kk) == column);
        assert(out@ =~= diagnostic(source@, message@, position as int));
    }
    out
}

} // verus!
