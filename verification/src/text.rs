//! Text primitives shared by every rendering strategy: the mathematical
//! definitions of joining, repetition, re-indentation and decimal numbers, and
//! the executable writers proved against them.

use vstd::prelude::*;
use itertools::Itertools;

verus! {

/// The views of a sequence of strings.
pub open spec fn texts(v: Seq<String>) -> Seq<Seq<char>> {
    v.map_values(|s: String| s@)
}

/// `parts` joined with `sep` between consecutive elements.
pub open spec fn join(parts: Seq<Seq<char>>, sep: Seq<char>) -> Seq<char>
    decreases parts.len(),
{
    if parts.len() == 0 {
        Seq::empty()
    } else if parts.len() == 1 {
        parts[0]
    } else {
        join(parts.drop_last(), sep) + sep + parts.last()
    }
}

/// `unit` written `n` times.
pub open spec fn repeat(unit: Seq<char>, n: nat) -> Seq<char>
    decreases n,
{
    if n == 0 {
        Seq::empty()
    } else {
        repeat(unit, (n - 1) as nat) + unit
    }
}

/// `content` with `prefix` re-emitted after every line feed.
pub open spec fn indent(content: Seq<char>, prefix: Seq<char>) -> Seq<char>
    decreases content.len(),
{
    if content.len() == 0 {
        Seq::empty()
    } else {
        indent(content.drop_last(), prefix) + if content.last() == '\n' {
            seq!['\n'] + prefix
        } else {
            seq![content.last()]
        }
    }
}

/// The character of a decimal digit.
pub open spec fn digit(d: nat) -> char {
    seq!['0', '1', '2', '3', '4', '5', '6', '7', '8', '9'][d as int]
}

/// The decimal representation of `n`, without leading zeros.
pub open spec fn decimal(n: nat) -> Seq<char>
    decreases n,
{
    if n < 10 {
        seq![digit(n)]
    } else {
        decimal(n / 10) + seq![digit(n % 10)]
    }
}

/// The decimal representation of `n`, with a leading `-` when negative.
pub open spec fn signed_decimal(n: int) -> Seq<char> {
    if n < 0 {
        seq!['-'] + decimal((-n) as nat)
    } else {
        decimal(n as nat)
    }
}

/// `String::push`: claims that `out` gains exactly `c` at its end.
#[verifier::external_body]
pub(crate) fn push_char(out: &mut String, c: char)
    ensures
        final(out)@ == old(out)@.push(c),
{
    out.push(c);
}

/// Appends `s` to `out`.
pub fn write_str(out: &mut String, s: &str)
    ensures
        final(out)@ == old(out)@ + s@,
{
    out.append(s);
}

/// The digit character for `d`.
fn digit_char(d: u64) -> (c: char)
    requires
        d < 10,
    ensures
        c == digit(d as nat),
{
    match d {
        0 => '0',
        1 => '1',
        2 => '2',
        3 => '3',
        4 => '4',
        5 => '5',
        6 => '6',
        7 => '7',
        8 => '8',
        _ => '9',
    }
}

/// Appends the decimal representation of `n`.
pub fn write_decimal(out: &mut String, n: u64)
    ensures
        final(out)@ == old(out)@ + decimal(n as nat),
    decreases n,
{
    if n < 10 {
        push_char(out, digit_char(n));
    } else {
        write_decimal(out, n / 10);
        push_char(out, digit_char(n % 10));
    }
}

/// Appends the decimal representation of `n`, with a leading `-` when
/// negative.
pub fn write_signed_decimal(out: &mut String, n: i64)
    ensures
        final(out)@ == old(out)@ + signed_decimal(n as int),
{
    if n < 0 {
        push_char(out, '-');
        let magnitude: i128 = 0i128 - (n as i128);
        write_decimal(out, magnitude as u64);
        assert(old(out)@.push('-') + decimal(magnitude as nat) =~= old(out)@ + (seq!['-'] + decimal((-(n as int)) as nat)));
    } else {
        write_decimal(out, n as u64);
    }
}

/// Appends `unit` written `n` times.
pub fn write_repeat(out: &mut String, unit: &str, n: usize)
    ensures
        final(out)@ == old(out)@ + repeat(unit@, n as nat),
{
    let ghost start = out@;
    let mut i: usize = 0;
    while i < n
        invariant
            i <= n,
            out@ == start + repeat(unit@, i as nat),
        decreases n - i,
    {
        out.append(unit);
        i = i + 1;
        assert(out@ =~= start + repeat(unit@, i as nat));
    }
}

/// Appends `content`, re-emitting `prefix` after every line feed it holds.
pub fn write_indented(out: &mut String, prefix: &str, content: &str)
    ensures
        final(out)@ == old(out)@ + indent(content@, prefix@),
{
    let ghost start = out@;
    for c in it: content.chars()
        invariant
            it.seq() == content@,
            out@ == start + indent(it.seq().take(it.index() as int), prefix@),
    {
        proof {
            assert(it.seq().take(it.index() + 1).drop_last() =~= it.seq().take(it.index() as int));
        }
        if c == '\n' {
            push_char(out, '\n');
            out.append(prefix);
        } else {
            push_char(out, c);
        }
        assert(out@ =~= start + indent(it.seq().take(it.index() + 1), prefix@));
    }
    assert(content@.take(content@.len() as int) =~= content@);
}

/// `Itertools::join` over the items: claims the result is the first item's
/// text, then `sep` and the next item's text for each further item (empty
/// when there are no items). A `String` displays as its own text.
#[verifier::external_body]
fn join_with(items: &Vec<String>, sep: &str) -> (s: String)
    ensures
        s@ == join(texts(items@), sep@),
{
    items.iter().join(sep)
}

/// Appends the parts of `items` joined with `sep`.
pub fn write_joined(out: &mut String, items: &Vec<String>, sep: &str)
    ensures
        final(out)@ == old(out)@ + join(texts(items@), sep@),
{
    let joined = join_with(items, sep);
    out.append(joined.as_str());
}

} // verus!

verus! {

/// `": "`.
pub open spec fn colon_space() -> Seq<char> {
    seq![':', ' ']
}

/// `"; "`.
pub open spec fn semicolon_space() -> Seq<char> {
    seq![';', ' ']
}

/// `" ("`.
pub open spec fn open_paren() -> Seq<char> {
    seq![' ', '(']
}

/// `" errors"`.
pub open spec fn errors_word() -> Seq<char> {
    seq![' ', 'e', 'r', 'r', 'o', 'r', 's']
}

/// `"no errors"`.
pub open spec fn no_errors() -> Seq<char> {
    seq!['n', 'o', ' ', 'e', 'r', 'r', 'o', 'r', 's']
}

/// Appends `": "`.
pub fn write_colon_space(out: &mut String)
    ensures
        final(out)@ == old(out)@ + colon_space(),
{
    proof {
        reveal_strlit(": ");
        assert(": "@ =~= colon_space());
    }
    out.append(": ");
}

/// Appends `"; "`.
pub fn write_semicolon_space(out: &mut String)
    ensures
        final(out)@ == old(out)@ + semicolon_space(),
{
    proof {
        reveal_strlit("; ");
        assert("; "@ =~= semicolon_space());
    }
    out.append("; ");
}

/// Appends `" ("`.
pub fn write_open_paren(out: &mut String)
    ensures
        final(out)@ == old(out)@ + open_paren(),
{
    proof {
        reveal_strlit(" (");
        assert(" ("@ =~= open_paren());
    }
    out.append(" (");
}

/// Appends one character that is known at the call site.
pub fn write_char(out: &mut String, c: char)
    ensures
        final(out)@ == old(out)@ + seq![c],
{
    push_char(out, c);
    assert(old(out)@.push(c) =~= old(out)@ + seq![c]);
}

/// Appends `"no errors"`.
pub fn write_no_errors(out: &mut String)
    ensures
        final(out)@ == old(out)@ + no_errors(),
{
    proof {
        reveal_strlit("no errors");
        assert("no errors"@ =~= no_errors());
    }
    out.append("no errors");
}

/// Appends `"{n} errors"`.
pub fn write_error_count(out: &mut String, n: usize)
    ensures
        final(out)@ == old(out)@ + decimal(n as nat) + errors_word(),
{
    write_decimal(out, n as u64);
    proof {
        reveal_strlit(" errors");
        assert(" errors"@ =~= errors_word());
    }
    out.append(" errors");
}

} // verus!
