use vstd::prelude::*;

verus! {

/// `depth` copies of the two-space indent unit.
pub open spec fn indent(depth: nat) -> Seq<char>
    decreases depth,
{
    if depth == 0 {
        Seq::empty()
    } else {
        indent((depth - 1) as nat) + seq![' ', ' ']
    }
}

/// The lower-case hexadecimal digit for `d < 16`.
pub open spec fn hex_digit(d: nat) -> char {
    (if d < 10 { 48 + d } else { 87 + d }) as u8 as char
}

/// How one character is written inside a JSON string literal: quote and
/// backslash escaped, the usual short escapes for control characters that
/// have one, `\u00XX` for the other control characters, all else as is.
pub open spec fn escape_char(c: char) -> Seq<char> {
    if c == '"' {
        seq!['\\', '"']
    } else if c == '\\' {
        seq!['\\', '\\']
    } else if c == '\x08' {
        seq!['\\', 'b']
    } else if c == '\t' {
        seq!['\\', 't']
    } else if c == '\n' {
        seq!['\\', 'n']
    } else if c == '\x0c' {
        seq!['\\', 'f']
    } else if c == '\r' {
        seq!['\\', 'r']
    } else if (c as u32) < 0x20 {
        seq!['\\', 'u', '0', '0', hex_digit((c as u32 / 16) as nat), hex_digit((c as u32 % 16) as nat)]
    } else {
        seq![c]
    }
}

/// The characters of `s`, each escaped.
pub open spec fn escape_text(s: Seq<char>) -> Seq<char>
    decreases s.len(),
{
    if s.len() == 0 {
        Seq::empty()
    } else {
        escape_text(s.drop_last()) + escape_char(s.last())
    }
}

/// `s` as a JSON string literal.
pub open spec fn string_literal(s: Seq<char>) -> Seq<char> {
    seq!['"'] + escape_text(s) + seq!['"']
}

/// The decimal digits of `n`, most significant first, without leading zeros.
pub open spec fn decimal_digits(n: nat) -> Seq<char>
    decreases n,
{
    if n < 10 {
        seq![hex_digit(n)]
    } else {
        decimal_digits(n / 10).push(hex_digit(n % 10))
    }
}

/// `n` as a JSON number: a minus sign when negative, then its decimal digits.
pub open spec fn int_literal(n: int) -> Seq<char> {
    if n < 0 {
        seq!['-'] + decimal_digits((-n) as nat)
    } else {
        decimal_digits(n as nat)
    }
}

/// `text` with `depth` indent units added after every line break.
pub open spec fn nest(text: Seq<char>, depth: nat) -> Seq<char>
    decreases text.len(),
{
    if text.len() == 0 {
        Seq::empty()
    } else if text.last() == '\n' {
        nest(text.drop_last(), depth) + seq!['\n'] + indent(depth)
    } else {
        nest(text.drop_last(), depth).push(text.last())
    }
}

fn digit_of(d: u32) -> (c: char)
    requires
        d < 16,
    ensures
        c == hex_digit(d as nat),
{
    if d < 10 {
        (d as u8 + 48) as char
    } else {
        (d as u8 + 87) as char
    }
}

/// Appends `depth` indent units.
pub fn push_indent(out: &mut String, depth: usize)
    ensures
        final(out)@ == old(out)@ + indent(depth as nat),
{
    let mut i: usize = 0;
    while i < depth
        invariant
            i <= depth,
            out@ == old(out)@ + indent(i as nat),
        decreases depth - i,
    {
        out.push(' ');
        out.push(' ');
        i = i + 1;
        assert(out@ =~= old(out)@ + indent(i as nat));
    }
}

/// Appends the decimal digits of `n`.
fn push_digits(out: &mut String, n: u32)
    ensures
        final(out)@ == old(out)@ + decimal_digits(n as nat),
    decreases n,
{
    if n >= 10 {
        push_digits(out, n / 10);
    }
    out.push(digit_of(n % 10));
    assert(out@ =~= old(out)@ + decimal_digits(n as nat));
}

/// Appends `n` as a JSON number.
pub fn push_int(out: &mut String, n: i32)
    ensures
        final(out)@ == old(out)@ + int_literal(n as int),
{
    if n < 0 {
        out.push('-');
        let m: u32 = (-(n as i64)) as u32;
        push_digits(out, m);
    } else {
        push_digits(out, n as u32);
    }
    assert(out@ =~= old(out)@ + int_literal(n as int));
}

/// Appends `text` with `depth` indent units after every line break.
pub fn push_nested(out: &mut String, text: &str, depth: usize)
    ensures
        final(out)@ == old(out)@ + nest(text@, depth as nat),
{
    let ghost start = out@;
    for c in it: text.chars()
        invariant
            it.seq() == text@,
            out@ == start + nest(it.seq().take(it.index() as int), depth as nat),
    {
        proof {
            assert(it.seq().take(it.index() + 1).drop_last() =~= it.seq().take(it.index() as int));
        }
        let ghost mid = out@;
        if c == '\n' {
            out.push('\n');
            push_indent(out, depth);
            assert(out@ =~= mid + seq!['\n'] + indent(depth as nat));
        } else {
            out.push(c);
        }
    }
    assert(text@.take(text@.len() as int) =~= text@);
}

/// Appends the escaped form of one character.
fn push_escaped_char(out: &mut String, c: char)
    ensures
        final(out)@ == old(out)@ + escape_char(c),
{
    let ghost pre = out@;
    if c == '"' || c == '\\' {
        out.push('\\');
        out.push(c);
    } else if c == '\x08' {
        out.push('\\');
        out.push('b');
    } else if c == '\t' {
        out.push('\\');
        out.push('t');
    } else if c == '\n' {
        out.push('\\');
        out.push('n');
    } else if c == '\x0c' {
        out.push('\\');
        out.push('f');
    } else if c == '\r' {
        out.push('\\');
        out.push('r');
    } else if (c as u32) < 0x20 {
        out.push('\\');
        out.push('u');
        out.push('0');
        out.push('0');
        out.push(digit_of(c as u32 / 16));
        out.push(digit_of(c as u32 % 16));
    } else {
        out.push(c);
    }
    assert(out@ =~= pre + escape_char(c));
}

/// Appends `s` as a JSON string literal.
pub fn push_string_literal(out: &mut String, s: &str)
    ensures
        final(out)@ == old(out)@ + string_literal(s@),
{
    out.push('"');
    let ghost start = out@;
    for c in it: s.chars()
        invariant
            it.seq() == s@,
            out@ == start + escape_text(it.seq().take(it.index() as int)),
    {
        proof {
            assert(it.seq().take(it.index() + 1).drop_last() =~= it.seq().take(it.index() as int));
        }
        push_escaped_char(out, c);
    }
    assert(s@.take(s@.len() as int) =~= s@);
    out.push('"');
    assert(out@ =~= old(out)@ + string_literal(s@));
}

} // verus!
