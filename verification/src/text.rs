//! Text helpers: characters of a string, decimal digits, grouping and
//! middle truncation of paths.

use vstd::prelude::*;

verus! {

/// `String::push` of std, which appends `c` to `s`; the contract states
/// that the text afterwards is the text before followed by `c`.
#[verifier::external_body]
pub(crate) fn push_char(s: &mut String, c: char)
    ensures
        final(s)@ == old(s)@.push(c),
{
    s.push(c);
}

/// The characters of `s`, in order.
pub fn chars_of(s: &str) -> (v: Vec<char>)
    ensures
        v@ == s@,
{
    let mut v: Vec<char> = Vec::new();
    for c in it: s.chars()
        invariant
            v@ == it.seq().take(it.index() as int),
    {
        v.push(c);
    }
    v
}


/// A string holding exactly the characters `v`.
pub fn string_of(v: &Vec<char>) -> (s: String)
    ensures
        s@ == v@,
{
    let mut s = String::new();
    let mut i: usize = 0;
    while i < v.len()
        invariant
            i <= v.len(),
            s@ == v@.take(i as int),
        decreases v.len() - i,
    {
        assert(v@.take(i as int).push(v@[i as int]) =~= v@.take(i + 1));
        push_char(&mut s, v[i]);
        i = i + 1;
    }
    assert(v@.take(v.len() as int) =~= v@);
    s
}

/// The character of the decimal digit `d` (`0 <= d < 10`).
pub open spec fn digit_char(d: nat) -> char {
    ('0' as u32 + d) as char
}

/// The decimal representation of `n`, without leading zeros.
pub open spec fn decimal(n: nat) -> Seq<char>
    decreases n,
{
    if n < 10 {
        seq![digit_char(n)]
    } else {
        decimal(n / 10).push(digit_char(n % 10))
    }
}

fn digit(d: u64) -> (c: char)
    requires
        d < 10,
    ensures
        c == digit_char(d as nat),
{
    let b: u8 = 48u8 + d as u8;
    b as char
}

/// Appends the decimal representation of `n` to `s`.
pub fn push_decimal(s: &mut String, n: u64)
    ensures
        final(s)@ == old(s)@ + decimal(n as nat),
    decreases n,
{
    if n < 10 {
        push_char(s, digit(n));
    } else {
        push_decimal(s, n / 10);
        push_char(s, digit(n % 10));
    }
}

/// The decimal representation of `n`.
pub fn decimal_string(n: u64) -> (s: String)
    ensures
        s@ == decimal(n as nat),
{
    let mut s = String::new();
    push_decimal(&mut s, n);
    assert(s@ =~= decimal(n as nat));
    s
}

/// `s` with its digits grouped by threes from the right, separated by commas.
pub open spec fn group_thousands(s: Seq<char>) -> Seq<char>
    decreases s.len(),
{
    if s.len() <= 3 {
        s
    } else {
        group_thousands(s.subrange(0, s.len() - 3)).push(',') + s.subrange(s.len() - 3, s.len() as int)
    }
}

fn push_grouped(out: &mut String, digits: &Vec<char>, end: usize)
    requires
        end <= digits@.len(),
    ensures
        final(out)@ == old(out)@ + group_thousands(digits@.take(end as int)),
    decreases end,
{
    let ghost d = digits@.take(end as int);
    if end <= 3 {
        let mut i: usize = 0;
        while i < end
            invariant
                i <= end <= digits@.len(),
                d == digits@.take(end as int),
                out@ == old(out)@ + d.take(i as int),
            decreases end - i,
        {
            assert(d.take(i as int).push(d[i as int]) =~= d.take(i + 1));
            push_char(out, digits[i]);
            i = i + 1;
        }
        assert(d.take(end as int) =~= d);
    } else {
        push_grouped(out, digits, end - 3);
        assert(d.subrange(0, d.len() - 3) =~= digits@.take(end - 3));
        push_char(out, ',');
        push_char(out, digits[end - 3]);
        push_char(out, digits[end - 2]);
        push_char(out, digits[end - 1]);
        assert(d.subrange(d.len() - 3, d.len() as int) =~= seq![
            digits@[end - 3],
            digits@[end - 2],
            digits@[end - 1],
        ]);
        assert(out@ =~= old(out)@ + group_thousands(d));
    }
}

/// `n` in decimal with its digits grouped by threes, as in `1,234,567`.
pub fn format_number(n: usize) -> (s: String)
    ensures
        s@ == group_thousands(decimal(n as nat)),
{
    let digits = chars_of(decimal_string(n as u64).as_str());
    let mut s = String::new();
    push_grouped(&mut s, &digits, digits.len());
    assert(digits@.take(digits@.len() as int) =~= digits@);
    assert(s@ =~= group_thousands(decimal(n as nat)));
    s
}


/// `n` spaces.
pub open spec fn spaces(n: nat) -> Seq<char> {
    Seq::new(n, |i: int| ' ')
}

/// `s` followed by spaces up to `width` characters (as `{:width}` formats a string).
pub open spec fn pad_right(s: Seq<char>, width: nat) -> Seq<char> {
    if s.len() >= width {
        s
    } else {
        s + spaces((width - s.len()) as nat)
    }
}

/// `s` preceded by spaces up to `width` characters (as `{:width}` formats a number).
pub open spec fn pad_left(s: Seq<char>, width: nat) -> Seq<char> {
    if s.len() >= width {
        s
    } else {
        spaces((width - s.len()) as nat) + s
    }
}

/// `n` in decimal on at least two digits (as `{:02}` formats it).
pub open spec fn two_digits(n: nat) -> Seq<char> {
    if n < 10 {
        seq!['0', digit_char(n)]
    } else {
        decimal(n)
    }
}

/// Appends `n` spaces to `s`.
pub fn push_spaces(s: &mut String, n: usize)
    ensures
        final(s)@ == old(s)@ + spaces(n as nat),
{
    let mut i: usize = 0;
    while i < n
        invariant
            i <= n,
            s@ == old(s)@ + spaces(i as nat),
        decreases n - i,
    {
        assert(spaces(i as nat).push(' ') =~= spaces((i + 1) as nat));
        push_char(s, ' ');
        i = i + 1;
    }
}

/// Appends the characters of `v` in the range `[from, to)` to `s`.
pub fn push_range(s: &mut String, v: &Vec<char>, from: usize, to: usize)
    requires
        from <= to <= v@.len(),
    ensures
        final(s)@ == old(s)@ + v@.subrange(from as int, to as int),
{
    let mut i: usize = from;
    while i < to
        invariant
            from <= i <= to <= v@.len(),
            s@ == old(s)@ + v@.subrange(from as int, i as int),
        decreases to - i,
    {
        assert(v@.subrange(from as int, i as int).push(v@[i as int]) =~= v@.subrange(
            from as int,
            i + 1,
        ));
        push_char(s, v[i]);
        i = i + 1;
    }
}

/// Appends `text` followed by spaces up to `width` characters.
pub fn push_padded_right(s: &mut String, text: &str, width: usize)
    ensures
        final(s)@ == old(s)@ + pad_right(text@, width as nat),
{
    let n = text.unicode_len();
    s.append(text);
    if n < width {
        push_spaces(s, width - n);
    }
}

/// Appends the decimal `n` preceded by spaces up to `width` characters.
pub fn push_decimal_padded_left(s: &mut String, n: u64, width: usize)
    ensures
        final(s)@ == old(s)@ + pad_left(decimal(n as nat), width as nat),
{
    let d = decimal_string(n);
    let len = d.as_str().unicode_len();
    if len < width {
        push_spaces(s, width - len);
    }
    s.append(d.as_str());
}

/// Appends `n` in decimal on at least two digits.
pub fn push_two_digits(s: &mut String, n: u64)
    ensures
        final(s)@ == old(s)@ + two_digits(n as nat),
{
    if n < 10 {
        push_char(s, '0');
        push_char(s, digit(n));
    } else {
        push_decimal(s, n);
    }
}

/// `s` shortened from the middle to fit in `max_len` characters: the first
/// and last `(max_len - 3) / 2` characters around `...`, or `...` alone when
/// that count is zero.
pub open spec fn truncated_middle(s: Seq<char>, max_len: nat) -> Seq<char> {
    if s.len() <= max_len {
        s
    } else {
        let keep: nat = if max_len >= 3 { ((max_len - 3) as nat) / 2 } else { 0 };
        if keep == 0 {
            seq!['.', '.', '.']
        } else {
            s.take(keep as int) + seq!['.', '.', '.'] + s.skip(s.len() - keep)
        }
    }
}

/// Truncates a path from the middle for display, counting characters.
pub fn truncate_path(path: &str, max_len: usize) -> (res: String)
    ensures
        res@ == truncated_middle(path@, max_len as nat),
{
    let chars = chars_of(path);
    let char_count = chars.len();
    if char_count <= max_len {
        string_of(&chars)
    } else {
        let keep = max_len.saturating_sub(3) / 2;
        let mut res = String::new();
        if keep == 0 {
            push_char(&mut res, '.');
            push_char(&mut res, '.');
            push_char(&mut res, '.');
            assert(res@ =~= seq!['.', '.', '.']);
        } else {
            push_range(&mut res, &chars, 0, keep);
            push_char(&mut res, '.');
            push_char(&mut res, '.');
            push_char(&mut res, '.');
            push_range(&mut res, &chars, char_count - keep, char_count);
            assert(res@ =~= path@.take(keep as int) + seq!['.', '.', '.'] + path@.skip(
                char_count - keep,
            ));
        }
        res
    }
}

} // verus!
