//! Character-level helpers shared by the scene and the renderer: building
//! strings character by character, and writing integers in decimal.

use vstd::prelude::*;

verus! {

/// Appends one character to a string (`String::push`).
#[verifier::external_body]
pub fn push_char(s: &mut String, c: char)
    ensures
        final(s)@ == old(s)@.push(c),
{
    s.push(c);
}

/// The characters of a string slice, in order.
pub fn chars_of(s: &str) -> (out: Vec<char>)
    ensures
        out@ == s@,
{
    let mut out: Vec<char> = Vec::new();
    for c in it: s.chars()
        invariant
            out@ == it.seq().take(it.index() as int),
            it.seq() == s@,
    {
        out.push(c);
    }
    out
}

/// Appends every character of `cs` to `out`.
pub fn push_all(out: &mut String, cs: &[char])
    ensures
        final(out)@ == old(out)@ + cs@,
{
    let mut i: usize = 0;
    while i < cs.len()
        invariant
            i <= cs.len(),
            out@ == old(out)@ + cs@.take(i as int),
        decreases cs.len() - i,
    {
        push_char(out, cs[i]);
        assert(cs@.take(i as int + 1) == cs@.take(i as int).push(cs@[i as int]));
        i += 1;
    }
    assert(cs@.take(cs.len() as int) == cs@);
}

/// A string made of the given characters.
pub fn string_of(cs: &[char]) -> (s: String)
    ensures
        s@ == cs@,
{
    let mut s = String::new();
    push_all(&mut s, cs);
    s
}

/// `n` copies of `c`.
pub open spec fn repeat(c: char, n: nat) -> Seq<char> {
    Seq::new(n, |i: int| c)
}

/// Appends `n` copies of `c` to `out`.
pub fn push_repeat(out: &mut String, c: char, n: usize)
    ensures
        final(out)@ == old(out)@ + repeat(c, n as nat),
{
    let mut i: usize = 0;
    while i < n
        invariant
            i <= n,
            out@ == old(out)@ + repeat(c, i as nat),
        decreases n - i,
    {
        push_char(out, c);
        assert(repeat(c, i as nat).push(c) == repeat(c, (i + 1) as nat));
        i += 1;
    }
}

/// A string of `n` copies of `c`.
pub fn repeated(c: char, n: usize) -> (s: String)
    ensures
        s@ == repeat(c, n as nat),
{
    let mut s = String::new();
    push_repeat(&mut s, c, n);
    assert(Seq::<char>::empty() + repeat(c, n as nat) == repeat(c, n as nat));
    s
}

/// The decimal digit character for `d` (which is below ten).
pub open spec fn digit(d: int) -> char {
    (48 + d) as char
}

/// The decimal representation of a natural number, without leading zeros.
pub open spec fn decimal(n: nat) -> Seq<char>
    decreases n,
{
    if n < 10 {
        seq![digit(n as int)]
    } else {
        decimal(n / 10).push(digit((n % 10) as int))
    }
}

/// An integer in decimal, with a leading `-` when negative.
pub open spec fn signed_decimal(v: int) -> Seq<char> {
    if v < 0 {
        seq!['-'] + decimal((-v) as nat)
    } else {
        decimal(v as nat)
    }
}

/// Appends the decimal representation of `n` to `out`.
pub fn push_decimal(out: &mut String, n: u64)
    ensures
        final(out)@ == old(out)@ + decimal(n as nat),
    decreases n,
{
    if n >= 10 {
        push_decimal(out, n / 10);
    }
    let d: u8 = (n % 10) as u8;
    let c: char = (48u8 + d) as char;
    assert(c == digit((n % 10) as int));
    push_char(out, c);
    assert(old(out)@ + decimal(n as nat) == old(out)@ + decimal((n / 10) as nat) + seq![c]
        || n < 10);
}

/// Appends `v` in decimal, with a leading `-` when negative.
pub fn push_signed(out: &mut String, v: i64)
    ensures
        final(out)@ == old(out)@ + signed_decimal(v as int),
{
    if v < 0 {
        push_char(out, '-');
        let m: u64 = if v == i64::MIN {
            9223372036854775808u64
        } else {
            (-v) as u64
        };
        push_decimal(out, m);
        assert(old(out)@.push('-') + decimal(m as nat) == old(out)@ + (seq!['-'] + decimal(m as nat)));
    } else {
        push_decimal(out, v as u64);
    }
}

/// `n` in decimal, as a new string.
pub fn decimal_text(n: u64) -> (s: String)
    ensures
        s@ == decimal(n as nat),
{
    let mut s = String::new();
    push_decimal(&mut s, n);
    assert(Seq::<char>::empty() + decimal(n as nat) == decimal(n as nat));
    s
}

/// A quantity in thousandths rounded to a whole number, ties to even: how a
/// reading such as `27.5` shows with no decimals.
pub open spec fn round_milli(m: nat) -> nat {
    let q = m / 1000;
    let r = m % 1000;
    if r > 500 || (r == 500 && q % 2 == 1) {
        q + 1
    } else {
        q
    }
}

/// A quantity in thousandths shown with no decimals: `27` for 27.3, `-3` for
/// -2.8, and `-0` for a negative value that rounds to zero.
pub open spec fn whole(m: int) -> Seq<char> {
    if m < 0 {
        seq!['-'] + decimal(round_milli((-m) as nat))
    } else {
        decimal(round_milli(m as nat))
    }
}

/// Appends a quantity in thousandths shown with no decimals.
pub fn push_whole(out: &mut String, m: i64)
    ensures
        final(out)@ == old(out)@ + whole(m as int),
{
    let mag: u64 = if m == i64::MIN {
        9223372036854775808u64
    } else if m < 0 {
        (-m) as u64
    } else {
        m as u64
    };
    let q = mag / 1000;
    let r = mag % 1000;
    let rounded = if r > 500 || (r == 500 && q % 2 == 1) {
        q + 1
    } else {
        q
    };
    assert(rounded == round_milli(mag as nat));
    if m < 0 {
        push_char(out, '-');
        push_decimal(out, rounded);
        assert(old(out)@.push('-') + decimal(rounded as nat) == old(out)@ + (seq!['-'] + decimal(rounded as nat)));
    } else {
        push_decimal(out, rounded);
    }
}

/// The number of characters in a string.
pub fn char_len(s: &str) -> (n: usize)
    ensures
        n == s@.len(),
{
    let v = chars_of(s);
    v.len()
}

} // verus!

verus! {

/// `s` padded with spaces on the right to at least `n` characters (`{:<n}`).
pub open spec fn pad_right(s: Seq<char>, n: nat) -> Seq<char> {
    if s.len() >= n {
        s
    } else {
        s + repeat(' ', (n - s.len()) as nat)
    }
}

/// `s` padded with spaces on the left to at least `n` characters (`{:>n}`).
pub open spec fn pad_left(s: Seq<char>, n: nat) -> Seq<char> {
    if s.len() >= n {
        s
    } else {
        repeat(' ', (n - s.len()) as nat) + s
    }
}

/// Appends `s` padded on the right to at least `n` characters.
pub fn push_padded_right(out: &mut String, s: &[char], n: usize)
    ensures
        final(out)@ == old(out)@ + pad_right(s@, n as nat),
{
    push_all(out, s);
    if s.len() < n {
        push_repeat(out, ' ', n - s.len());
        assert(old(out)@ + s@ + repeat(' ', (n - s.len()) as nat) == old(out)@ + (s@ + repeat(
            ' ',
            (n - s.len()) as nat,
        )));
    }
}

/// Appends `s` padded on the left to at least `n` characters.
pub fn push_padded_left(out: &mut String, s: &[char], n: usize)
    ensures
        final(out)@ == old(out)@ + pad_left(s@, n as nat),
{
    if s.len() < n {
        push_repeat(out, ' ', n - s.len());
        push_all(out, s);
        assert(old(out)@ + repeat(' ', (n - s.len()) as nat) + s@ == old(out)@ + (repeat(
            ' ',
            (n - s.len()) as nat,
        ) + s@));
    } else {
        push_all(out, s);
    }
}

/// What `str::to_uppercase` gives for a string: Unicode upper-casing, which
/// may change the number of characters (`ß` becomes `SS`).
pub uninterp spec fn uppercase(s: Seq<char>) -> Seq<char>;

/// What `str::to_lowercase` gives for a string: Unicode lower-casing, which
/// may change the number of characters.
pub uninterp spec fn lowercase(s: Seq<char>) -> Seq<char>;

/// `str::to_uppercase`. Claimed: the result is `uppercase` of the argument,
/// a function of the argument alone; nothing more is stated of it.
#[verifier::external_body]
pub fn to_upper(s: &str) -> (r: String)
    ensures
        r@ == uppercase(s@),
{
    s.to_uppercase()
}

/// `str::to_lowercase`. Claimed: the result is `lowercase` of the argument,
/// a function of the argument alone; nothing more is stated of it.
#[verifier::external_body]
pub fn to_lower(s: &str) -> (r: String)
    ensures
        r@ == lowercase(s@),
{
    s.to_lowercase()
}


pub open spec fn is_digit(c: char) -> bool {
    '0' <= c <= '9'
}

pub open spec fn all_digits(s: Seq<char>) -> bool {
    forall|i: int| 0 <= i < s.len() ==> is_digit(#[trigger] s[i])
}

/// The value of a run of decimal digits.
pub open spec fn digits_value(s: Seq<char>) -> nat
    decreases s.len(),
{
    if s.len() == 0 {
        0
    } else {
        digits_value(s.drop_last()) * 10 + (s.last() as nat - '0' as nat) as nat
    }
}

/// A non-negative integer as `str::parse` reads it: an optional `+`, then
/// one or more decimal digits.
pub open spec fn parse_nat(s: Seq<char>) -> Option<nat> {
    let body = if s.len() > 0 && s[0] == '+' {
        s.drop_first()
    } else {
        s
    };
    if body.len() > 0 && all_digits(body) {
        Some(digits_value(body))
    } else {
        None
    }
}

/// The number a field holds, when it parses and is at most `limit`.
pub open spec fn parse_upto(s: Seq<char>, limit: nat) -> Option<nat> {
    match parse_nat(s) {
        Some(v) => if v <= limit {
            Some(v)
        } else {
            None
        },
        None => None,
    }
}

/// The number a run of characters holds when it parses (see `parse_nat`) and
/// is at most `limit`.
pub fn read_upto(cs: &[char], limit: u64) -> (r: Option<u64>)
    ensures
        match r {
            Some(v) => parse_upto(cs@, limit as nat) == Some(v as nat),
            None => parse_upto(cs@, limit as nat) is None,
        },
{
    let start: usize = if cs.len() > 0 && cs[0] == '+' { 1 } else { 0 };
    let ghost body = if cs@.len() > 0 && cs@[0] == '+' { cs@.drop_first() } else { cs@ };
    if start >= cs.len() {
        return None;
    }
    let cap: u128 = limit as u128 + 1;
    let mut v: u128 = 0;
    let mut i: usize = start;
    while i < cs.len()
        invariant
            start <= i <= cs@.len(),
            body == cs@.skip(start as int),
            body == (if cs@.len() > 0 && cs@[0] == '+' { cs@.drop_first() } else { cs@ }),
            cap == limit + 1,
            v == if digits_value(body.take(i - start)) >= cap { cap as nat } else { digits_value(body.take(i - start)) },
            forall|j: int| 0 <= j < i - start ==> is_digit(#[trigger] body[j]),
        decreases cs.len() - i,
    {
        let c = cs[i];
        assert(body[i - start] == c);
        if c < '0' || c > '9' {
            assert(!is_digit(body[i - start]));
            assert(!all_digits(body));
            return None;
        }
        let ghost k = i - start;
        assert(body.take(k + 1).drop_last() =~= body.take(k));
        assert(body.take(k + 1).last() == c);
        let d: u128 = (c as u32 - '0' as u32) as u128;
        if v >= cap {
            v = cap;
        } else {
            let next = v * 10 + d;
            v = if next >= cap { cap } else { next };
        }
        i += 1;
    }
    assert(body.take(cs@.len() - start) =~= body);
    if v >= cap {
        None
    } else {
        Some(v as u64)
    }
}

} // verus!
