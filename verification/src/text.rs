//! Small text operations that option values, HTTP headers and messages share:
//! trimming, cutting at a character, and decimal numbers.

use vstd::prelude::*;
use vstd::string::*;

verus! {

/// The characters that have the Unicode property White_Space.
pub open spec fn is_space(c: char) -> bool {
    ||| '\u{9}' <= c <= '\u{d}'
    ||| c == '\u{20}'
    ||| c == '\u{85}'
    ||| c == '\u{a0}'
    ||| c == '\u{1680}'
    ||| '\u{2000}' <= c <= '\u{200a}'
    ||| c == '\u{2028}'
    ||| c == '\u{2029}'
    ||| c == '\u{202f}'
    ||| c == '\u{205f}'
    ||| c == '\u{3000}'
}

/// Index of the first character at or after `from` that is not white space, or
/// the length when there is none.
pub open spec fn text_start(s: Seq<char>, from: int) -> int
    decreases s.len() - from,
{
    if from >= s.len() {
        s.len() as int
    } else if is_space(s[from]) {
        text_start(s, from + 1)
    } else {
        from
    }
}

/// Index one past the last character before `to` that is not white space, or
/// zero when there is none.
pub open spec fn text_stop(s: Seq<char>, to: int) -> int
    decreases to,
{
    if to <= 0 {
        0
    } else if is_space(s[to - 1]) {
        text_stop(s, to - 1)
    } else {
        to
    }
}

/// `s` without the white space at both ends.
pub open spec fn trimmed(s: Seq<char>) -> Seq<char> {
    let start = text_start(s, 0);
    let stop = text_stop(s, s.len() as int);
    if start < stop {
        s.subrange(start, stop)
    } else {
        Seq::empty()
    }
}

/// Index of the first `c` at or after `from`, or the length when there is none.
pub open spec fn find_from(s: Seq<char>, c: char, from: int) -> int
    decreases s.len() - from,
{
    if from >= s.len() {
        s.len() as int
    } else if s[from] == c {
        from
    } else {
        find_from(s, c, from + 1)
    }
}

/// Index one past the last `c` before `to`, or zero when there is none.
pub open spec fn find_after(s: Seq<char>, c: char, to: int) -> int
    decreases to,
{
    if to <= 0 {
        0
    } else if s[to - 1] == c {
        to
    } else {
        find_after(s, c, to - 1)
    }
}

/// What follows the last `c`: all of `s` when it holds no `c`.
pub open spec fn after_last(s: Seq<char>, c: char) -> Seq<char> {
    s.skip(find_after(s, c, s.len() as int))
}

/// What stands before and after the first `c`, or nothing when `s` holds no `c`.
pub open spec fn cut_once(s: Seq<char>, c: char) -> Option<(Seq<char>, Seq<char>)> {
    let at = find_from(s, c, 0);
    if at < s.len() {
        Some((s.take(at), s.skip(at + 1)))
    } else {
        None
    }
}

pub open spec fn is_digit(c: char) -> bool {
    '0' <= c <= '9'
}

/// The number that a run of digits writes in base ten.
pub open spec fn digits_value(s: Seq<char>) -> nat
    decreases s.len(),
{
    if s.len() == 0 {
        0
    } else {
        10 * digits_value(s.drop_last()) + (s.last() as nat - '0' as nat) as nat
    }
}

/// The digits of a number text: a leading plus sign is allowed and ignored.
pub open spec fn unsigned_digits(s: Seq<char>) -> Seq<char> {
    if s.len() > 0 && s[0] == '+' {
        s.skip(1)
    } else {
        s
    }
}

/// The number that `s` writes: at least one digit and nothing but digits behind
/// an optional plus sign, and a value that 64 bits can hold.
pub open spec fn u64_of(s: Seq<char>) -> Option<u64> {
    let d = unsigned_digits(s);
    if d.len() > 0 && (forall|i: int| 0 <= i < d.len() ==> is_digit(#[trigger] d[i]))
        && digits_value(d) <= u64::MAX {
        Some(digits_value(d) as u64)
    } else {
        None
    }
}

/// The character that writes the digit `d`.
pub open spec fn digit_char(d: int) -> char {
    ('0' as int + d) as char
}

/// `n` written in base ten, without leading zeros.
pub open spec fn decimal(n: nat) -> Seq<char>
    decreases n,
{
    if n < 10 {
        seq![digit_char(n as int)]
    } else {
        decimal(n / 10).push(digit_char((n % 10) as int))
    }
}

/// `n` spaces.
pub open spec fn spaces(n: nat) -> Seq<char> {
    Seq::new(n, |i: int| ' ')
}

/// `s` behind as many spaces as it takes to make it `width` characters long.
pub open spec fn padded(s: Seq<char>, width: nat) -> Seq<char> {
    if s.len() < width {
        spaces((width - s.len()) as nat) + s
    } else {
        s
    }
}

fn white_space(c: char) -> (r: bool)
    ensures
        r == is_space(c),
{
    ('\u{9}' <= c && c <= '\u{d}') || c == '\u{20}' || c == '\u{85}' || c == '\u{a0}' || c
        == '\u{1680}' || ('\u{2000}' <= c && c <= '\u{200a}') || c == '\u{2028}' || c == '\u{2029}'
        || c == '\u{202f}' || c == '\u{205f}' || c == '\u{3000}'
}

/// `s` without the white space at both ends.
pub fn trim<'a>(s: &'a str) -> (r: &'a str)
    ensures
        r@ == trimmed(s@),
{
    let n: usize = s.unicode_len();
    let mut start: usize = 0;
    while start < n && white_space(s.get_char(start))
        invariant
            n == s@.len(),
            start <= n,
            text_start(s@, 0) == text_start(s@, start as int),
        decreases n - start,
    {
        start = start + 1;
    }
    let mut stop: usize = n;
    while stop > 0 && white_space(s.get_char(stop - 1))
        invariant
            n == s@.len(),
            stop <= n,
            text_stop(s@, n as int) == text_stop(s@, stop as int),
        decreases stop,
    {
        stop = stop - 1;
    }
    if start < stop {
        s.substring_char(start, stop)
    } else {
        s.substring_char(0, 0)
    }
}

/// What follows the last `c`: all of `s` when it holds no `c`.
pub fn rest_after_last<'a>(s: &'a str, c: char) -> (r: &'a str)
    ensures
        r@ == after_last(s@, c),
{
    let n: usize = s.unicode_len();
    let mut at: usize = n;
    while at > 0 && s.get_char(at - 1) != c
        invariant
            n == s@.len(),
            at <= n,
            find_after(s@, c, n as int) == find_after(s@, c, at as int),
        decreases at,
    {
        at = at - 1;
    }
    s.substring_char(at, n)
}

/// What stands before and after the first `c`, or `None` when `s` holds no `c`.
pub fn split_once<'a>(s: &'a str, c: char) -> (r: Option<(&'a str, &'a str)>)
    ensures
        match (r, cut_once(s@, c)) {
            (Some(p), Some(q)) => p.0@ == q.0 && p.1@ == q.1,
            (None, None) => true,
            _ => false,
        },
{
    let n: usize = s.unicode_len();
    let mut at: usize = 0;
    while at < n && s.get_char(at) != c
        invariant
            n == s@.len(),
            at <= n,
            find_from(s@, c, 0) == find_from(s@, c, at as int),
        decreases n - at,
    {
        at = at + 1;
    }
    if at < n {
        Some((s.substring_char(0, at), s.substring_char(at + 1, n)))
    } else {
        None
    }
}

/// The digits read so far are the front of all the digits, so their value
/// cannot be the larger one.
proof fn lemma_digits_value_grows(s: Seq<char>, k: int)
    requires
        0 <= k <= s.len(),
    ensures
        digits_value(s.take(k)) <= digits_value(s),
    decreases s.len(),
{
    if k < s.len() {
        assert(s.drop_last().take(k) =~= s.take(k));
        lemma_digits_value_grows(s.drop_last(), k);
    } else {
        assert(s.take(k) =~= s);
    }
}

/// Read a number in base ten. A leading plus sign is allowed.
pub fn parse_u64(s: &str) -> (r: Option<u64>)
    ensures
        r == u64_of(s@),
{
    let n: usize = s.unicode_len();
    let first: usize = if n > 0 && s.get_char(0) == '+' { 1 } else { 0 };
    let ghost d = unsigned_digits(s@);
    assert(d == s@.skip(first as int));
    if first == n {
        return None;
    }
    let mut i: usize = first;
    let mut value: u64 = 0;
    while i < n
        invariant
            n == s@.len(),
            first <= i <= n,
            d == s@.skip(first as int),
            d == unsigned_digits(s@),
            value == digits_value(d.take(i - first)),
            forall|j: int| 0 <= j < i - first ==> is_digit(#[trigger] d[j]),
        decreases n - i,
    {
        let c: char = s.get_char(i);
        assert(d[i - first] == c);
        if c < '0' || c > '9' {
            return None;
        }
        let digit: u64 = (c as u32 - '0' as u32) as u64;
        proof {
            let longer = d.take(i - first + 1);
            assert(longer.drop_last() =~= d.take(i - first));
            assert(digits_value(longer) == 10 * value + digit);
            lemma_digits_value_grows(d, i - first + 1);
        }
        if value > 1844674407370955161 || (value == 1844674407370955161 && digit > 5) {
            return None;
        }
        value = value * 10 + digit;
        i = i + 1;
    }
    assert(d.take(n - first) =~= d);
    Some(value)
}

/// Append `n` in base ten.
pub fn push_decimal(out: &mut String, n: u64)
    ensures
        final(out)@ == old(out)@ + decimal(n as nat),
    decreases n,
{
    let ghost before = out@;
    if n >= 10 {
        push_decimal(out, n / 10);
    }
    let d: usize = (n % 10) as usize;
    let table = "0123456789";
    proof {
        reveal_strlit("0123456789");
    }
    out.append(table.substring_char(d, d + 1));
    assert(table@.subrange(d as int, d + 1) =~= seq![digit_char(d as int)]);
    assert(out@ =~= before + decimal(n as nat));
}

/// Append `s` behind as many spaces as make it `width` characters long.
pub fn push_padded(out: &mut String, s: &str, width: usize)
    ensures
        final(out)@ == old(out)@ + padded(s@, width as nat),
{
    let ghost before = out@;
    let n: usize = s.unicode_len();
    let mut i: usize = n;
    while i < width
        invariant
            n == s@.len(),
            i >= n,
            i <= width || i == n,
            out@ == before + spaces((i - n) as nat),
        decreases width - i,
    {
        out.append(" ");
        proof {
            reveal_strlit(" ");
            assert(out@ =~= before + spaces((i + 1 - n) as nat));
        }
        i = i + 1;
    }
    out.append(s);
    assert(out@ =~= before + padded(s@, width as nat));
}

/// Writing a number in base ten and reading it back gives the number.
pub proof fn law_decimal_reads_back(n: u64)
    ensures
        u64_of(decimal(n as nat)) == Some(n),
{
    lemma_decimal(n as nat);
}

proof fn lemma_decimal(n: nat)
    ensures
        decimal(n).len() > 0,
        digits_value(decimal(n)) == n,
        forall|i: int| 0 <= i < decimal(n).len() ==> is_digit(#[trigger] decimal(n)[i]),
    decreases n,
{
    reveal_with_fuel(digits_value, 2);
    if n >= 10 {
        lemma_decimal(n / 10);
        assert(decimal(n).drop_last() =~= decimal(n / 10));
    }
}

/// Text without white space at its ends is left as it is.
pub(crate) proof fn lemma_nothing_to_trim(s: Seq<char>)
    requires
        s.len() > 0,
        !is_space(s[0]),
        !is_space(s.last()),
    ensures
        trimmed(s) == s,
{
    assert(s.subrange(0, s.len() as int) =~= s);
}

/// A number in base ten starts and ends with a digit, and holds no other character.
pub(crate) proof fn lemma_decimal_text(n: nat)
    ensures
        decimal(n).len() > 0,
        forall|i: int| 0 <= i < decimal(n).len() ==> is_digit(#[trigger] decimal(n)[i]),
        trimmed(decimal(n)) == decimal(n),
{
    lemma_decimal(n);
    lemma_nothing_to_trim(decimal(n));
}

/// The last `c` is the one behind which there is no other.
pub(crate) proof fn lemma_after_last(front: Seq<char>, c: char, rest: Seq<char>)
    requires
        forall|i: int| 0 <= i < rest.len() ==> rest[i] != c,
    ensures
        after_last(front.push(c) + rest, c) == rest,
{
    let s = front.push(c) + rest;
    lemma_find_after(s, c, front.len() as int + 1, s.len() as int);
    assert(after_last(s, c) =~= rest);
}

proof fn lemma_find_after(s: Seq<char>, c: char, at: int, to: int)
    requires
        1 <= at <= to <= s.len(),
        s[at - 1] == c,
        forall|i: int| at <= i < to ==> s[i] != c,
    ensures
        find_after(s, c, to) == at,
    decreases to,
{
    if at < to {
        lemma_find_after(s, c, at, to - 1);
    }
}

proof fn lemma_text_start(s: Seq<char>, from: int, at: int)
    requires
        0 <= from <= at <= s.len(),
        forall|i: int| from <= i < at ==> is_space(#[trigger] s[i]),
        at < s.len() ==> !is_space(s[at]),
    ensures
        text_start(s, from) == at,
    decreases at - from,
{
    if from < at {
        lemma_text_start(s, from + 1, at);
    }
}

proof fn lemma_text_stop(s: Seq<char>, at: int, to: int)
    requires
        0 <= at <= to <= s.len(),
        forall|i: int| at <= i < to ==> is_space(#[trigger] s[i]),
        at > 0 ==> !is_space(s[at - 1]),
    ensures
        text_stop(s, to) == at,
    decreases to - at,
{
    if at < to {
        lemma_text_stop(s, at, to - 1);
    }
}

/// Trimming takes the white space off both ends, however much there is, and leaves what
/// stands between as it is.
pub proof fn law_trim_takes_off_the_ends(before: Seq<char>, s: Seq<char>, after: Seq<char>)
    requires
        forall|i: int| 0 <= i < before.len() ==> is_space(#[trigger] before[i]),
        forall|i: int| 0 <= i < after.len() ==> is_space(#[trigger] after[i]),
        s.len() > 0 ==> !is_space(s[0]) && !is_space(s.last()),
    ensures
        trimmed(before + s + after) == s,
{
    let all = before + s + after;
    if s.len() > 0 {
        let stop = (before.len() + s.len()) as int;
        lemma_text_start(all, 0, before.len() as int);
        assert forall|i: int| stop <= i < all.len() implies is_space(#[trigger] all[i]) by {
            assert(all[i] == after[i - stop]);
        }
        assert(all[stop - 1] == s.last());
        lemma_text_stop(all, stop, all.len() as int);
        assert(trimmed(all) =~= s);
    } else {
        assert forall|i: int| 0 <= i < all.len() implies is_space(#[trigger] all[i]) by {
            if i >= before.len() {
                assert(all[i] == after[i - before.len()]);
            }
        }
        lemma_text_start(all, 0, all.len() as int);
        lemma_text_stop(all, 0, all.len() as int);
        assert(trimmed(all) =~= s);
    }
}

/// Of the ASCII characters, white space is the space and the control characters from tab
/// to carriage return.
pub proof fn law_ascii_white_space(c: char)
    requires
        c as int <= 127,
    ensures
        is_space(c) <==> c as int == 32 || 9 <= c as int <= 13,
{
}

/// A number is read digit by digit: one more digit makes ten times the number and that
/// digit, as long as 64 bits hold it. A plus sign in front changes nothing, and there is no
/// number without a digit or with any other character.
#[verifier::rlimit(40)]
pub proof fn law_numbers_are_read_in_base_ten(s: Seq<char>, c: char)
    ensures
        u64_of(Seq::<char>::empty()) is None,
        u64_of(seq!['+']) is None,
        48 <= c as int <= 57 ==> u64_of(seq![c]) == Some((c as int - 48) as u64),
        48 <= c as int <= 57 ==> (u64_of(s) matches Some(v) ==> u64_of(s.push(c)) == (if 10 * v + (
        c as int - 48) <= 0xffff_ffff_ffff_ffff {
            Some((10 * v + (c as int - 48)) as u64)
        } else {
            None
        })),
        u64_of(s) is None && s.len() > 0 && s != seq!['+'] ==> u64_of(s.push(c)) is None,
        !(48 <= c as int <= 57) ==> u64_of(s.push(c)) is None,
        s.len() > 0 && s[0] != '+' ==> u64_of(seq!['+'] + s) == u64_of(s),
{
    reveal_with_fuel(digits_value, 2);
    let longer = s.push(c);
    assert(seq!['+'].skip(1) =~= Seq::<char>::empty());
    assert(seq![c].drop_last() =~= Seq::<char>::empty());
    assert((seq!['+'] + s).skip(1) =~= s);
    assert(longer[longer.len() - 1] == c);
    if s.len() > 0 {
        assert(longer[0] == s[0]);
        let d = unsigned_digits(s);
        let e = unsigned_digits(longer);
        assert(e =~= d.push(c));
        assert(e.drop_last() =~= d);
        assert(e.last() == c);
        assert(e[e.len() - 1] == c);
        assert(forall|i: int| 0 <= i < d.len() ==> d[i] == #[trigger] e[i]);
        if u64_of(s) is None && s != seq!['+'] {
            if d.len() == 0 {
                assert(s =~= seq!['+']);
            } else if exists|i: int| 0 <= i < d.len() && !is_digit(#[trigger] d[i]) {
                let i = choose|i: int| 0 <= i < d.len() && !is_digit(#[trigger] d[i]);
                assert(!is_digit(e[i]));
            }
        }
    } else {
        assert(longer =~= seq![c]);
        if !is_digit(c) && c != '+' {
            assert(!is_digit(unsigned_digits(longer)[0]));
        }
    }
}

/// A number is written in base ten: its last digit behind the digits of the tenth part,
/// and nothing in front of a single digit.
pub proof fn law_numbers_are_written_in_base_ten(n: nat, d: nat)
    requires
        d < 10,
    ensures
        decimal(d) == seq![(48 + d) as char],
        n > 0 ==> decimal(10 * n + d) == decimal(n).push((48 + d) as char),
{
    assert((10 * n + d) / 10 == n);
    assert((10 * n + d) % 10 == d);
}

proof fn lemma_find_from(s: Seq<char>, c: char, from: int, at: int)
    requires
        0 <= from <= at <= s.len(),
        forall|i: int| from <= i < at ==> s[i] != c,
        at < s.len() ==> s[at] == c,
    ensures
        find_from(s, c, from) == at,
    decreases at - from,
{
    if from < at {
        lemma_find_from(s, c, from + 1, at);
    }
}

/// A text is cut at the first of the characters, whatever follows it, and a text without
/// one is not cut.
pub proof fn law_cut_is_at_the_first(front: Seq<char>, c: char, rest: Seq<char>)
    requires
        forall|i: int| 0 <= i < front.len() ==> front[i] != c,
    ensures
        cut_once(front.push(c) + rest, c) == Some((front, rest)),
        cut_once(front, c) is None,
{
    let s = front.push(c) + rest;
    lemma_find_from(s, c, 0, front.len() as int);
    lemma_find_from(front, c, 0, front.len() as int);
    assert(s.take(front.len() as int) =~= front);
    assert(s.skip(front.len() as int + 1) =~= rest);
}

proof fn lemma_find_nothing(s: Seq<char>, c: char, to: int)
    requires
        0 <= to <= s.len(),
        forall|i: int| 0 <= i < to ==> s[i] != c,
    ensures
        find_after(s, c, to) == 0,
    decreases to,
{
    if to > 0 {
        lemma_find_nothing(s, c, to - 1);
    }
}

/// What follows the last of the characters is what stands behind it, whatever comes before,
/// and all of a text that holds none.
pub proof fn law_rest_is_behind_the_last(front: Seq<char>, c: char, rest: Seq<char>)
    requires
        forall|i: int| 0 <= i < rest.len() ==> rest[i] != c,
    ensures
        after_last(front.push(c) + rest, c) == rest,
        after_last(rest, c) == rest,
{
    lemma_after_last(front, c, rest);
    lemma_find_nothing(rest, c, rest.len() as int);
    assert(rest.skip(0) =~= rest);
}

/// A padded text ends with the text, has nothing but spaces in front of it, and is as long
/// as the width unless the text itself is longer.
pub proof fn law_padding_is_in_front(s: Seq<char>, width: nat)
    ensures
        padded(s, width).len() == (if s.len() < width {
            width
        } else {
            s.len()
        }),
        padded(s, width).skip(padded(s, width).len() - s.len()) == s,
        forall|i: int|
            0 <= i < padded(s, width).len() - s.len() ==> #[trigger] padded(s, width)[i] == ' ',
{
    assert(padded(s, width).skip(padded(s, width).len() - s.len()) =~= s);
}

} // verus!
