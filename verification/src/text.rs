//! Text as sequences of characters: splitting, trimming and decimal numbers.

use vstd::prelude::*;

verus! {

/// `String::push` appends one character.
pub assume_specification[ String::push ](s: &mut String, ch: char)
    ensures
        final(s)@ == old(s)@.push(ch),
;

/// The pieces of `s` between the occurrences of `sep`. There is always at least one piece.
pub open spec fn split<T>(s: Seq<T>, sep: T) -> Seq<Seq<T>>
    decreases s.len(),
{
    if s.len() == 0 {
        seq![Seq::empty()]
    } else {
        let before = split(s.drop_last(), sep);
        if s.last() == sep {
            before.push(Seq::empty())
        } else {
            before.drop_last().push(before.last().push(s.last()))
        }
    }
}

/// `s` without `suffix` at its end, or `s` itself where it does not end that way.
pub open spec fn without_suffix(s: Seq<char>, suffix: Seq<char>) -> Seq<char> {
    if suffix.is_suffix_of(s) {
        s.take(s.len() - suffix.len())
    } else {
        s
    }
}

/// `s` without any `c` at its end.
pub open spec fn trim_end(s: Seq<char>, c: char) -> Seq<char>
    decreases s.len(),
{
    if s.len() > 0 && s.last() == c {
        trim_end(s.drop_last(), c)
    } else {
        s
    }
}

/// The decimal digit for a number below ten.
pub open spec fn digit(n: nat) -> char {
    (48 + n) as char
}

/// `n` in decimal, without leading zeros.
pub open spec fn decimal(n: nat) -> Seq<char>
    decreases n,
{
    if n < 10 {
        seq![digit(n)]
    } else {
        decimal(n / 10).push(digit(n % 10))
    }
}

/// Whether every character is one of `0` to `9`.
pub open spec fn all_digits(s: Seq<char>) -> bool {
    forall|i: int| 0 <= i < s.len() ==> '0' <= #[trigger] s[i] <= '9'
}

/// The number that a sequence of decimal digits stands for.
pub open spec fn digits_value(s: Seq<char>) -> nat
    decreases s.len(),
{
    if s.len() == 0 {
        0
    } else {
        10 * digits_value(s.drop_last()) + (s.last() as nat - 48) as nat
    }
}

/// The number that `s` denotes as an unsigned 16-bit integer: an optional plus sign, then
/// at least one decimal digit and nothing else, with a value in range.
pub open spec fn u16_value(s: Seq<char>) -> Option<u16> {
    let digits = if s.len() > 0 && s[0] == '+' {
        s.skip(1)
    } else {
        s
    };
    if digits.len() > 0 && all_digits(digits) && digits_value(digits) <= u16::MAX {
        Some(digits_value(digits) as u16)
    } else {
        None
    }
}

/// The view of each string in a list.
pub open spec fn views(list: Seq<Vec<char>>) -> Seq<Seq<char>> {
    list.map_values(|v: Vec<char>| v@)
}

pub proof fn lemma_split_nonempty<T>(s: Seq<T>, sep: T)
    ensures
        split(s, sep).len() > 0,
    decreases s.len(),
{
    if s.len() > 0 {
        lemma_split_nonempty(s.drop_last(), sep);
    }
}

/// A text without the separator is its own only piece.
pub proof fn lemma_split_single<T>(s: Seq<T>, sep: T)
    requires
        !s.contains(sep),
    ensures
        split(s, sep) == seq![s],
    decreases s.len(),
{
    if s.len() > 0 {
        assert(s.contains(s.last()));
        assert forall|x: T| s.drop_last().contains(x) implies s.contains(x) by {
            let i = choose|i: int| 0 <= i < s.drop_last().len() && s.drop_last()[i] == x;
            assert(s[i] == x);
        }
        lemma_split_single(s.drop_last(), sep);
        assert(s.drop_last().push(s.last()) == s);
        assert(split(s, sep) =~= seq![s]);
    } else {
        assert(s =~= Seq::empty());
    }
}

/// What stands behind the last separator is the last piece.
pub proof fn lemma_split_append<T>(a: Seq<T>, sep: T, b: Seq<T>)
    requires
        !b.contains(sep),
    ensures
        split(a.push(sep) + b, sep) == split(a, sep).push(b),
    decreases b.len(),
{
    let s = a.push(sep) + b;
    if b.len() == 0 {
        assert(s =~= a.push(sep));
        assert(s.drop_last() =~= a);
        assert(b =~= Seq::empty());
    } else {
        let c = b.drop_last();
        assert(b.contains(b.last()));
        assert forall|x: T| c.contains(x) implies b.contains(x) by {
            let i = choose|i: int| 0 <= i < c.len() && c[i] == x;
            assert(b[i] == x);
        }
        lemma_split_append(a, sep, c);
        assert(s.drop_last() =~= a.push(sep) + c);
        assert(c.push(b.last()) =~= b);
        assert(split(s, sep) =~= split(a, sep).push(b));
    }
}

/// The pieces on both sides of a separator are the pieces of the two sides.
pub proof fn lemma_split_concat<T>(a: Seq<T>, sep: T, b: Seq<T>)
    ensures
        split(a.push(sep) + b, sep) == split(a, sep) + split(b, sep),
    decreases b.len(),
{
    let s = a.push(sep) + b;
    if b.len() == 0 {
        assert(s =~= a.push(sep));
        assert(s.drop_last() =~= a);
        assert(split(s, sep) =~= split(a, sep) + split(b, sep));
    } else {
        let c = b.drop_last();
        lemma_split_concat(a, sep, c);
        lemma_split_nonempty(c, sep);
        assert(s.drop_last() =~= a.push(sep) + c);
        assert(split(s, sep) =~= split(a, sep) + split(b, sep));
    }
}

/// A suffix that was put at the end is what is taken off again.
pub proof fn lemma_without_suffix(s: Seq<char>, suffix: Seq<char>)
    ensures
        without_suffix(s + suffix, suffix) == s,
{
    let whole = s + suffix;
    assert(whole.subrange(s.len() as int, whole.len() as int) =~= suffix);
    assert(whole.take(s.len() as int) =~= s);
}

/// Decimal text holds digits only and denotes the number it was made from.
pub proof fn lemma_decimal_value(n: nat)
    ensures
        decimal(n).len() > 0,
        all_digits(decimal(n)),
        digits_value(decimal(n)) == n,
    decreases n,
{
    reveal_with_fuel(digits_value, 2);
    if n < 10 {
        assert(decimal(n).drop_last() =~= Seq::empty());
    } else {
        lemma_decimal_value(n / 10);
        assert(decimal(n).drop_last() =~= decimal(n / 10));
    }
}

/// Reading a 16-bit number back from its decimal text gives the same number.
pub proof fn law_u16_round_trip(n: u16)
    ensures
        u16_value(decimal(n as nat)) == Some(n),
{
    lemma_decimal_value(n as nat);
    assert(decimal(n as nat)[0] != '+');
}

/// The ten decimal digits in the order of their values.
pub open spec fn ten_digits() -> Seq<char> {
    seq!['0', '1', '2', '3', '4', '5', '6', '7', '8', '9']
}

/// Putting a digit behind a number other than zero puts it behind the number's text, and a
/// number below ten is its digit.
pub proof fn law_decimal_grows_by_digits(n: nat, d: nat)
    requires
        d < 10,
    ensures
        decimal(d) == seq![ten_digits()[d as int]],
        n > 0 ==> decimal(10 * n + d) == decimal(n).push(ten_digits()[d as int]),
{
    assert(digit(d) == ten_digits()[d as int]);
    if n > 0 {
        assert((10 * n + d) / 10 == n);
        assert((10 * n + d) % 10 == d);
    }
}

/// Different numbers have different decimal texts.
pub proof fn law_decimal_injective(m: nat, n: nat)
    requires
        decimal(m) == decimal(n),
    ensures
        m == n,
{
    lemma_decimal_value(m);
    lemma_decimal_value(n);
}

/// A digit behind other digits counts once, and those count ten times as much.
pub proof fn law_digits_value_grows(s: Seq<char>, d: int)
    requires
        0 <= d < 10,
    ensures
        digits_value(Seq::empty()) == 0,
        digits_value(s.push(ten_digits()[d])) == 10 * digits_value(s) + d,
        all_digits(s.push(ten_digits()[d])) == all_digits(s),
{
    let t = s.push(ten_digits()[d]);
    assert(t.drop_last() =~= s);
    assert(ten_digits()[d] as int == 48 + d);
    if all_digits(s) {
        assert forall|i: int| 0 <= i < t.len() implies '0' <= #[trigger] t[i] <= '9' by {
            if i < s.len() {
                assert(t[i] == s[i]);
            }
        }
    }
    if all_digits(t) {
        assert forall|i: int| 0 <= i < s.len() implies '0' <= #[trigger] s[i] <= '9' by {
            assert(t[i] == s[i]);
        }
    }
}

/// Digits with a value in range are read as that value, and a plus sign before them changes
/// nothing; digits with a larger value are not read.
pub proof fn law_u16_reads_digits(digits: Seq<char>)
    requires
        digits.len() > 0,
        forall|i: int| 0 <= i < digits.len() ==> ten_digits().contains(#[trigger] digits[i]),
    ensures
        u16_value(seq!['+'] + digits) == u16_value(digits),
        match u16_value(digits) {
            Some(n) => n == digits_value(digits),
            None => digits_value(digits) > 65535,
        },
{
    assert(all_digits(digits)) by {
        assert forall|i: int| 0 <= i < digits.len() implies '0' <= #[trigger] digits[i] <= '9' by {
            assert(ten_digits().contains(digits[i]));
        }
    }
    assert('0' <= digits[0] <= '9');
    let signed = seq!['+'] + digits;
    assert(signed[0] == '+');
    assert(signed.skip(1) =~= digits);
}

/// Nothing is read from a text without digits, nor from one that holds anything but digits
/// and a plus sign before them.
pub proof fn law_u16_refuses_other_text(s: Seq<char>, i: int)
    requires
        s.len() == 0 || s == seq!['+'] || (0 <= i < s.len() && !ten_digits().contains(s[i]) && (i > 0
            || s[i] != '+')),
    ensures
        u16_value(s) is None,
{
    if s.len() == 0 {
    } else if s == seq!['+'] {
        assert(s.skip(1).len() == 0);
    } else {
        let c = s[i];
        assert(!('0' <= c <= '9')) by {
            if '0' <= c <= '9' {
                assert(ten_digits()[c as int - 48] == c);
            }
        }
        if s[0] == '+' {
            assert(s.skip(1)[i - 1] == c);
        }
    }
}

/// All of a character at the end goes, and nothing else.
pub proof fn law_trim_end_takes_the_tail(s: Seq<char>, c: char, n: nat)
    requires
        s.len() == 0 || s.last() != c,
    ensures
        trim_end(s + Seq::new(n, |i: int| c), c) == s,
    decreases n,
{
    let whole = s + Seq::new(n, |i: int| c);
    if n == 0 {
        assert(whole =~= s);
    } else {
        law_trim_end_takes_the_tail(s, c, (n - 1) as nat);
        assert(whole.last() == c);
        assert(whole.drop_last() =~= s + Seq::new((n - 1) as nat, |i: int| c));
    }
}

/// A text that does not end in the suffix stays whole.
pub proof fn law_without_suffix_keeps_other_text(s: Seq<char>, suffix: Seq<char>)
    requires
        forall|start: Seq<char>| #[trigger] (start + suffix) != s,
    ensures
        without_suffix(s, suffix) == s,
{
    if suffix.is_suffix_of(s) {
        assert(s.take(s.len() - suffix.len()) + suffix =~= s);
    }
}

/// The pieces of a text, put together again with the separator between them.
pub open spec fn joined<T>(pieces: Seq<Seq<T>>, sep: T) -> Seq<T>
    decreases pieces.len(),
{
    if pieces.len() == 0 {
        Seq::empty()
    } else if pieces.len() == 1 {
        pieces[0]
    } else {
        joined(pieces.drop_last(), sep).push(sep) + pieces.last()
    }
}

/// The pieces of a text hold no separator, and with the separator between them they make the
/// text again.
pub proof fn law_split_is_undone_by_joining<T>(s: Seq<T>, sep: T)
    ensures
        split(s, sep).len() > 0,
        forall|i: int| 0 <= i < split(s, sep).len() ==> !(#[trigger] split(s, sep)[i]).contains(sep),
        joined(split(s, sep), sep) == s,
    decreases s.len(),
{
    let pieces = split(s, sep);
    if s.len() == 0 {
        assert(s =~= Seq::empty());
    } else {
        let rest = s.drop_last();
        let before = split(rest, sep);
        law_split_is_undone_by_joining(rest, sep);
        if s.last() == sep {
            assert(pieces.drop_last() =~= before);
            assert(s =~= rest.push(sep) + Seq::empty());
        } else {
            assert(pieces.drop_last() =~= before.drop_last());
            assert forall|i: int| 0 <= i < pieces.len() implies !(#[trigger] pieces[i]).contains(
                sep,
            ) by {
                assert(!before[i].contains(sep));
                if pieces[i].contains(sep) && i == pieces.len() - 1 {
                    let k = choose|k: int| 0 <= k < pieces[i].len() && pieces[i][k] == sep;
                    assert(before[i][k] == sep);
                }
            }
            assert(s =~= rest.push(s.last()));
            if pieces.len() > 1 {
                let start = joined(before.drop_last(), sep).push(sep);
                assert(rest == start + before.last());
                assert(start + before.last().push(s.last()) =~= rest.push(s.last()));
            }
        }
    }
}

/// The characters of a text.
pub fn chars_of(s: &str) -> (res: Vec<char>)
    ensures
        res@ == s@,
{
    let mut out: Vec<char> = Vec::new();
    for c in it: s.chars()
        invariant
            out@ == it.seq().take(it.index()),
            it.seq() == s@,
    {
        out.push(c);
    }
    out
}

/// The text made of the characters from `from` up to `to`.
pub fn text_between(chars: &Vec<char>, from: usize, to: usize) -> (res: String)
    requires
        from <= to <= chars@.len(),
    ensures
        res@ == chars@.subrange(from as int, to as int),
{
    let mut out = String::new();
    let mut i: usize = from;
    while i < to
        invariant
            from <= i <= to <= chars@.len(),
            out@ == chars@.subrange(from as int, i as int),
        decreases to - i,
    {
        out.push(chars[i]);
        i = i + 1;
        assert(chars@.subrange(from as int, i as int).drop_last() =~= chars@.subrange(
            from as int,
            i - 1,
        ));
    }
    out
}

/// Whether two texts hold the same characters.
pub fn same_text(a: &str, b: &str) -> (res: bool)
    ensures
        res == (a@ == b@),
{
    a.to_owned() == b.to_owned()
}

/// `s` without `suffix` at its end, or `s` itself where it does not end that way.
pub fn strip_suffix(s: &str, suffix: &str) -> (res: String)
    ensures
        res@ == without_suffix(s@, suffix@),
{
    let chars = chars_of(s);
    let tail = chars_of(suffix);
    if tail.len() > chars.len() {
        return s.to_owned();
    }
    let start: usize = chars.len() - tail.len();
    let mut i: usize = 0;
    while i < tail.len()
        invariant
            i <= tail.len() <= chars.len(),
            start == chars.len() - tail.len(),
            chars@ == s@,
            tail@ == suffix@,
            forall|j: int| 0 <= j < i ==> #[trigger] tail@[j] == chars@[start + j],
        decreases tail.len() - i,
    {
        if chars[start + i] != tail[i] {
            proof {
                if suffix@.is_suffix_of(s@) {
                    assert(s@.subrange(start as int, s@.len() as int)[i as int] == s@[start + i]);
                }
            }
            return s.to_owned();
        }
        i = i + 1;
    }
    assert(suffix@ =~= s@.subrange(start as int, s@.len() as int));
    text_between(&chars, 0, start)
}

/// `s` without any `c` at its end.
pub fn trim_end_matches(s: &str, c: char) -> (res: String)
    ensures
        res@ == trim_end(s@, c),
{
    let chars = chars_of(s);
    let mut n: usize = chars.len();
    assert(s@.take(n as int) =~= s@);
    while n > 0 && chars[n - 1] == c
        invariant
            n <= chars.len(),
            chars@ == s@,
            trim_end(s@, c) == trim_end(s@.take(n as int), c),
        decreases n,
    {
        assert(s@.take(n as int).drop_last() =~= s@.take(n - 1));
        n = n - 1;
    }
    assert(s@.take(n as int) =~= s@.subrange(0, n as int));
    text_between(&chars, 0, n)
}

/// The pieces of a text between the occurrences of `sep`.
pub fn split_chars(s: &str, sep: char) -> (res: Vec<Vec<char>>)
    ensures
        views(res@) == split(s@, sep),
{
    let chars = chars_of(s);
    let mut done: Vec<Vec<char>> = Vec::new();
    let mut piece: Vec<char> = Vec::new();
    let mut i: usize = 0;
    assert(s@.take(0) =~= Seq::empty());
    assert(views(done@).push(piece@) =~= split(s@.take(0), sep));
    while i < chars.len()
        invariant
            i <= chars.len(),
            chars@ == s@,
            views(done@).push(piece@) == split(s@.take(i as int), sep),
        decreases chars.len() - i,
    {
        let c = chars[i];
        let ghost before = s@.take(i as int);
        let ghost after = s@.take(i + 1);
        assert(after.drop_last() =~= before);
        assert(split(before, sep).last() == piece@);
        assert(split(before, sep).drop_last() =~= views(done@));
        if c == sep {
            done.push(piece);
            piece = Vec::new();
            assert(views(done@) =~= split(before, sep));
        } else {
            piece.push(c);
        }
        assert(views(done@).push(piece@) =~= split(after, sep));
        i = i + 1;
    }
    assert(s@.take(i as int) =~= s@);
    let ghost old_done = done@;
    let ghost last = piece@;
    done.push(piece);
    assert(views(done@) =~= views(old_done).push(last));
    done
}

/// Whether a character occurs in a text.
pub fn contains_char(s: &str, c: char) -> (res: bool)
    ensures
        res == s@.contains(c),
{
    let chars = chars_of(s);
    let mut i: usize = 0;
    while i < chars.len()
        invariant
            i <= chars.len(),
            chars@ == s@,
            forall|j: int| 0 <= j < i ==> s@[j] != c,
        decreases chars.len() - i,
    {
        if chars[i] == c {
            assert(s@[i as int] == c);
            return true;
        }
        i = i + 1;
    }
    false
}

/// Reads an unsigned 16-bit number: an optional plus sign and decimal digits.
pub fn parse_u16(s: &Vec<char>) -> (res: Option<u16>)
    ensures
        res == u16_value(s@),
{
    let start: usize = if s.len() > 0 && s[0] == '+' {
        1
    } else {
        0
    };
    let ghost digits = if s@.len() > 0 && s@[0] == '+' {
        s@.skip(1)
    } else {
        s@
    };
    assert(digits =~= s@.skip(start as int));
    if start == s.len() {
        return None;
    }
    let mut value: u32 = 0;
    let mut overflow = false;
    let mut i: usize = start;
    assert(digits.take(0) =~= Seq::empty());
    while i < s.len()
        invariant
            start <= i <= s.len(),
            digits == s@.skip(start as int),
            start == (if s@.len() > 0 && s@[0] == '+' { 1int } else { 0int }),
            all_digits(digits.take(i - start)),
            overflow ==> digits_value(digits.take(i - start)) > u16::MAX,
            !overflow ==> value == digits_value(digits.take(i - start)) && value <= u16::MAX,
        decreases s.len() - i,
    {
        let c = s[i];
        let ghost before = digits.take(i - start);
        let ghost after = digits.take(i - start + 1);
        assert(after.drop_last() =~= before);
        assert(after.last() == c);
        if !('0' <= c && c <= '9') {
            assert(digits[i - start] == c);
            assert(!all_digits(digits));
            return None;
        }
        assert(all_digits(after)) by {
            assert forall|j: int| 0 <= j < after.len() implies '0' <= #[trigger] after[j]
                <= '9' by {
                if j < before.len() {
                    assert(before[j] == after[j]);
                }
            }
        }
        if !overflow {
            value = 10 * value + (c as u32 - 48);
            if value > 65535 {
                overflow = true;
            }
        }
        i = i + 1;
    }
    assert(digits.take(i - start) =~= digits);
    if overflow {
        None
    } else {
        Some(value as u16)
    }
}

/// `n` in decimal.
pub fn decimal_text(n: u64) -> (res: String)
    ensures
        res@ == decimal(n as nat),
    decreases n,
{
    let mut out = if n < 10 {
        String::new()
    } else {
        decimal_text(n / 10)
    };
    let d: u8 = 48 + (n % 10) as u8;
    out.push(d as char);
    proof {
        if n < 10 {
            assert(out@ =~= seq![digit(n as nat)]);
        }
    }
    out
}

} // verus!
