//! Text in and out: splitting on a separator, and unsigned decimal numbers.

use vstd::prelude::*;

verus! {

/// `String::push` appends the given character to the end of the string.
pub assume_specification[ String::push ](s: &mut String, ch: char)
    ensures
        final(s)@ == old(s)@.push(ch),
;

// ---------------------------------------------------------------------------
// Splitting
// ---------------------------------------------------------------------------

/// The segments of `s` between occurrences of `sep`, in order. There is always
/// at least one segment; `n` separators give `n + 1` segments, some of which
/// may be empty.
pub open spec fn split_on(s: Seq<char>, sep: char) -> Seq<Seq<char>>
    decreases s.len(),
{
    if s.len() == 0 {
        seq![Seq::<char>::empty()]
    } else {
        let before = split_on(s.drop_last(), sep);
        if s.last() == sep {
            before.push(Seq::<char>::empty())
        } else {
            before.drop_last().push(before.last().push(s.last()))
        }
    }
}

/// The segments joined again, with `sep` between neighbours.
pub open spec fn join_with(parts: Seq<Seq<char>>, sep: char) -> Seq<char>
    decreases parts.len(),
{
    if parts.len() == 0 {
        Seq::<char>::empty()
    } else if parts.len() == 1 {
        parts[0]
    } else {
        join_with(parts.drop_last(), sep).push(sep) + parts.last()
    }
}

/// Number of occurrences of `sep` in `s`.
pub open spec fn count_of(s: Seq<char>, sep: char) -> nat
    decreases s.len(),
{
    if s.len() == 0 {
        0
    } else {
        count_of(s.drop_last(), sep) + if s.last() == sep {
            1nat
        } else {
            0nat
        }
    }
}

/// The views of the segments held in a vector of character vectors.
pub open spec fn segments(parts: Seq<Vec<char>>) -> Seq<Seq<char>> {
    Seq::new(parts.len(), |i: int| parts[i]@)
}

/// Splitting loses nothing and leaves no separator inside a segment: the
/// segments are one more than the separators, none holds the separator, and
/// joined with it they give the text back.
pub proof fn lemma_split_on(s: Seq<char>, sep: char)
    ensures
        split_on(s, sep).len() == count_of(s, sep) + 1,
        forall|i: int, j: int|
            0 <= i < split_on(s, sep).len() && 0 <= j < split_on(s, sep)[i].len()
                ==> split_on(s, sep)[i][j] != sep,
        join_with(split_on(s, sep), sep) == s,
    decreases s.len(),
{
    if s.len() == 0 {
        assert(join_with(split_on(s, sep), sep) =~= s);
    } else {
        let before = split_on(s.drop_last(), sep);
        lemma_split_on(s.drop_last(), sep);
        let parts = split_on(s, sep);
        assert(s.drop_last().push(s.last()) =~= s);
        if s.last() == sep {
            assert(parts.drop_last() =~= before);
            assert(join_with(parts, sep) =~= s);
        } else {
            let grown = before.last().push(s.last());
            assert(parts.last() == grown);
            if before.len() == 1 {
                assert(join_with(before, sep) == before[0]);
                assert(join_with(parts, sep) =~= s);
            } else {
                assert(parts.drop_last() =~= before.drop_last());
                assert(join_with(before, sep) == join_with(before.drop_last(), sep).push(sep)
                    + before.last());
                assert(join_with(parts, sep) =~= s);
            }
        }
    }
}

/// A text without the separator is its own single segment.
pub proof fn lemma_split_on_plain(s: Seq<char>, sep: char)
    requires
        forall|i: int| 0 <= i < s.len() ==> s[i] != sep,
    ensures
        split_on(s, sep) == seq![s],
    decreases s.len(),
{
    if s.len() == 0 {
        assert(s =~= Seq::<char>::empty());
    } else {
        lemma_split_on_plain(s.drop_last(), sep);
        let before = split_on(s.drop_last(), sep);
        assert(s[s.len() - 1] != sep);
        assert(before.last() == s.drop_last());
        assert(before.drop_last() =~= Seq::<Seq<char>>::empty());
        assert(s.drop_last().push(s.last()) =~= s);
        assert(split_on(s, sep) =~= seq![s]);
    }
}

/// A separator followed by a text without separators adds that text as one
/// more segment.
pub proof fn lemma_split_on_append(s: Seq<char>, sep: char, tail: Seq<char>)
    requires
        forall|i: int| 0 <= i < tail.len() ==> tail[i] != sep,
    ensures
        split_on(s.push(sep) + tail, sep) == split_on(s, sep).push(tail),
    decreases tail.len(),
{
    let whole = s.push(sep) + tail;
    if tail.len() == 0 {
        assert(whole =~= s.push(sep));
        assert(whole.drop_last() =~= s);
        assert(whole.last() == sep);
        assert(tail =~= Seq::<char>::empty());
    } else {
        lemma_split_on_append(s, sep, tail.drop_last());
        assert(whole.drop_last() =~= s.push(sep) + tail.drop_last());
        assert(whole.last() == tail.last());
        let before = split_on(whole.drop_last(), sep);
        assert(tail[tail.len() - 1] != sep);
        assert(before == split_on(s, sep).push(tail.drop_last()));
        assert(before.last() == tail.drop_last());
        assert(before.drop_last() =~= split_on(s, sep));
        assert(tail.drop_last().push(tail.last()) =~= tail);
        assert(split_on(whole, sep) =~= split_on(s, sep).push(tail));
    }
}

/// Splits `text` on `sep`, as [`split_on`] says.
pub fn split(text: &str, sep: char) -> (parts: Vec<Vec<char>>)
    ensures
        segments(parts@) == split_on(text@, sep),
{
    let mut parts: Vec<Vec<char>> = Vec::new();
    let mut current: Vec<char> = Vec::new();
    proof {
        assert(text@.take(0) =~= Seq::<char>::empty());
        assert(segments(parts@).push(current@) =~= split_on(text@.take(0), sep));
    }
    for c in it: text.chars()
        invariant
            it.seq() == text@,
            segments(parts@).push(current@) == split_on(text@.take(it.index() as int), sep),
    {
        let ghost k = it.index() as int;
        let ghost done = segments(parts@);
        let ghost open = current@;
        proof {
            assert(text@.take(k + 1).drop_last() =~= text@.take(k));
            assert(text@.take(k + 1).last() == c);
        }
        if c == sep {
            parts.push(current);
            current = Vec::new();
            proof {
                assert(segments(parts@) =~= done.push(open));
            }
        } else {
            current.push(c);
            proof {
                assert(segments(parts@) =~= done);
                assert(done.push(open).drop_last() =~= done);
            }
        }
    }
    proof {
        assert(text@.take(text@.len() as int) =~= text@);
    }
    let ghost done = segments(parts@);
    parts.push(current);
    proof {
        assert(segments(parts@) =~= done.push(current@));
    }
    parts
}

// ---------------------------------------------------------------------------
// Unsigned decimal numbers
// ---------------------------------------------------------------------------

/// An ASCII decimal digit.
pub open spec fn is_digit(c: char) -> bool {
    '0' <= c && c <= '9'
}

/// The number that the digit `c` stands for.
pub open spec fn digit_value(c: char) -> nat {
    (c as int - '0' as int) as nat
}

/// The digit that stands for `d`, a number below ten.
pub open spec fn digit_char(d: nat) -> char {
    (d + '0' as nat) as u8 as char
}

/// Every character is an ASCII decimal digit.
pub open spec fn all_digits(s: Seq<char>) -> bool {
    forall|i: int| 0 <= i < s.len() ==> is_digit(#[trigger] s[i])
}

/// The number that a run of digits denotes in base ten; leading zeros count
/// for nothing.
pub open spec fn decimal_value(s: Seq<char>) -> nat
    decreases s.len(),
{
    if s.len() == 0 {
        0
    } else {
        10 * decimal_value(s.drop_last()) + digit_value(s.last())
    }
}

/// The digits of a numeral: what follows one optional leading `+`.
pub open spec fn numeral_digits(s: Seq<char>) -> Seq<char> {
    if s.len() > 0 && s[0] == '+' {
        s.subrange(1, s.len() as int)
    } else {
        s
    }
}

/// Reads `s` as an unsigned decimal number of at most `max`: an optional
/// `+`, then one or more digits and nothing else. Anything else, and any
/// number above `max`, is no number.
pub open spec fn parse_unsigned(s: Seq<char>, max: nat) -> Option<nat> {
    let digits = numeral_digits(s);
    if digits.len() > 0 && all_digits(digits) && decimal_value(digits) <= max {
        Some(decimal_value(digits))
    } else {
        None
    }
}

/// The shortest decimal numeral of `n`.
pub open spec fn decimal_text(n: nat) -> Seq<char>
    decreases n,
{
    if n < 10 {
        seq![digit_char(n)]
    } else {
        decimal_text(n / 10).push(digit_char(n % 10))
    }
}

/// A run of digits denotes at least what any of its prefixes denotes.
pub proof fn lemma_decimal_value_prefix(s: Seq<char>, k: int)
    requires
        0 <= k <= s.len(),
    ensures
        decimal_value(s.take(k)) <= decimal_value(s),
    decreases s.len() - k,
{
    if k == s.len() {
        assert(s.take(k) =~= s);
    } else {
        lemma_decimal_value_prefix(s.drop_last(), k);
        assert(s.drop_last().take(k) =~= s.take(k));
    }
}

/// A decimal numeral is made of digits, is not empty, and denotes its number.
pub proof fn lemma_decimal_text(n: nat)
    ensures
        decimal_text(n).len() > 0,
        all_digits(decimal_text(n)),
        decimal_value(decimal_text(n)) == n,
    decreases n,
{
    if n < 10 {
        let t = decimal_text(n);
        assert(t.len() == 1);
        assert(is_digit(t[0]));
        assert(t.drop_last() =~= Seq::<char>::empty());
        assert(decimal_value(t.drop_last()) == 0);
        assert(digit_value(t.last()) == n);
    } else {
        lemma_decimal_text(n / 10);
        let head = decimal_text(n / 10);
        let t = decimal_text(n);
        assert(t == head.push(digit_char(n % 10)));
        assert(t.drop_last() =~= head);
        assert(is_digit(digit_char(n % 10)));
        assert(digit_value(t.last()) == n % 10);
        assert forall|i: int| 0 <= i < t.len() implies is_digit(#[trigger] t[i]) by {
            if i < head.len() {
                assert(t[i] == head[i]);
            }
        }
    }
}

/// Writing a number and reading it back gives the number, whenever it is
/// within the bound.
pub proof fn lemma_parse_decimal_text(n: nat, max: nat)
    requires
        n <= max,
    ensures
        parse_unsigned(decimal_text(n), max) == Some(n),
{
    lemma_decimal_text(n);
    let t = decimal_text(n);
    assert(is_digit(t[0]));
    assert(numeral_digits(t) == t);
}

/// Reads a decimal numeral of at most `max`, as [`parse_unsigned`] says.
pub fn parse_decimal(text: &Vec<char>, max: u32) -> (r: Option<u32>)
    ensures
        match r {
            Some(n) => parse_unsigned(text@, max as nat) == Some(n as nat),
            None => parse_unsigned(text@, max as nat) is None,
        },
{
    let len = text.len();
    let start: usize = if len > 0 && text[0] == '+' {
        1
    } else {
        0
    };
    let ghost digits = numeral_digits(text@);
    if start == len {
        return None;
    }
    proof {
        assert(digits =~= text@.subrange(start as int, len as int));
        assert(digits.take(0) =~= Seq::<char>::empty());
    }
    let mut value: u64 = 0;
    let mut i: usize = start;
    while i < len
        invariant
            start <= i <= len,
            len == text@.len(),
            digits == numeral_digits(text@),
            digits == text@.subrange(start as int, len as int),
            all_digits(digits.take(i - start)),
            value == decimal_value(digits.take(i - start)),
            value <= max,
        decreases len - i,
    {
        let c = text[i];
        let ghost k = i - start;
        proof {
            assert(digits.take(k + 1).drop_last() =~= digits.take(k));
            assert(digits.take(k + 1).last() == c);
            assert(digits[k] == c);
        }
        if !(c >= '0' && c <= '9') {
            proof {
                assert(!is_digit(digits[k]));
            }
            return None;
        }
        let digit: u64 = (c as u8 - '0' as u8) as u64;
        let next: u64 = value * 10 + digit;
        proof {
            assert(next == decimal_value(digits.take(k + 1)));
            assert forall|j: int| 0 <= j < digits.take(k + 1).len() implies is_digit(
                #[trigger] digits.take(k + 1)[j],
            ) by {
                if j < k {
                    assert(digits.take(k)[j] == digits.take(k + 1)[j]);
                }
            }
        }
        if next > max as u64 {
            proof {
                lemma_decimal_value_prefix(digits, k + 1);
            }
            return None;
        }
        value = next;
        i = i + 1;
    }
    proof {
        assert(digits.take(len - start) =~= digits);
    }
    Some(value as u32)
}

/// The decimal digit of a number below ten.
pub fn digit(d: u8) -> (c: char)
    requires
        d < 10,
    ensures
        c == digit_char(d as nat),
{
    (d + 48) as char
}

/// Writes `n` in decimal, as [`decimal_text`] says.
pub fn decimal(n: u64) -> (s: String)
    ensures
        s@ == decimal_text(n as nat),
    decreases n,
{
    if n < 10 {
        let mut s = String::new();
        s.push(digit(n as u8));
        proof {
            assert(s@ =~= decimal_text(n as nat));
        }
        s
    } else {
        let mut s = decimal(n / 10);
        s.push(digit((n % 10) as u8));
        s
    }
}

} // verus!
