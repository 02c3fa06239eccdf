//! How texts are taken apart and put together.

use crate::text::{
    after_last, before_last, decimal_text, digit_char, forward_slashed, has_prefix, is_white_space,
    text_lt, without_trailing_slashes,
};
use vstd::prelude::*;

verus! {

/// A text is split at the last of a character: what comes before it, the
/// character, and what follows, in which it does not occur. A text without the
/// character is not split.
pub proof fn law_split_at_last(s: Seq<char>, c: char)
    ensures
        forall|i: int| 0 <= i < after_last(s, c).len() ==> #[trigger] after_last(s, c)[i] != c,
        match before_last(s, c) {
            Some(start) => s == start + seq![c] + after_last(s, c),
            None => s == after_last(s, c) && !s.contains(c),
        },
    decreases s.len(),
{
    if s.len() > 0 {
        let rest = s.drop_last();
        law_split_at_last(rest, c);
        if s.last() == c {
            assert(s =~= rest + seq![c] + Seq::<char>::empty());
        } else {
            let tail = after_last(rest, c);
            match before_last(rest, c) {
                Some(start) => {
                    assert(rest == start + seq![c] + tail);
                    assert(s =~= rest.push(s.last()));
                    assert((start + seq![c] + tail).push(s.last()) =~= start + seq![c] + tail.push(
                        s.last(),
                    ));
                },
                None => {
                    assert(s =~= tail.push(s.last()));
                    assert(!s.contains(c)) by {
                        if s.contains(c) {
                            let i = choose|i: int| 0 <= i < s.len() && s[i] == c;
                            assert(rest[i] == c);
                        }
                    }
                },
            }
        }
    }
}

/// Trailing slashes are taken off, all of them and nothing else.
pub proof fn law_trailing_slashes_are_taken_off(s: Seq<char>)
    ensures
        ({
            let r = without_trailing_slashes(s);
            &&& r.len() <= s.len()
            &&& s.take(r.len() as int) == r
            &&& forall|i: int| r.len() <= i < s.len() ==> #[trigger] s[i] == '/'
            &&& r.len() > 0 ==> r.last() != '/'
        }),
    decreases s.len(),
{
    if s.len() > 0 && s.last() == '/' {
        law_trailing_slashes_are_taken_off(s.drop_last());
        let r = without_trailing_slashes(s);
        assert(s.take(r.len() as int) =~= s.drop_last().take(r.len() as int));
        assert forall|i: int| r.len() <= i < s.len() implies #[trigger] s[i] == '/' by {
            if i < s.len() - 1 {
                assert(s.drop_last()[i] == s[i]);
            }
        }
    } else {
        assert(s.take(s.len() as int) =~= s);
    }
}

/// Backslashes become slashes, and every other character stays.
pub proof fn law_backslashes_become_slashes(s: Seq<char>)
    ensures
        forward_slashed(s).len() == s.len(),
        forall|i: int|
            0 <= i < s.len() ==> #[trigger] forward_slashed(s)[i] == if s[i] == '\\' {
                '/'
            } else {
                s[i]
            },
{
}

/// A text starts with another exactly where it is that one and something more.
pub proof fn law_prefix_is_the_start(s: Seq<char>, prefix: Seq<char>)
    ensures
        has_prefix(s, prefix) <==> exists|rest: Seq<char>| s == #[trigger] (prefix + rest),
{
    if has_prefix(s, prefix) {
        assert(s =~= prefix + s.skip(prefix.len() as int));
    }
    if exists|rest: Seq<char>| s == #[trigger] (prefix + rest) {
        let rest = choose|rest: Seq<char>| s == #[trigger] (prefix + rest);
        assert(s.subrange(0, prefix.len() as int) =~= prefix);
    }
}

/// Blank are the tabulator, the line feeds and the space of ASCII, the next-line
/// character and the spaces and separators of Unicode, and no other character.
pub proof fn law_blank_characters(c: char)
    ensures
        is_white_space(c) <==> {
            let v = c as int;
            if v < 0x80 {
                v == 0x20 || 9 <= v < 14
            } else if v < 0x2000 {
                v == 0x85 || v == 0xa0 || v == 0x1680
            } else {
                v < 0x200b || v / 2 == 0x1014 || v == 0x202f || v == 0x205f || v == 0x3000
            }
        },
{
}

/// A text comes before another exactly where both start alike and it ends there, or
/// has the smaller character there.
pub proof fn law_texts_are_ordered(a: Seq<char>, b: Seq<char>)
    ensures
        text_lt(a, b) <==> exists|k: int|
            0 <= k <= a.len() && k < b.len() && #[trigger] a.take(k) == b.take(k) && (k == a.len()
                || a[k] < b[k]),
    decreases a.len(),
{
    if text_lt(a, b) {
        if a.len() == 0 || a[0] != b[0] {
            assert(a.take(0) =~= b.take(0));
        } else {
            let (x, y) = (a.drop_first(), b.drop_first());
            law_texts_are_ordered(x, y);
            let k = choose|k: int|
                0 <= k <= x.len() && k < y.len() && #[trigger] x.take(k) == y.take(k) && (k
                    == x.len() || x[k] < y[k]);
            assert(a.take(k + 1) =~= seq![a[0]] + x.take(k));
            assert(b.take(k + 1) =~= seq![b[0]] + y.take(k));
        }
    }
    if exists|k: int|
        0 <= k <= a.len() && k < b.len() && #[trigger] a.take(k) == b.take(k) && (k == a.len()
            || a[k] < b[k]) {
        let k = choose|k: int|
            0 <= k <= a.len() && k < b.len() && #[trigger] a.take(k) == b.take(k) && (k == a.len()
                || a[k] < b[k]);
        if k > 0 {
            assert(a[0] == a.take(k)[0] && b[0] == b.take(k)[0]);
            let (x, y) = (a.drop_first(), b.drop_first());
            assert(x.take(k - 1) =~= a.take(k).drop_first());
            assert(y.take(k - 1) =~= b.take(k).drop_first());
            law_texts_are_ordered(x, y);
        }
    }
}

/// The number that digits spell, ten times the number of those before the last and
/// the last one.
pub open spec fn spelled(digits: Seq<char>) -> int
    decreases digits.len(),
{
    if digits.len() == 0 {
        0
    } else {
        10 * spelled(digits.drop_last()) + (digits.last() as int - '0' as int)
    }
}

/// A number is written in decimal digits that spell it, without a leading zero.
pub proof fn law_decimal_spells_the_number(n: nat)
    ensures
        decimal_text(n).len() > 0,
        spelled(decimal_text(n)) == n,
        decimal_text(n)[0] == '0' <==> n == 0,
        forall|i: int|
            0 <= i < decimal_text(n).len() ==> '0' <= #[trigger] decimal_text(n)[i]
                && decimal_text(n)[i] <= '9',
    decreases n,
{
    let t = decimal_text(n);
    if n < 10 {
        assert(t.drop_last() =~= Seq::empty());
        assert(spelled(t.drop_last()) == 0);
        assert(t.last() == digit_char(n as int));
    } else {
        law_decimal_spells_the_number(n / 10);
        assert(t.drop_last() =~= decimal_text(n / 10));
        assert(t.last() == digit_char((n % 10) as int));
        assert(t[0] == decimal_text(n / 10)[0]);
    }
}

} // verus!
