//! What the names of generations promise: each names one number, and the next
//! one comes later in both orders.

use crate::journal::{is_generation_text, padded_text, JournalView};
use crate::publish::{all_digits, digits_value, generation_name, generation_number, last_number};
use crate::text::{decimal_text, digit_char, is_digit, text_lt};
use vstd::prelude::*;

verus! {

/// A power of ten.
spec fn ten_to(k: nat) -> nat
    decreases k,
{
    if k == 0 {
        1
    } else {
        10 * ten_to((k - 1) as nat)
    }
}

proof fn lemma_digit(d: int)
    requires
        0 <= d < 10,
    ensures
        is_digit(digit_char(d)),
        digit_char(d) as int - '0' as int == d,
{
}

proof fn lemma_decimal(n: nat)
    ensures
        all_digits(decimal_text(n)),
        digits_value(decimal_text(n)) == n,
        decimal_text(n).len() >= 1,
    decreases n,
{
    let t = decimal_text(n);
    lemma_digit((n % 10) as int);
    if n < 10 {
        assert(t.drop_last() =~= Seq::empty());
        assert(digits_value(t.drop_last()) == 0);
        lemma_digit(n as int);
        assert(t.last() == digit_char(n as int));
    } else {
        lemma_decimal(n / 10);
        assert(t.drop_last() =~= decimal_text(n / 10));
        assert(t.last() == digit_char((n % 10) as int));
        assert(n == (n / 10) * 10 + n % 10);
    }
}

proof fn lemma_decimal_width(n: nat, k: nat)
    requires
        k >= 1,
        n < ten_to(k),
    ensures
        decimal_text(n).len() <= k,
    decreases n,
{
    if n >= 10 {
        assert(k >= 2) by {
            reveal_with_fuel(ten_to, 2);
        }
        assert(n / 10 < ten_to((k - 1) as nat));
        lemma_decimal_width(n / 10, (k - 1) as nat);
    }
}

proof fn lemma_decimal_not_shorter(n: nat, k: nat)
    requires
        n >= ten_to(k),
    ensures
        decimal_text(n).len() > k,
    decreases k,
{
    lemma_decimal(n);
    if k > 0 {
        assert(n / 10 >= ten_to((k - 1) as nat));
        assert(n >= 10) by {
            lemma_ten_to_positive((k - 1) as nat);
        }
        lemma_decimal_not_shorter(n / 10, (k - 1) as nat);
    }
}

proof fn lemma_ten_to_positive(k: nat)
    ensures
        ten_to(k) >= 1,
    decreases k,
{
    if k > 0 {
        lemma_ten_to_positive((k - 1) as nat);
    }
}

proof fn lemma_leading_zeros(z: nat, digits: Seq<char>)
    requires
        all_digits(digits),
    ensures
        all_digits(Seq::new(z, |i: int| '0') + digits),
        digits_value(Seq::new(z, |i: int| '0') + digits) == digits_value(digits),
    decreases z + digits.len(),
{
    let zeros = Seq::new(z, |i: int| '0');
    let all = zeros + digits;
    if digits.len() > 0 {
        assert(all.drop_last() =~= zeros + digits.drop_last());
        assert(all_digits(digits.drop_last())) by {
            assert forall|i: int| 0 <= i < digits.drop_last().len() implies is_digit(
                #[trigger] digits.drop_last()[i],
            ) by {
                assert(digits.drop_last()[i] == digits[i]);
            }
        }
        lemma_leading_zeros(z, digits.drop_last());
        assert(all.last() == digits.last());
    } else if z > 0 {
        let fewer = Seq::new((z - 1) as nat, |i: int| '0');
        assert(all.drop_last() =~= fewer + digits);
        lemma_leading_zeros((z - 1) as nat, digits);
    }
    assert forall|i: int| 0 <= i < all.len() implies is_digit(#[trigger] all[i]) by {
        if i >= z {
            assert(all[i] == digits[i - z]);
        }
    }
}

proof fn lemma_padded(n: nat)
    requires
        n <= 999999,
    ensures
        padded_text(n, 6).len() == 6,
        all_digits(padded_text(n, 6)),
        digits_value(padded_text(n, 6)) == n,
{
    let digits = decimal_text(n);
    lemma_decimal(n);
    assert(ten_to(6) == 1000000) by {
        reveal_with_fuel(ten_to, 7);
    }
    lemma_decimal_width(n, 6);
    lemma_leading_zeros((6 - digits.len()) as nat, digits);
}

proof fn lemma_value_bound(s: Seq<char>)
    requires
        all_digits(s),
    ensures
        digits_value(s) < ten_to(s.len()),
    decreases s.len(),
{
    if s.len() > 0 {
        lemma_digits_prefix(s);
        lemma_value_bound(s.drop_last());
    }
}

proof fn lemma_digits_prefix(s: Seq<char>)
    requires
        all_digits(s),
        s.len() > 0,
    ensures
        all_digits(s.drop_last()),
        is_digit(s.last()),
        0 <= s.last() as int - '0' as int <= 9,
{
    assert forall|i: int| 0 <= i < s.drop_last().len() implies is_digit(
        #[trigger] s.drop_last()[i],
    ) by {
        assert(s.drop_last()[i] == s[i]);
    }
    assert(s.last() == s[s.len() - 1]);
}

/// Digits of one length spell one number in one way.
proof fn lemma_value_injective(a: Seq<char>, b: Seq<char>)
    requires
        a.len() == b.len(),
        all_digits(a),
        all_digits(b),
        digits_value(a) == digits_value(b),
    ensures
        a == b,
    decreases a.len(),
{
    if a.len() > 0 {
        lemma_digits_prefix(a);
        lemma_digits_prefix(b);
        lemma_value_injective(a.drop_last(), b.drop_last());
        assert(a =~= a.drop_last().push(a.last()));
        assert(b =~= b.drop_last().push(b.last()));
    } else {
        assert(a =~= b);
    }
}

proof fn lemma_order_extends(a: Seq<char>, b: Seq<char>, c: char, d: char)
    requires
        a.len() == b.len(),
        text_lt(a, b) || (a == b && c < d),
    ensures
        text_lt(a.push(c), b.push(d)),
    decreases a.len(),
{
    let x = a.push(c);
    let y = b.push(d);
    if a.len() > 0 {
        assert(x[0] == a[0] && y[0] == b[0]);
        if a[0] == b[0] {
            assert(x.drop_first() =~= a.drop_first().push(c));
            assert(y.drop_first() =~= b.drop_first().push(d));
            lemma_order_extends(a.drop_first(), b.drop_first(), c, d);
        }
    } else {
        assert(x[0] == c && y[0] == d);
        assert(a =~= b);
    }
}

/// Digits of one length are ordered as the numbers that they spell.
proof fn lemma_value_order(a: Seq<char>, b: Seq<char>)
    requires
        a.len() == b.len(),
        all_digits(a),
        all_digits(b),
        digits_value(a) < digits_value(b),
    ensures
        text_lt(a, b),
    decreases a.len(),
{
    lemma_digits_prefix(a);
    lemma_digits_prefix(b);
    let x = a.drop_last();
    let y = b.drop_last();
    if digits_value(x) < digits_value(y) {
        lemma_value_order(x, y);
    } else {
        assert(digits_value(x) == digits_value(y));
        lemma_value_injective(x, y);
        assert(a.last() < b.last());
    }
    lemma_order_extends(x, y, a.last(), b.last());
    assert(a =~= x.push(a.last()));
    assert(b =~= y.push(b.last()));
}

proof fn lemma_prefix_order(p: Seq<char>, a: Seq<char>, b: Seq<char>)
    requires
        text_lt(a, b),
    ensures
        text_lt(p + a, p + b),
    decreases p.len(),
{
    if p.len() == 0 {
        assert(p + a =~= a);
        assert(p + b =~= b);
    } else {
        lemma_prefix_order(p.drop_first(), a, b);
        assert((p + a).drop_first() =~= p.drop_first() + a);
        assert((p + b).drop_first() =~= p.drop_first() + b);
        assert((p + a)[0] == p[0] && (p + b)[0] == p[0]);
    }
}

// ---------------------------------------------------------------------------
// Laws
// ---------------------------------------------------------------------------
/// The name of a number of up to six digits is the name of a generation, and
/// that generation has this number.
pub proof fn law_generation_name_is_valid(number: nat)
    requires
        number <= 999999,
    ensures
        is_generation_text(generation_name(number)),
        generation_number(generation_name(number)) == number,
{
    let digits = padded_text(number, 6);
    let name = generation_name(number);
    lemma_padded(number);
    reveal_strlit("g-");
    assert(name.skip(2) =~= digits);
    assert(name.take(2) =~= "g-"@);
    assert forall|i: int| 2 <= i < 8 implies is_digit(#[trigger] name[i]) by {
        assert(name[i] == digits[i - 2]);
    }
    assert(digits[0] == name[2]);
    assert(is_digit(digits[0]));
}

/// The name of a number of more than six digits is no generation's: the
/// generations run out.
pub proof fn law_generations_run_out(number: nat)
    requires
        number > 999999,
    ensures
        !is_generation_text(generation_name(number)),
{
    assert(ten_to(6) == 1000000) by {
        reveal_with_fuel(ten_to, 7);
    }
    lemma_decimal_not_shorter(number, 6);
    reveal_strlit("g-");
}

/// A generation is named by its number, which has up to six digits.
pub proof fn law_generation_is_named_by_its_number(generation: Seq<char>)
    requires
        is_generation_text(generation),
    ensures
        generation_number(generation) <= 999999,
        generation_name(generation_number(generation) as nat) == generation,
{
    let digits = generation.skip(2);
    reveal_strlit("g-");
    assert(generation.take(2) =~= "g-"@);
    assert forall|i: int| 0 <= i < digits.len() implies is_digit(#[trigger] digits[i]) by {
        assert(digits[i] == generation[i + 2]);
    }
    lemma_value_bound(digits);
    assert(ten_to(6) == 1000000) by {
        reveal_with_fuel(ten_to, 7);
    }
    assert(is_digit(digits[0]));
    let number = digits_value(digits);
    lemma_padded(number);
    lemma_value_injective(padded_text(number, 6), digits);
    assert(generation =~= "g-"@ + digits);
}

/// Generations are ordered by name as they are by number.
pub proof fn law_generations_are_ordered(a: nat, b: nat)
    requires
        a < b <= 999999,
    ensures
        text_lt(generation_name(a), generation_name(b)),
{
    lemma_padded(a);
    lemma_padded(b);
    lemma_value_order(padded_text(a, 6), padded_text(b, 6));
    lemma_prefix_order("g-"@, padded_text(a, 6), padded_text(b, 6));
}

/// The next generation after a record of any but the last name is a
/// generation, has the next number and comes later by name.
pub proof fn law_next_generation_advances(record: JournalView)
    requires
        is_generation_text(record.generation),
        generation_number(record.generation) < 999999,
    ensures
        ({
            let next = generation_name((last_number(Some(record)) + 1) as nat);
            &&& is_generation_text(next)
            &&& generation_number(next) == generation_number(record.generation) + 1
            &&& text_lt(record.generation, next)
            &&& next != record.generation
        }),
{
    let number = generation_number(record.generation) as nat;
    law_generation_is_named_by_its_number(record.generation);
    law_generation_name_is_valid(number + 1);
    law_generations_are_ordered(number, number + 1);
}

/// The first generation is number one.
pub proof fn law_first_generation()
    ensures
        is_generation_text(generation_name((last_number(None) + 1) as nat)),
        generation_number(generation_name((last_number(None) + 1) as nat)) == 1,
{
    law_generation_name_is_valid(1);
}

} // verus!
