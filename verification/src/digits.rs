//! Decimal numerals: the canonical digit string of a number, the numeric
//! value of a digit string, and the round trip between them. Homework
//! numbers are printed and parsed through these.

use vstd::prelude::*;
use vstd::arithmetic::div_mod::lemma_fundamental_div_mod;

verus! {

/// A decimal digit character.
pub open spec fn is_digit_char(c: char) -> bool {
    '0' <= c && c <= '9'
}

/// The numeric value of one digit character.
pub open spec fn digit_val(c: char) -> nat
    recommends
        is_digit_char(c),
{
    (c as int - '0' as int) as nat
}

/// The digit character for one value below ten.
pub open spec fn digit_char(d: nat) -> char
    recommends
        d < 10,
{
    if d == 0 {
        '0'
    } else if d == 1 {
        '1'
    } else if d == 2 {
        '2'
    } else if d == 3 {
        '3'
    } else if d == 4 {
        '4'
    } else if d == 5 {
        '5'
    } else if d == 6 {
        '6'
    } else if d == 7 {
        '7'
    } else if d == 8 {
        '8'
    } else {
        '9'
    }
}

pub open spec fn all_digits(s: Seq<char>) -> bool {
    forall|i: int| 0 <= i < s.len() ==> is_digit_char(#[trigger] s[i])
}

/// The value of a digit string, most significant digit first.
pub open spec fn digits_val(s: Seq<char>) -> nat
    decreases s.len(),
{
    if s.len() == 0 {
        0
    } else {
        digits_val(s.drop_last()) * 10 + digit_val(s.last())
    }
}

/// The canonical digit string of a number: no leading zero.
pub open spec fn digits_of(n: nat) -> Seq<char>
    decreases n,
{
    if n < 10 {
        seq![digit_char(n)]
    } else {
        digits_of(n / 10).push(digit_char(n % 10))
    }
}

/// A digit string that some number prints as: nonempty, digits only,
/// and no leading zero (except the string "0" itself).
pub open spec fn canonical_digits(s: Seq<char>) -> bool {
    &&& all_digits(s)
    &&& s.len() > 0
    &&& (s.len() == 1 || s[0] != '0')
}

proof fn lemma_digit_char_val(d: nat)
    requires
        d < 10,
    ensures
        is_digit_char(digit_char(d)),
        digit_val(digit_char(d)) == d,
{
}

proof fn lemma_digit_val_char(c: char)
    requires
        is_digit_char(c),
    ensures
        digit_val(c) < 10,
        digit_char(digit_val(c)) == c,
{
}

/// The digit string a number prints as is canonical, and its value is
/// that number.
pub proof fn lemma_digits_of_val(n: nat)
    ensures
        canonical_digits(digits_of(n)),
        digits_val(digits_of(n)) == n,
        n >= 1 ==> digits_of(n)[0] != '0',
    decreases n,
{
    if n < 10 {
        lemma_digit_char_val(n);
        let s = digits_of(n);
        assert(s =~= seq![digit_char(n)]);
        assert(s.drop_last() =~= Seq::<char>::empty());
        assert(digits_val(s.drop_last()) == 0);
        assert(s.last() == digit_char(n));
        assert(digits_val(s) == digit_val(digit_char(n)));
        assert(is_digit_char(s[0]));
    } else {
        lemma_digits_of_val(n / 10);
        lemma_fundamental_div_mod(n as int, 10);
        lemma_digit_char_val(n % 10);
        let rec = digits_of(n / 10);
        let whole = rec.push(digit_char(n % 10));
        assert(whole.drop_last() =~= rec);
        assert(whole.last() == digit_char(n % 10));
        assert forall|i: int| 0 <= i < whole.len() implies is_digit_char(#[trigger] whole[i]) by {
            if i < rec.len() {
                assert(whole[i] == rec[i]);
            }
        };
        assert(n / 10 >= 1);
        assert(whole[0] == rec[0]);
    }
}

/// A nonzero-leading digit string has a nonzero value.
proof fn lemma_digits_val_positive(s: Seq<char>)
    requires
        all_digits(s),
        s.len() > 0,
        s[0] != '0',
    ensures
        digits_val(s) >= 1,
    decreases s.len(),
{
    if s.len() == 1 {
        lemma_digit_val_char(s[0]);
        assert(digit_val(s[0]) >= 1);
        assert(digits_val(s) == digits_val(s.drop_last()) * 10 + digit_val(s.last()));
        assert(s.drop_last().len() == 0);
        assert(s.last() == s[0]);
    } else {
        let front = s.drop_last();
        assert(front[0] == s[0]);
        lemma_digits_val_positive(front);
        assert(digits_val(s) == digits_val(front) * 10 + digit_val(s.last()));
    }
}

/// Printing the value of a canonical digit string gives the string back.
pub proof fn lemma_val_digits_of(s: Seq<char>)
    requires
        canonical_digits(s),
    ensures
        digits_of(digits_val(s)) == s,
    decreases s.len(),
{
    let v = digits_val(s);
    if s.len() == 1 {
        lemma_digit_val_char(s[0]);
        assert(s.drop_last().len() == 0);
        assert(digits_val(s.drop_last()) == 0);
        assert(s.last() == s[0]);
        assert(v == digit_val(s[0]));
        assert(digits_of(v) =~= seq![digit_char(v)]);
        assert(digits_of(v) =~= s);
    } else {
        let front = s.drop_last();
        let last = s.last();
        assert(front[0] == s[0]);
        assert(forall|i: int| 0 <= i < front.len() ==> is_digit_char(#[trigger] front[i]));
        lemma_digits_val_positive(front);
        lemma_digit_val_char(last);
        assert(v == digits_val(front) * 10 + digit_val(last));
        assert(v >= 10);
        assert(v as int / 10 == digits_val(front) && v as int % 10 == digit_val(last)) by {
            lemma_fundamental_div_mod(v as int, 10);
            assert(v as int == 10 * (v as int / 10) + v as int % 10);
        };
        lemma_val_digits_of(front);
        assert(digits_of(v) == digits_of(v / 10).push(digit_char(v % 10)));
        assert(digits_of(v / 10) == front);
        assert(digit_char(v % 10) == last);
        assert(digits_of(v) =~= s);
    }
}

/// Append one digit character for a value below ten.
fn push_digit(s: &mut String, d: usize)
    requires
        d < 10,
    ensures
        final(s)@ == old(s)@.push(digit_char(d as nat)),
{
    proof {
        reveal_strlit("0");
        reveal_strlit("1");
        reveal_strlit("2");
        reveal_strlit("3");
        reveal_strlit("4");
        reveal_strlit("5");
        reveal_strlit("6");
        reveal_strlit("7");
        reveal_strlit("8");
        reveal_strlit("9");
    }
    if d == 0 {
        s.append("0");
    } else if d == 1 {
        s.append("1");
    } else if d == 2 {
        s.append("2");
    } else if d == 3 {
        s.append("3");
    } else if d == 4 {
        s.append("4");
    } else if d == 5 {
        s.append("5");
    } else if d == 6 {
        s.append("6");
    } else if d == 7 {
        s.append("7");
    } else if d == 8 {
        s.append("8");
    } else {
        s.append("9");
    }
    proof {
        assert(final(s)@ =~= old(s)@.push(digit_char(d as nat)));
    }
}

/// Append the decimal digits of a number to a string.
fn append_digits(s: &mut String, n: usize)
    ensures
        final(s)@ == old(s)@ + digits_of(n as nat),
    decreases n,
{
    if n < 10 {
        push_digit(s, n);
        proof {
            assert(final(s)@ =~= old(s)@ + digits_of(n as nat));
        }
    } else {
        append_digits(s, n / 10);
        push_digit(s, n % 10);
        proof {
            assert(final(s)@ =~= old(s)@ + digits_of(n as nat));
        }
    }
}

/// The decimal rendering of a number.
pub fn usize_to_string(n: usize) -> (r: String)
    ensures
        r@ == digits_of(n as nat),
{
    let mut s = String::new();
    append_digits(&mut s, n);
    proof {
        assert(s@ =~= digits_of(n as nat));
    }
    s
}

} // verus!
