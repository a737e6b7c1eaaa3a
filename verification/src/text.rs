//! Characters, std strings, and decimal numerals.
//!
//! The interpreter works on `Vec<char>` internally; the two trusted wrappers
//! here exchange those characters with `String` at the crate's boundary. The
//! rest of the module renders and reads decimal integers, verified against
//! the spec-level numerals `dec_digits` and `dec_value`.
use vstd::prelude::*;

verus! {

/// Relies on str::chars: yields exactly the characters of the string, in order.
#[verifier::external_body]
pub(crate) fn chars_of(s: &str) -> (v: Vec<char>)
    ensures
        v@ == s@,
{
    s.chars().collect()
}

/// Relies on String: FromIterator<char> (via collect): builds the string
/// with exactly the given characters, in order.
#[verifier::external_body]
pub(crate) fn string_of_chars(v: &Vec<char>) -> (s: String)
    ensures
        s@ == v@,
{
    v.iter().collect()
}

/// Whether the character is a decimal digit.
pub open spec fn is_digit(c: char) -> bool {
    '0' <= c && c <= '9'
}

/// The value of a decimal digit.
pub open spec fn digit_val(c: char) -> int {
    c as int - 48
}

/// The digit with the given value.
pub open spec fn digit_char(d: int) -> char {
    if d == 0 {
        '0'
    } else if d == 1 {
        '1'
    } else if d == 2 {
        '2'
    } else if d == 3 {
        '3'
    } else if d == 4 {
        '4'
    } else if d == 5 {
        '5'
    } else if d == 6 {
        '6'
    } else if d == 7 {
        '7'
    } else if d == 8 {
        '8'
    } else {
        '9'
    }
}

/// The decimal digits of a nonnegative value, most significant first.
pub open spec fn dec_digits(v: int) -> Seq<char>
    decreases v,
{
    if v < 10 {
        seq![digit_char(v)]
    } else {
        dec_digits(v / 10).push(digit_char(v % 10))
    }
}

/// The decimal rendering of an integer: a minus sign for a negative value,
/// then the digits of its magnitude.
pub open spec fn int_text(n: int) -> Seq<char> {
    if n < 0 {
        seq!['-'] + dec_digits(-n)
    } else {
        dec_digits(n)
    }
}

/// Whether every character of the sequence is a decimal digit.
pub open spec fn all_digits(t: Seq<char>) -> bool {
    forall|i: int| 0 <= i < t.len() ==> is_digit(t[i])
}

/// The value of a sequence of decimal digits, most significant first.
pub open spec fn dec_value(t: Seq<char>) -> int
    decreases t.len(),
{
    if t.len() == 0 {
        0
    } else {
        dec_value(t.drop_last()) * 10 + digit_val(t.last())
    }
}

/// The power of ten with the given exponent.
pub open spec fn pow10(k: nat) -> int
    decreases k,
{
    if k == 0 {
        1
    } else {
        10 * pow10((k - 1) as nat)
    }
}

pub proof fn lemma_pow10_pos(k: nat)
    ensures
        pow10(k) >= 1,
    decreases k,
{
    if k > 0 {
        lemma_pow10_pos((k - 1) as nat);
    }
}

pub proof fn lemma_pow10_monotone(a: nat, b: nat)
    requires
        a <= b,
    ensures
        pow10(a) <= pow10(b),
    decreases b,
{
    if a < b {
        lemma_pow10_monotone(a, (b - 1) as nat);
        lemma_pow10_pos((b - 1) as nat);
    }
}

pub proof fn lemma_pow10_19()
    ensures
        pow10(19) == 10_000_000_000_000_000_000,
{
    reveal_with_fuel(pow10, 20);
}

/// The value of a digit string is below ten to its length.
pub proof fn lemma_dec_value_upper(t: Seq<char>)
    requires
        all_digits(t),
    ensures
        0 <= dec_value(t) < pow10(t.len()),
    decreases t.len(),
{
    if t.len() > 0 {
        assert(all_digits(t.drop_last()));
        lemma_dec_value_upper(t.drop_last());
        assert(is_digit(t.last()));
        assert('0' as int == 48 && '9' as int == 57);
    }
}

/// A digit string without a leading zero reaches ten to one less than its
/// length.
pub proof fn lemma_dec_value_lower(t: Seq<char>)
    requires
        all_digits(t),
        t.len() >= 1,
        t[0] != '0',
    ensures
        dec_value(t) >= pow10((t.len() - 1) as nat),
    decreases t.len(),
{
    assert('0' as int == 48 && '9' as int == 57);
    if t.len() == 1 {
        assert(dec_value(t) == dec_value(t.drop_last()) * 10 + digit_val(t.last()));
        assert(t.drop_last().len() == 0);
    } else {
        assert(t.drop_last()[0] == t[0]);
        assert(all_digits(t.drop_last()));
        lemma_dec_value_lower(t.drop_last());
    }
}

pub proof fn lemma_dec_digits_shape(v: int)
    requires
        v >= 0,
    ensures
        dec_digits(v).len() >= 1,
        all_digits(dec_digits(v)),
        v >= 1 ==> dec_digits(v)[0] != '0',
        v < 10 ==> dec_digits(v).len() == 1,
    decreases v,
{
    if v >= 10 {
        lemma_dec_digits_shape(v / 10);
    }
}

pub proof fn lemma_digit_val_of_char(d: int)
    requires
        0 <= d < 10,
    ensures
        digit_val(digit_char(d)) == d,
{
    assert('0' as int == 48 && '1' as int == 49 && '2' as int == 50 && '3' as int == 51 && '4'
        as int == 52 && '5' as int == 53 && '6' as int == 54 && '7' as int == 55 && '8' as int
        == 56 && '9' as int == 57);
}

pub proof fn lemma_dec_value_of_digits(v: int)
    requires
        v >= 0,
    ensures
        dec_value(dec_digits(v)) == v,
    decreases v,
{
    if v < 10 {
        lemma_digit_val_of_char(v);
        let s = seq![digit_char(v)];
        assert(s.drop_last() =~= Seq::<char>::empty());
        assert(dec_value(Seq::<char>::empty()) == 0);
        assert(dec_value(s) == digit_val(digit_char(v)));
    } else {
        lemma_dec_value_of_digits(v / 10);
        lemma_digit_val_of_char(v % 10);
        let s = dec_digits(v);
        assert(s == dec_digits(v / 10).push(digit_char(v % 10)));
        assert(s.drop_last() =~= dec_digits(v / 10));
        assert(s.last() == digit_char(v % 10));
        assert(dec_value(s) == dec_value(dec_digits(v / 10)) * 10 + digit_val(digit_char(v % 10)));
        assert((v / 10) * 10 + v % 10 == v) by (nonlinear_arith);
    }
}

fn digit_to_char(d: u64) -> (c: char)
    requires
        d < 10,
    ensures
        c == digit_char(d as int),
{
    if d == 0 {
        '0'
    } else if d == 1 {
        '1'
    } else if d == 2 {
        '2'
    } else if d == 3 {
        '3'
    } else if d == 4 {
        '4'
    } else if d == 5 {
        '5'
    } else if d == 6 {
        '6'
    } else if d == 7 {
        '7'
    } else if d == 8 {
        '8'
    } else {
        '9'
    }
}

/// Appends the decimal digits of `v` to `out`.
pub(crate) fn push_digits(v: u64, out: &mut Vec<char>)
    ensures
        final(out)@ == old(out)@ + dec_digits(v as int),
    decreases v,
{
    if v < 10 {
        out.push(digit_to_char(v));
        proof {
            assert(out@ =~= old(out)@ + dec_digits(v as int));
        }
    } else {
        push_digits(v / 10, out);
        out.push(digit_to_char(v % 10));
        proof {
            assert(out@ =~= old(out)@ + dec_digits(v as int));
        }
    }
}

/// Appends the decimal rendering of `n` to `out`.
pub(crate) fn push_int(n: i64, out: &mut Vec<char>)
    ensures
        final(out)@ == old(out)@ + int_text(n as int),
{
    if n < 0 {
        out.push('-');
        let wide: i128 = n as i128;
        let magnitude: u64 = (-wide) as u64;
        push_digits(magnitude, out);
        proof {
            assert(out@ =~= old(out)@ + int_text(n as int));
        }
    } else {
        push_digits(n as u64, out);
    }
}

/// Strict lexicographic order on character sequences.
pub open spec fn lex_lt(a: Seq<char>, b: Seq<char>) -> bool
    decreases a.len(),
{
    if b.len() == 0 {
        false
    } else if a.len() == 0 {
        true
    } else if a[0] == b[0] {
        lex_lt(a.subrange(1, a.len() as int), b.subrange(1, b.len() as int))
    } else {
        a[0] < b[0]
    }
}

/// Strict lexicographic comparison of two strings, character by character.
pub(crate) fn str_lt(a: &str, b: &str) -> (r: bool)
    ensures
        r == lex_lt(a@, b@),
{
    let va = chars_of(a);
    let vb = chars_of(b);
    let mut i: usize = 0;
    proof {
        assert(a@.subrange(0, a@.len() as int) =~= a@);
        assert(b@.subrange(0, b@.len() as int) =~= b@);
    }
    loop
        invariant
            i <= va.len(),
            i <= vb.len(),
            va@ == a@,
            vb@ == b@,
            lex_lt(a@, b@) == lex_lt(
                a@.subrange(i as int, a@.len() as int),
                b@.subrange(i as int, b@.len() as int),
            ),
        decreases va.len() - i,
    {
        if i >= vb.len() {
            proof {
                assert(b@.subrange(i as int, b@.len() as int).len() == 0);
            }
            return false;
        }
        if i >= va.len() {
            proof {
                assert(a@.subrange(i as int, a@.len() as int).len() == 0);
                assert(b@.subrange(i as int, b@.len() as int).len() > 0);
            }
            return true;
        }
        let ca = va[i];
        let cb = vb[i];
        if ca != cb {
            proof {
                assert(a@.subrange(i as int, a@.len() as int)[0] == a@[i as int]);
                assert(b@.subrange(i as int, b@.len() as int)[0] == b@[i as int]);
            }
            return ca < cb;
        }
        proof {
            let sa = a@.subrange(i as int, a@.len() as int);
            let sb = b@.subrange(i as int, b@.len() as int);
            assert(sa[0] == a@[i as int] && sb[0] == b@[i as int]);
            assert(sa.subrange(1, sa.len() as int) =~= a@.subrange(
                i + 1 as int,
                a@.len() as int,
            ));
            assert(sb.subrange(1, sb.len() as int) =~= b@.subrange(
                i + 1 as int,
                b@.len() as int,
            ));
        }
        i = i + 1;
    }
}

/// Whether two strings hold the same characters.
pub(crate) fn str_eq(a: &str, b: &str) -> (r: bool)
    ensures
        r == (a@ == b@),
{
    let va = chars_of(a);
    let vb = chars_of(b);
    if va.len() != vb.len() {
        proof {
            assert(a@ != b@);
        }
        return false;
    }
    let mut i: usize = 0;
    while i < va.len()
        invariant
            i <= va.len(),
            va.len() == vb.len(),
            va@ == a@,
            vb@ == b@,
            forall|j: int| 0 <= j < i ==> a@[j] == b@[j],
        decreases va.len() - i,
    {
        if va[i] != vb[i] {
            return false;
        }
        i = i + 1;
    }
    proof {
        assert(a@ =~= b@);
    }
    true
}

} // verus!
