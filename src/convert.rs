use vstd::prelude::*;
use crate::strings::Str;

verus! {

pub open spec fn is_digit(b: u8) -> bool {
    48 <= b <= 57
}

/// Decimal digits of a natural number, most significant first, no leading zeros.
pub open spec fn digits_of(n: nat) -> Seq<u8>
    decreases n,
{
    if n < 10 {
        seq![(48 + n) as u8]
    } else {
        digits_of(n / 10).push((48 + n % 10) as u8)
    }
}

/// How an integer is written: decimal digits, with `-` in front of a negative one.
pub open spec fn int_repr(n: int) -> Seq<u8> {
    if n < 0 {
        seq![45u8] + digits_of((-n) as nat)
    } else {
        digits_of(n as nat)
    }
}

/// The longest run of decimal digits at the front of `s`.
pub open spec fn leading_digits(s: Seq<u8>) -> Seq<u8>
    decreases s.len(),
{
    if s.len() > 0 && is_digit(s[0]) {
        seq![s[0]] + leading_digits(s.drop_first())
    } else {
        Seq::empty()
    }
}

/// The number that a run of decimal digits denotes.
pub open spec fn digits_value(d: Seq<u8>) -> nat
    decreases d.len(),
{
    if d.len() == 0 {
        0
    } else {
        digits_value(d.drop_last()) * 10 + (d.last() - 48) as nat
    }
}

pub open spec fn clamp_i64(v: int) -> int {
    if v < i64::MIN { i64::MIN as int } else if v > i64::MAX { i64::MAX as int } else { v }
}

/// The integer a string denotes: an optional sign and the digits that follow it;
/// no digits give 0, anything after them is ignored, and a value out of range is
/// held at the nearest end of the range.
pub open spec fn parse_int(s: Seq<u8>) -> int {
    if s.len() > 0 && s[0] == 45u8 {
        clamp_i64(-(digits_value(leading_digits(s.drop_first())) as int))
    } else if s.len() > 0 && s[0] == 43u8 {
        clamp_i64(digits_value(leading_digits(s.drop_first())) as int)
    } else {
        clamp_i64(digits_value(leading_digits(s)) as int)
    }
}

fn push_digits(n: u64, out: &mut Vec<u8>)
    ensures
        final(out)@ == old(out)@ + digits_of(n as nat),
    decreases n,
{
    if n >= 10 {
        push_digits(n / 10, out);
    }
    out.push((48 + n % 10) as u8);
    proof {
        if n >= 10 {
            assert(final(out)@ =~= old(out)@ + digits_of(n as nat));
        } else {
            assert(final(out)@ =~= old(out)@ + digits_of(n as nat));
        }
    }
}

/// Decimal text of an integer.
pub fn int_to_str(i: i64) -> (r: Str)
    ensures
        r@ == int_repr(i as int),
{
    let mut out: Vec<u8> = Vec::new();
    if i < 0 {
        out.push(45u8);
        let mag: u64 = if i == i64::MIN { 9223372036854775808u64 } else { (-i) as u64 };
        push_digits(mag, &mut out);
        assert(out@ =~= int_repr(i as int));
    } else {
        push_digits(i as u64, &mut out);
        assert(out@ =~= int_repr(i as int));
    }
    Str::from_vec(out)
}

proof fn lemma_leading_digits_step(s: Seq<u8>, start: int, i: int)
    requires
        0 <= start <= i < s.len(),
        is_digit(s[i]),
        leading_digits(s.subrange(start, s.len() as int)) == s.subrange(start, i) + leading_digits(
            s.subrange(i, s.len() as int),
        ),
    ensures
        leading_digits(s.subrange(start, s.len() as int)) == s.subrange(start, i + 1) + leading_digits(
            s.subrange(i + 1, s.len() as int),
        ),
{
    let t = s.subrange(i, s.len() as int);
    assert(t.drop_first() =~= s.subrange(i + 1, s.len() as int));
    assert(t[0] == s[i]);
    assert(s.subrange(start, i + 1) =~= s.subrange(start, i) + seq![s[i]]);
    assert(s.subrange(start, i) + (seq![s[i]] + leading_digits(t.drop_first())) =~= s.subrange(
        start,
        i + 1,
    ) + leading_digits(t.drop_first()));
}

proof fn lemma_digits_value_push(d: Seq<u8>, b: u8)
    ensures
        digits_value(d.push(b)) == digits_value(d) * 10 + (b - 48) as nat,
{
    assert(d.push(b).drop_last() =~= d);
}

const LIMIT: u128 = 9223372036854775808;

/// Reads the digit run that starts at `start`, held at `LIMIT` once it passes it.
fn read_digits(s: &Str, start: usize) -> (r: u128)
    requires
        start <= s@.len(),
    ensures
        r as int == if digits_value(leading_digits(s@.subrange(start as int, s@.len() as int)))
            > LIMIT {
            LIMIT as int
        } else {
            digits_value(leading_digits(s@.subrange(start as int, s@.len() as int))) as int
        },
{
    let mut acc: u128 = 0;
    let mut i: usize = start;
    proof {
        assert(s@.subrange(start as int, start as int) =~= Seq::<u8>::empty());
        assert(s@.subrange(start as int, s@.len() as int) == s@.subrange(start as int, i as int)
            + s@.subrange(i as int, s@.len() as int));
    }
    while i < s.len() && 48 <= s.byte_at(i) && s.byte_at(i) <= 57
        invariant
            start <= i <= s@.len(),
            leading_digits(s@.subrange(start as int, s@.len() as int)) == s@.subrange(
                start as int,
                i as int,
            ) + leading_digits(s@.subrange(i as int, s@.len() as int)),
            acc as int == if digits_value(s@.subrange(start as int, i as int)) > LIMIT {
                LIMIT as int
            } else {
                digits_value(s@.subrange(start as int, i as int)) as int
            },
        decreases s@.len() - i,
    {
        let d = s.byte_at(i);
        proof {
            lemma_leading_digits_step(s@, start as int, i as int);
            assert(s@.subrange(start as int, i + 1) =~= s@.subrange(start as int, i as int).push(d));
            lemma_digits_value_push(s@.subrange(start as int, i as int), d);
        }
        if acc < LIMIT {
            acc = acc * 10 + (d - 48) as u128;
            if acc > LIMIT {
                acc = LIMIT;
            }
        }
        i = i + 1;
    }
    proof {
        let rest = s@.subrange(i as int, s@.len() as int);
        if rest.len() > 0 {
            assert(rest[0] == s@[i as int]);
        }
        assert(leading_digits(rest) =~= Seq::<u8>::empty());
        assert(s@.subrange(start as int, i as int) + Seq::<u8>::empty() =~= s@.subrange(
            start as int,
            i as int,
        ));
    }
    acc
}

/// The integer at the front of a string: optional sign, then decimal digits.
pub fn str_to_int(s: &Str) -> (r: i64)
    ensures
        r as int == parse_int(s@),
{
    if s.len() > 0 && (s.byte_at(0) == 45u8 || s.byte_at(0) == 43u8) {
        let neg = s.byte_at(0) == 45u8;
        let v = read_digits(s, 1);
        proof {
            assert(s@.subrange(1, s@.len() as int) =~= s@.drop_first());
        }
        if neg {
            if v >= LIMIT { i64::MIN } else { -(v as i64) }
        } else {
            if v >= LIMIT { i64::MAX } else { v as i64 }
        }
    } else {
        let v = read_digits(s, 0);
        proof {
            assert(s@.subrange(0, s@.len() as int) =~= s@);
        }
        if v >= LIMIT { i64::MAX } else { v as i64 }
    }
}

proof fn lemma_digits_all_digits(n: nat)
    ensures
        leading_digits(digits_of(n)) == digits_of(n),
        digits_value(digits_of(n)) == n,
        digits_of(n).len() > 0,
        is_digit(digits_of(n)[0]),
    decreases n,
{
    if n < 10 {
        let s = digits_of(n);
        assert(s == seq![(48 + n) as u8]);
        assert(s.drop_first() =~= Seq::<u8>::empty());
        assert(s.drop_last() =~= Seq::<u8>::empty());
        assert(leading_digits(Seq::<u8>::empty()) == Seq::<u8>::empty());
        assert(is_digit(s[0]));
        assert(leading_digits(s) == seq![s[0]] + leading_digits(s.drop_first()));
        assert(leading_digits(s) =~= s);
        assert(digits_value(s) == digits_value(s.drop_last()) * 10 + (s.last() - 48) as nat);
    } else {
        lemma_digits_all_digits(n / 10);
        let d = digits_of(n / 10);
        lemma_digits_value_push(d, (48 + n % 10) as u8);
        lemma_leading_digits_push(d, (48 + n % 10) as u8);
        assert((n / 10) * 10 + n % 10 == n) by (nonlinear_arith);
        assert(d.push((48 + n % 10) as u8)[0] == d[0]);
    }
}

proof fn lemma_leading_digits_push(d: Seq<u8>, b: u8)
    requires
        leading_digits(d) == d,
        is_digit(b),
    ensures
        leading_digits(d.push(b)) == d.push(b),
    decreases d.len(),
{
    if d.len() == 0 {
        assert(d.push(b).drop_first() =~= Seq::<u8>::empty());
        assert(leading_digits(d.push(b)) =~= d.push(b));
    } else {
        assert(is_digit(d[0]));
        assert(leading_digits(d) == seq![d[0]] + leading_digits(d.drop_first()));
        assert(leading_digits(d.drop_first()) =~= d.drop_first());
        lemma_leading_digits_push(d.drop_first(), b);
        assert(d.push(b).drop_first() =~= d.drop_first().push(b));
        assert(leading_digits(d.push(b)) =~= d.push(b));
    }
}

/// Reading back the decimal text of an integer gives the integer.
pub proof fn lemma_int_round_trip(n: i64)
    ensures
        parse_int(int_repr(n as int)) == n as int,
{
    if n < 0 {
        let m = (-n) as nat;
        lemma_digits_all_digits(m);
        let s = int_repr(n as int);
        assert(s.drop_first() =~= digits_of(m));
    } else {
        lemma_digits_all_digits(n as nat);
        assert(digits_of(n as nat)[0] != 45u8);
    }
}

/// Distinct integers are written differently.
pub proof fn lemma_int_repr_injective(a: i64, b: i64)
    requires
        a != b,
    ensures
        int_repr(a as int) != int_repr(b as int),
{
    lemma_int_round_trip(a);
    lemma_int_round_trip(b);
}

} // verus!
