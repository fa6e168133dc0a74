//! Fixed-width positional numerals, the building block of every canonical name in a store.

use crate::listing;
use vstd::prelude::*;
use vstd::string::StringExecFns;

verus! {

/// The `width` lowest digits of `value` in `base`, most significant first.
pub open spec fn digits(value: nat, base: nat, width: nat) -> Seq<nat>
    decreases width,
{
    if width == 0 {
        seq![]
    } else {
        digits(value / base, base, (width - 1) as nat).push(value % base)
    }
}

/// The number that a digit sequence denotes in `base`.
pub open spec fn number(ds: Seq<nat>, base: nat) -> nat
    decreases ds.len(),
{
    if ds.len() == 0 {
        0
    } else {
        number(ds.drop_last(), base) * base + ds.last()
    }
}

/// How many numbers `width` digits can denote in `base`.
pub open spec fn limit(base: nat, width: nat) -> nat
    decreases width,
{
    if width == 0 {
        1
    } else {
        base * limit(base, (width - 1) as nat)
    }
}

/// The ASCII code of one lowercase digit.
pub open spec fn digit_byte(d: nat) -> u8 {
    if d < 10 {
        (0x30 + d) as u8
    } else {
        (0x57 + d) as u8
    }
}

/// A digit sequence written out as ASCII bytes.
pub open spec fn numeral(ds: Seq<nat>) -> Seq<u8> {
    ds.map_values(|d: nat| digit_byte(d))
}

/// A byte sequence read as characters of the same code.
pub open spec fn ascii_text(bytes: Seq<u8>) -> Seq<char> {
    bytes.map_values(|b: u8| b as char)
}

pub open spec fn all_below(ds: Seq<nat>, base: nat) -> bool {
    forall|i: int| 0 <= i < ds.len() ==> #[trigger] ds[i] < base
}

proof fn lemma_split(value: nat, base: nat)
    requires
        base > 0,
    ensures
        value == (value / base) * base + value % base,
        value % base < base,
{
    vstd::arithmetic::div_mod::lemma_fundamental_div_mod(value as int, base as int);
    vstd::arithmetic::div_mod::lemma_mod_bound(value as int, base as int);
    assert(base * (value / base) == (value / base) * base) by (nonlinear_arith);
}

proof fn lemma_join(quotient: nat, remainder: nat, base: nat)
    requires
        remainder < base,
    ensures
        (quotient * base + remainder) / base == quotient,
        (quotient * base + remainder) % base == remainder,
{
    let joined = (quotient * base + remainder) as int;
    vstd::arithmetic::div_mod::lemma_fundamental_div_mod_converse(
        joined,
        base as int,
        quotient as int,
        remainder as int,
    );
}

pub proof fn lemma_digits_shape(value: nat, base: nat, width: nat)
    requires
        base > 0,
    ensures
        digits(value, base, width).len() == width,
        all_below(digits(value, base, width), base),
    decreases width,
{
    if width > 0 {
        lemma_digits_shape(value / base, base, (width - 1) as nat);
        lemma_split(value, base);
    }
}

/// Writing a number down and reading it back gives the number.
pub proof fn lemma_number_of_digits(value: nat, base: nat, width: nat)
    requires
        base > 0,
        value < limit(base, width),
    ensures
        number(digits(value, base, width), base) == value,
    decreases width,
{
    if width > 0 {
        let rest = (width - 1) as nat;
        let quotient = value / base;
        lemma_split(value, base);
        lemma_quotient_fits(value, base, width);
        lemma_number_of_digits(quotient, base, rest);
        assert(digits(value, base, width).drop_last() =~= digits(quotient, base, rest));
    }
}

/// Reading digits and writing them down again gives the digits.
pub proof fn lemma_digits_of_number(ds: Seq<nat>, base: nat)
    requires
        base > 0,
        all_below(ds, base),
    ensures
        digits(number(ds, base), base, ds.len()) == ds,
        number(ds, base) < limit(base, ds.len()),
    decreases ds.len(),
{
    if ds.len() > 0 {
        let front = ds.drop_last();
        assert(all_below(front, base)) by {
            assert forall|i: int| 0 <= i < front.len() implies #[trigger] front[i] < base by {
                assert(front[i] == ds[i]);
            }
        }
        lemma_digits_of_number(front, base);
        lemma_join(number(front, base), ds.last(), base);
        let quotient = number(front, base);
        let bound = limit(base, front.len());
        assert(quotient * base + ds.last() < base * bound) by (nonlinear_arith)
            requires
                quotient < bound,
                ds.last() < base,
        ;
        assert(digits(number(ds, base), base, ds.len()) =~= ds);
    }
}

/// Different digits have different ASCII codes.
pub proof fn lemma_digit_byte_injective(a: nat, b: nat)
    requires
        a < 16,
        b < 16,
        digit_byte(a) == digit_byte(b),
    ensures
        a == b,
{
}

pub proof fn lemma_numeral_injective(a: Seq<nat>, b: Seq<nat>)
    requires
        all_below(a, 16),
        all_below(b, 16),
        numeral(a) == numeral(b),
    ensures
        a == b,
{
    assert(a.len() == numeral(a).len());
    assert(b.len() == numeral(b).len());
    assert forall|i: int| 0 <= i < a.len() implies a[i] == b[i] by {
        assert(numeral(a)[i] == digit_byte(a[i]));
        assert(numeral(b)[i] == digit_byte(b[i]));
        lemma_digit_byte_injective(a[i], b[i]);
    }
    assert(a =~= b);
}

/// The order of two names of one length is decided by what comes first.
proof fn lemma_order_of_longer_names(a: Seq<u8>, b: Seq<u8>, last_a: u8, last_b: u8)
    requires
        a.len() == b.len(),
    ensures
        listing::name_before(a.push(last_a), b.push(last_b)) == (listing::name_before(a, b) || (a
            == b && last_a < last_b)),
    decreases a.len(),
{
    let long_a = a.push(last_a);
    let long_b = b.push(last_b);
    if a.len() == 0 {
        assert(a =~= b);
        assert(!listing::name_before(long_a.skip(1), long_b.skip(1)));
    } else {
        assert(long_a[0] == a[0] && long_b[0] == b[0]);
        if a[0] == b[0] {
            assert(long_a.skip(1) =~= a.skip(1).push(last_a));
            assert(long_b.skip(1) =~= b.skip(1).push(last_b));
            lemma_order_of_longer_names(a.skip(1), b.skip(1), last_a, last_b);
            if a.skip(1) == b.skip(1) {
                assert forall|i: int| 0 <= i < a.len() implies a[i] == b[i] by {
                    if i > 0 {
                        assert(a[i] == a.skip(1)[i - 1]);
                        assert(b[i] == b.skip(1)[i - 1]);
                    }
                }
                assert(a =~= b);
            }
        }
    }
}

/// Numerals of one width are ordered, as names, as the numbers are.
pub proof fn lemma_numeral_order(a: nat, b: nat, base: nat, width: nat)
    requires
        2 <= base <= 16,
        a < limit(base, width),
        b < limit(base, width),
    ensures
        listing::name_before(numeral(digits(a, base, width)), numeral(digits(b, base, width))) == (a
            < b),
    decreases width,
{
    if width > 0 {
        let rest = (width - 1) as nat;
        let (high_a, low_a) = (a / base, a % base);
        let (high_b, low_b) = (b / base, b % base);
        let front_a = digits(high_a, base, rest);
        let front_b = digits(high_b, base, rest);
        lemma_split(a, base);
        lemma_split(b, base);
        lemma_quotient_fits(a, base, width);
        lemma_quotient_fits(b, base, width);
        lemma_numeral_order(high_a, high_b, base, rest);
        assert(numeral(digits(a, base, width)) =~= numeral(front_a).push(digit_byte(low_a)));
        assert(numeral(digits(b, base, width)) =~= numeral(front_b).push(digit_byte(low_b)));
        lemma_digits_shape(high_a, base, rest);
        lemma_digits_shape(high_b, base, rest);
        lemma_order_of_longer_names(
            numeral(front_a),
            numeral(front_b),
            digit_byte(low_a),
            digit_byte(low_b),
        );
        if numeral(front_a) == numeral(front_b) {
            lemma_numeral_injective(front_a, front_b);
            lemma_number_of_digits(high_a, base, rest);
            lemma_number_of_digits(high_b, base, rest);
        }
        assert(digit_byte(low_a) < digit_byte(low_b) <==> low_a < low_b);
        assert(a < b <==> high_a < high_b || (high_a == high_b && low_a < low_b))
            by (nonlinear_arith)
            requires
                a == high_a * base + low_a,
                b == high_b * base + low_b,
                low_a < base,
                low_b < base,
        ;
    }
}

proof fn lemma_quotient_fits(value: nat, base: nat, width: nat)
    requires
        base > 0,
        width > 0,
        value < limit(base, width),
    ensures
        value / base < limit(base, (width - 1) as nat),
{
    let quotient = value / base;
    let bound = limit(base, (width - 1) as nat);
    lemma_split(value, base);
    assert(quotient < bound) by (nonlinear_arith)
        requires
            value == quotient * base + value % base,
            value < base * bound,
            base > 0,
            value % base >= 0,
    ;
}

/// A numeral is ASCII, so its bytes are its UTF-8 encoding.
pub proof fn lemma_numeral_text(ds: Seq<nat>)
    requires
        all_below(ds, 16),
    ensures
        vstd::utf8::is_ascii_chars(ascii_text(numeral(ds))),
        vstd::utf8::encode_utf8(ascii_text(numeral(ds))) == numeral(ds),
{
    let text = ascii_text(numeral(ds));
    assert forall|i: int| 0 <= i < text.len() implies (#[trigger] text[i]) as int <= 0x7f by {
        assert(ds[i] < 16);
        assert(text[i] == digit_byte(ds[i]) as char);
    }
    assert(vstd::utf8::is_ascii_chars(text));
    vstd::utf8::is_ascii_chars_encode_utf8(text);
    assert(vstd::utf8::encode_utf8(text) =~= numeral(ds));
}

fn digit_text(d: u128) -> (text: &'static str)
    requires
        d < 16,
    ensures
        text@ == seq![digit_byte(d as nat) as char],
{
    proof {
        reveal_strlit("0");
        reveal_strlit("1");
        reveal_strlit("2");
        reveal_strlit("3");
        reveal_strlit("4");
        reveal_strlit("5");
        reveal_strlit("6");
        reveal_strlit("7");
        reveal_strlit("8");
        reveal_strlit("9");
        reveal_strlit("a");
        reveal_strlit("b");
        reveal_strlit("c");
        reveal_strlit("d");
        reveal_strlit("e");
        reveal_strlit("f");
    }
    if d == 0 {
        "0"
    } else if d == 1 {
        "1"
    } else if d == 2 {
        "2"
    } else if d == 3 {
        "3"
    } else if d == 4 {
        "4"
    } else if d == 5 {
        "5"
    } else if d == 6 {
        "6"
    } else if d == 7 {
        "7"
    } else if d == 8 {
        "8"
    } else if d == 9 {
        "9"
    } else if d == 10 {
        "a"
    } else if d == 11 {
        "b"
    } else if d == 12 {
        "c"
    } else if d == 13 {
        "d"
    } else if d == 14 {
        "e"
    } else {
        "f"
    }
}

/// Appends the `width` lowest digits of `value`, most significant first.
pub fn append_digits(text: &mut String, value: u128, base: u128, width: usize)
    requires
        2 <= base <= 16,
    ensures
        final(text)@ == old(text)@ + ascii_text(
            numeral(digits(value as nat, base as nat, width as nat)),
        ),
    decreases width,
{
    let ghost ds = digits(value as nat, base as nat, width as nat);
    if width == 0 {
        assert(text@ =~= old(text)@ + ascii_text(numeral(ds)));
        return ;
    }
    append_digits(text, value / base, base, width - 1);
    let last: u128 = value % base;
    let ghost before = text@;
    text.append(digit_text(last));
    proof {
        let front = digits((value / base) as nat, base as nat, (width - 1) as nat);
        assert(ds == front.push(last as nat));
        assert(ascii_text(numeral(ds)) =~= ascii_text(numeral(front)).push(
            digit_byte(last as nat) as char,
        ));
        assert(text@ =~= old(text)@ + ascii_text(numeral(ds)));
    }
}

/// The value of one digit byte in `base`, or `None` when the byte is no lowercase digit of it.
fn digit_value(byte: u8, base: u128) -> (value: Option<u128>)
    requires
        2 <= base <= 16,
    ensures
        value matches Some(d) ==> d < base && byte == digit_byte(d as nat),
        value is None ==> forall|d: nat| d < base ==> byte != #[trigger] digit_byte(d),
{
    if byte >= 0x30 && byte <= 0x39 {
        let d: u128 = (byte - 0x30) as u128;
        if d < base {
            return Some(d);
        }
    } else if byte >= 0x61 && byte <= 0x66 {
        let d: u128 = (byte - 0x57) as u128;
        if d < base {
            return Some(d);
        }
    }
    None
}

/// Reads the bytes from `start` on as one numeral of `base`.
pub fn parse_digits(bytes: &[u8], start: usize, base: u128) -> (value: Option<u128>)
    requires
        2 <= base <= 16,
        start <= bytes@.len(),
        limit(base as nat, (bytes@.len() - start) as nat) <= u128::MAX + 1,
    ensures
        value matches Some(v) ==> v < limit(base as nat, (bytes@.len() - start) as nat)
            && bytes@.skip(start as int) == numeral(
            digits(v as nat, base as nat, (bytes@.len() - start) as nat),
        ),
        value is None ==> forall|ds: Seq<nat>|
            all_below(ds, base as nat) ==> bytes@.skip(start as int) != #[trigger] numeral(ds),
{
    let ghost tail = bytes@.skip(start as int);
    let ghost mut ds: Seq<nat> = seq![];
    let mut value: u128 = 0;
    let mut i: usize = start;
    assert(numeral(ds) =~= tail.take(0));
    while i < bytes.len()
        invariant
            2 <= base <= 16,
            start <= i <= bytes@.len(),
            tail == bytes@.skip(start as int),
            limit(base as nat, tail.len()) <= u128::MAX + 1,
            ds.len() == i - start,
            all_below(ds, base as nat),
            numeral(ds) == tail.take((i - start) as int),
            value == number(ds, base as nat),
        decreases bytes.len() - i,
    {
        let byte: u8 = bytes[i];
        match digit_value(byte, base) {
            None => {
                proof {
                    assert forall|other: Seq<nat>| all_below(other, base as nat) implies tail
                        != #[trigger] numeral(other) by {
                        if tail == numeral(other) {
                            assert(tail[i - start] == digit_byte(other[i - start]));
                        }
                    }
                }
                return None;
            },
            Some(d) => {
                proof {
                    let next = ds.push(d as nat);
                    assert(all_below(next, base as nat)) by {
                        assert forall|k: int| 0 <= k < next.len() implies #[trigger] next[k]
                            < base as nat by {
                            if k < ds.len() {
                                assert(next[k] == ds[k]);
                            }
                        }
                    }
                    assert(next.drop_last() =~= ds);
                    lemma_digits_of_number(next, base as nat);
                    lemma_limit_monotonic(base as nat, next.len(), tail.len());
                    assert(numeral(next) =~= tail.take((i + 1 - start) as int));
                    assert(value * base <= number(next, base as nat));
                    ds = next;
                }
                value = value * base + d;
            },
        }
        i = i + 1;
    }
    proof {
        lemma_digits_of_number(ds, base as nat);
        assert(tail.take(tail.len() as int) =~= tail);
    }
    Some(value)
}

proof fn lemma_limit_monotonic(base: nat, low: nat, high: nat)
    requires
        base > 0,
        low <= high,
    ensures
        limit(base, low) <= limit(base, high),
        limit(base, low) > 0,
    decreases high,
{
    if low < high {
        lemma_limit_monotonic(base, low, (high - 1) as nat);
        let inner = limit(base, (high - 1) as nat);
        assert(base * inner >= inner) by (nonlinear_arith)
            requires
                base > 0,
                inner > 0,
        ;
    } else if high > 0 {
        lemma_limit_monotonic(base, (low - 1) as nat, (high - 1) as nat);
        let inner = limit(base, (high - 1) as nat);
        assert(base * inner > 0) by (nonlinear_arith)
            requires
                base > 0,
                inner > 0,
        ;
    }
}

} // verus!
