//! The text that `fmt_ns` gives determines the duration: no two durations share
//! a text.

use vstd::prelude::*;
use crate::decimal::decimal;
use crate::decimal::digit_char;
use crate::decimal::padded;
use crate::decimal::zeros;
use crate::time_profiler::component_text;
use crate::time_profiler::fmt_ns_text;
use crate::time_profiler::hours_of;
use crate::time_profiler::lemma_components_account_for_duration;
use crate::time_profiler::micros_of;
use crate::time_profiler::millis_of;
use crate::time_profiler::minutes_of;
use crate::time_profiler::nanos_of;
use crate::time_profiler::seconds_of;

verus! {

/// Whether `c` is a decimal digit.
pub open spec fn is_digit(c: char) -> bool {
    c == '0' || c == '1' || c == '2' || c == '3' || c == '4' || c == '5' || c == '6' || c == '7'
        || c == '8' || c == '9'
}

/// The value of a decimal digit.
pub open spec fn digit_value(c: char) -> nat {
    if c == '1' {
        1
    } else if c == '2' {
        2
    } else if c == '3' {
        3
    } else if c == '4' {
        4
    } else if c == '5' {
        5
    } else if c == '6' {
        6
    } else if c == '7' {
        7
    } else if c == '8' {
        8
    } else if c == '9' {
        9
    } else {
        0
    }
}

/// The number that a string of digits stands for.
pub open spec fn digits_value(s: Seq<char>) -> nat
    decreases s.len(),
{
    if s.len() == 0 {
        0
    } else {
        digits_value(s.drop_last()) * 10 + digit_value(s.last())
    }
}

/// The unit of component `k` of a duration text.
pub open spec fn unit_of(k: nat) -> Seq<char> {
    if k == 0 {
        seq!['h']
    } else if k == 1 {
        seq!['m']
    } else if k == 2 {
        seq!['s']
    } else if k == 3 {
        seq!['m', 's']
    } else if k == 4 {
        seq!['m', 'k', 's']
    } else {
        seq!['n', 's']
    }
}

/// The padding width of component `k` of a duration text.
pub open spec fn width_of(k: nat) -> nat {
    if k < 3 {
        2
    } else {
        3
    }
}

/// The text of components `k ..` of `vals`.
pub open spec fn components_text(vals: Seq<nat>, k: nat) -> Seq<char>
    decreases 6 - k,
{
    if k >= 6 {
        Seq::empty()
    } else {
        component_text(vals[k as int], unit_of(k), width_of(k)) + components_text(vals, k + 1)
    }
}

/// The six components of `ts` nanoseconds, largest unit first.
pub open spec fn components_of(ts: nat) -> Seq<nat> {
    seq![hours_of(ts), minutes_of(ts), seconds_of(ts), millis_of(ts), micros_of(ts), nanos_of(ts)]
}

proof fn lemma_digit_char(d: nat)
    requires
        d < 10,
    ensures
        is_digit(digit_char(d)),
        digit_value(digit_char(d)) == d,
{
}

/// A decimal representation is made of digits and stands for its number.
proof fn lemma_decimal_digits(n: nat)
    ensures
        decimal(n).len() >= 1,
        forall|i: int| 0 <= i < decimal(n).len() ==> is_digit(#[trigger] decimal(n)[i]),
        digits_value(decimal(n)) == n,
    decreases n,
{
    lemma_digit_char(n % 10);
    if n < 10 {
        assert(seq![digit_char(n)].drop_last() =~= Seq::<char>::empty());
        assert(digits_value(seq![digit_char(n)]) == digits_value(Seq::<char>::empty()) * 10
            + digit_value(digit_char(n)));
    } else {
        lemma_decimal_digits(n / 10);
        let d = decimal(n / 10);
        assert(decimal(n) == d.push(digit_char(n % 10)));
        assert(d.push(digit_char(n % 10)).drop_last() =~= d);
        assert(digits_value(decimal(n)) == digits_value(d) * 10 + digit_value(digit_char(n % 10)));
        assert(n == (n / 10) * 10 + n % 10);
        assert forall|i: int| 0 <= i < decimal(n).len() implies is_digit(#[trigger] decimal(n)[i]) by {
            if i < d.len() {
                assert(decimal(n)[i] == d[i]);
            }
        }
    }
}

/// Leading zeros do not change the number that digits stand for.
proof fn lemma_leading_zeros_value(k: nat, d: Seq<char>)
    ensures
        digits_value(zeros(k) + d) == digits_value(d),
    decreases d.len(), k,
{
    if d.len() == 0 {
        assert(zeros(k) + d =~= zeros(k));
        if k > 0 {
            assert(zeros(k).drop_last() =~= zeros((k - 1) as nat));
            lemma_leading_zeros_value((k - 1) as nat, d);
            assert(zeros((k - 1) as nat) + d =~= zeros((k - 1) as nat));
        }
    } else {
        assert((zeros(k) + d).drop_last() =~= zeros(k) + d.drop_last());
        lemma_leading_zeros_value(k, d.drop_last());
    }
}

/// A padded representation is made of digits and stands for its number.
proof fn lemma_padded_digits(n: nat, w: nat)
    ensures
        padded(n, w).len() >= 1,
        forall|i: int| 0 <= i < padded(n, w).len() ==> is_digit(#[trigger] padded(n, w)[i]),
        digits_value(padded(n, w)) == n,
{
    lemma_decimal_digits(n);
    let d = decimal(n);
    if d.len() < w {
        let z = zeros((w - d.len()) as nat);
        lemma_leading_zeros_value((w - d.len()) as nat, d);
        assert forall|i: int| 0 <= i < padded(n, w).len() implies is_digit(#[trigger] padded(n, w)[i]) by {
            if i < z.len() {
                assert(padded(n, w)[i] == '0');
            } else {
                assert(padded(n, w)[i] == d[i - z.len()]);
            }
        }
    }
}

/// No character of a unit is a digit.
proof fn lemma_unit_letters(k: nat)
    ensures
        unit_of(k).len() >= 1,
        forall|i: int| 0 <= i < unit_of(k).len() ==> !is_digit(#[trigger] unit_of(k)[i]),
{
}

/// The text of components `k ..` is empty or starts with a digit; when it is not
/// empty, its first component that is not zero comes first.
proof fn lemma_components_text_start(vals: Seq<nat>, k: nat)
    ensures
        components_text(vals, k).len() > 0 ==> is_digit(components_text(vals, k)[0]),
        components_text(vals, k).len() > 0 ==> exists|j: nat|
            k <= j < 6 && vals[j as int] > 0 && components_text(vals, k) == padded(
                vals[j as int],
                width_of(j),
            ) + unit_of(j) + components_text(vals, j + 1),
    decreases 6 - k,
{
    reveal(component_text);
    if k < 6 {
        lemma_components_text_start(vals, k + 1);
        let v = vals[k as int];
        if v > 0 {
            lemma_padded_digits(v, width_of(k));
            let t = components_text(vals, k);
            assert(t[0] == padded(v, width_of(k))[0]);
            assert(k <= k < 6 && vals[k as int] > 0 && t == padded(v, width_of(k)) + unit_of(k)
                + components_text(vals, k + 1));
        } else {
            assert(components_text(vals, k) =~= components_text(vals, k + 1));
        }
    }
}

/// Splitting a text of the shape digits, letters, rest (the rest empty or starting
/// with a digit) is unique.
proof fn lemma_split_unique(
    d1: Seq<char>,
    u1: Seq<char>,
    r1: Seq<char>,
    d2: Seq<char>,
    u2: Seq<char>,
    r2: Seq<char>,
)
    requires
        d1.len() >= 1,
        d2.len() >= 1,
        u1.len() >= 1,
        u2.len() >= 1,
        forall|i: int| 0 <= i < d1.len() ==> is_digit(#[trigger] d1[i]),
        forall|i: int| 0 <= i < d2.len() ==> is_digit(#[trigger] d2[i]),
        forall|i: int| 0 <= i < u1.len() ==> !is_digit(#[trigger] u1[i]),
        forall|i: int| 0 <= i < u2.len() ==> !is_digit(#[trigger] u2[i]),
        r1.len() > 0 ==> is_digit(r1[0]),
        r2.len() > 0 ==> is_digit(r2[0]),
        d1 + u1 + r1 == d2 + u2 + r2,
    ensures
        d1 == d2,
        u1 == u2,
        r1 == r2,
{
    let x = d1 + u1 + r1;
    let y = d2 + u2 + r2;
    if d1.len() < d2.len() {
        assert(x[d1.len() as int] == u1[0]);
        assert(y[d1.len() as int] == d2[d1.len() as int]);
    }
    if d2.len() < d1.len() {
        assert(y[d2.len() as int] == u2[0]);
        assert(x[d2.len() as int] == d1[d2.len() as int]);
    }
    assert(d1.len() == d2.len());
    assert(d1 =~= x.subrange(0, d1.len() as int));
    assert(d2 =~= y.subrange(0, d2.len() as int));
    let p = d1.len() as int;
    if u1.len() < u2.len() {
        assert(x.len() == y.len());
        assert(r1.len() > 0);
        assert(x[p + u1.len()] == r1[0]);
        assert(y[p + u1.len()] == u2[u1.len() as int]);
    }
    if u2.len() < u1.len() {
        assert(r2.len() > 0);
        assert(y[p + u2.len()] == r2[0]);
        assert(x[p + u2.len()] == u1[u2.len() as int]);
    }
    assert(u1.len() == u2.len());
    let q = p + u1.len();
    assert(u1 =~= x.subrange(p, q));
    assert(u2 =~= y.subrange(p, q));
    assert(r1 =~= x.subrange(q, x.len() as int));
    assert(r2 =~= y.subrange(q, y.len() as int));
}

/// The units of different components differ.
proof fn lemma_units_differ(j: nat, k: nat)
    requires
        j < 6,
        k < 6,
        j != k,
    ensures
        unit_of(j) != unit_of(k),
{
    if unit_of(j) == unit_of(k) {
        assert(unit_of(j).len() == unit_of(k).len());
        assert(unit_of(j)[0] == unit_of(k)[0]);
        if unit_of(j).len() >= 2 {
            assert(unit_of(j)[1] == unit_of(k)[1]);
        }
    }
}

/// Equal texts of components `k ..` have equal components from `k` on.
proof fn lemma_components_text_unique(a: Seq<nat>, b: Seq<nat>, k: nat)
    requires
        a.len() == 6,
        b.len() == 6,
        k <= 6,
        components_text(a, k) == components_text(b, k),
    ensures
        forall|j: int| k <= j < 6 ==> a[j] == b[j],
    decreases 6 - k,
{
    reveal(component_text);
    if k < 6 {
        lemma_components_text_start(a, k);
        lemma_components_text_start(b, k);
        let ta = components_text(a, k);
        if ta.len() == 0 {
            // Every component from `k` on is zero in both.
            lemma_all_zero(a, k);
            lemma_all_zero(b, k);
        } else {
            let ja = choose|j: nat|
                k <= j < 6 && a[j as int] > 0 && components_text(a, k) == padded(
                    a[j as int],
                    width_of(j),
                ) + unit_of(j) + components_text(a, j + 1);
            let jb = choose|j: nat|
                k <= j < 6 && b[j as int] > 0 && components_text(b, k) == padded(
                    b[j as int],
                    width_of(j),
                ) + unit_of(j) + components_text(b, j + 1);
            lemma_padded_digits(a[ja as int], width_of(ja));
            lemma_padded_digits(b[jb as int], width_of(jb));
            lemma_unit_letters(ja);
            lemma_unit_letters(jb);
            lemma_components_text_start(a, ja + 1);
            lemma_components_text_start(b, jb + 1);
            lemma_split_unique(
                padded(a[ja as int], width_of(ja)),
                unit_of(ja),
                components_text(a, ja + 1),
                padded(b[jb as int], width_of(jb)),
                unit_of(jb),
                components_text(b, jb + 1),
            );
            if ja != jb {
                lemma_units_differ(ja, jb);
            }
            assert(ja == jb);
            assert(a[ja as int] == b[ja as int]);
            lemma_components_text_unique(a, b, ja + 1);
            lemma_zero_before_first(a, k, ja);
            lemma_zero_before_first(b, k, ja);
        }
    }
}

/// An empty text of components `k ..` means they are all zero.
proof fn lemma_all_zero(vals: Seq<nat>, k: nat)
    requires
        components_text(vals, k).len() == 0,
    ensures
        forall|j: int| k <= j < 6 ==> vals[j] == 0,
    decreases 6 - k,
{
    reveal(component_text);
    if k < 6 {
        if vals[k as int] > 0 {
            lemma_padded_digits(vals[k as int], width_of(k));
        }
        lemma_all_zero(vals, k + 1);
    }
}

/// When the text of components `k ..` starts with component `j`, the components
/// between are zero.
proof fn lemma_zero_before_first(vals: Seq<nat>, k: nat, j: nat)
    requires
        k <= j < 6,
        vals[j as int] > 0,
        components_text(vals, k) == padded(vals[j as int], width_of(j)) + unit_of(j)
            + components_text(vals, j + 1),
    ensures
        forall|i: int| k <= i < j ==> vals[i] == 0,
    decreases j - k,
{
    reveal(component_text);
    if k < j {
        if vals[k as int] > 0 {
            // Component `k` would come first, with another unit.
            lemma_padded_digits(vals[k as int], width_of(k));
            lemma_padded_digits(vals[j as int], width_of(j));
            lemma_unit_letters(k);
            lemma_unit_letters(j);
            lemma_components_text_start(vals, k + 1);
            lemma_components_text_start(vals, j + 1);
            lemma_split_unique(
                padded(vals[k as int], width_of(k)),
                unit_of(k),
                components_text(vals, k + 1),
                padded(vals[j as int], width_of(j)),
                unit_of(j),
                components_text(vals, j + 1),
            );
            lemma_units_differ(k, j);
        }
        assert(components_text(vals, k) =~= components_text(vals, k + 1));
        lemma_zero_before_first(vals, k + 1, j);
    }
}

/// The text of `ts` is the text of its six components.
proof fn lemma_fmt_ns_text_components(ts: nat)
    ensures
        fmt_ns_text(ts) == components_text(components_of(ts), 0),
{
    let c = components_of(ts);
    reveal_with_fuel(components_text, 7);
    assert(components_text(c, 6) == Seq::<char>::empty());
    assert(fmt_ns_text(ts) =~= components_text(c, 0));
}

/// Law: `fmt_ns` never gives one text for two durations.
pub proof fn lemma_fmt_ns_injective(a: nat, b: nat)
    requires
        fmt_ns_text(a) == fmt_ns_text(b),
    ensures
        a == b,
{
    lemma_fmt_ns_text_components(a);
    lemma_fmt_ns_text_components(b);
    lemma_components_text_unique(components_of(a), components_of(b), 0);
    assert(components_of(a)[0] == components_of(b)[0]);
    assert(components_of(a)[1] == components_of(b)[1]);
    assert(components_of(a)[2] == components_of(b)[2]);
    assert(components_of(a)[3] == components_of(b)[3]);
    assert(components_of(a)[4] == components_of(b)[4]);
    assert(components_of(a)[5] == components_of(b)[5]);
    lemma_components_account_for_duration(a);
    lemma_components_account_for_duration(b);
}

} // verus!
