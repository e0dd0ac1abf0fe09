//! Latency samples in nanoseconds, their statistics, and their rendering as text.

use std::time::Duration;
use std::time::Instant;
use vstd::prelude::*;
use vstd::relations::sorted_by;
use vstd::relations::total_ordering;
use crate::decimal::append_decimal;
use crate::decimal::append_padded;
use crate::decimal::decimal;
use crate::decimal::padded;

verus! {

// ---------------------------------------------------------------------------
// Time components
// ---------------------------------------------------------------------------

/// Whole hours in `ts` nanoseconds.
pub open spec fn hours_of(ts: nat) -> nat {
    ts / 3_600_000_000_000
}

/// Minutes past the hour in `ts` nanoseconds.
pub open spec fn minutes_of(ts: nat) -> nat {
    (ts / 60_000_000_000) % 60
}

/// Seconds past the minute in `ts` nanoseconds.
pub open spec fn seconds_of(ts: nat) -> nat {
    (ts / 1_000_000_000) % 60
}

/// Milliseconds past the second in `ts` nanoseconds.
pub open spec fn millis_of(ts: nat) -> nat {
    (ts / 1_000_000) % 1000
}

/// Microseconds past the millisecond in `ts` nanoseconds.
pub open spec fn micros_of(ts: nat) -> nat {
    (ts / 1000) % 1000
}

/// Nanoseconds past the microsecond in `ts` nanoseconds.
pub open spec fn nanos_of(ts: nat) -> nat {
    ts % 1000
}

/// The text of one component: its value zero-padded to `width`, then its unit;
/// nothing when the value is zero.
#[verifier::opaque]
pub open spec fn component_text(value: nat, unit: Seq<char>, width: nat) -> Seq<char> {
    if value > 0 {
        padded(value, width) + unit
    } else {
        Seq::empty()
    }
}

/// The text that `fmt_ns` gives for `ts` nanoseconds, e.g. `8987` is `"008mks987ns"`:
/// hours, minutes and seconds with at least two digits, milli-, micro- and
/// nanoseconds with three, each followed by its unit, components that are zero left out.
pub open spec fn fmt_ns_text(ts: nat) -> Seq<char> {
    component_text(hours_of(ts), seq!['h'], 2) + component_text(minutes_of(ts), seq!['m'], 2)
        + component_text(seconds_of(ts), seq!['s'], 2) + component_text(
        millis_of(ts),
        seq!['m', 's'],
        3,
    ) + component_text(micros_of(ts), seq!['m', 'k', 's'], 3) + component_text(
        nanos_of(ts),
        seq!['n', 's'],
        3,
    )
}

// ---------------------------------------------------------------------------
// Joining texts
// ---------------------------------------------------------------------------

/// The texts of a sequence of strings.
pub open spec fn texts(parts: Seq<String>) -> Seq<Seq<char>> {
    parts.map_values(|s: String| s@)
}

/// The texts in `parts`, one after another, with `sep` between neighbours.
pub open spec fn joined(parts: Seq<Seq<char>>, sep: Seq<char>) -> Seq<char>
    decreases parts.len(),
{
    if parts.len() == 0 {
        Seq::empty()
    } else if parts.len() == 1 {
        parts[0]
    } else {
        joined(parts.drop_last(), sep) + sep + parts.last()
    }
}

/// Joining with an empty separator, one more part adds its text at the end.
proof fn lemma_joined_push_empty_sep(parts: Seq<Seq<char>>, x: Seq<char>)
    ensures
        joined(parts.push(x), Seq::empty()) == joined(parts, Seq::empty()) + x,
{
    if parts.len() == 0 {
        assert(parts.push(x).len() == 1);
        assert(joined(parts.push(x), Seq::empty()) == x);
        assert(joined(parts, Seq::empty()) + x =~= x);
    } else {
        assert(parts.push(x).drop_last() =~= parts);
        assert(joined(parts, Seq::empty()) + Seq::<char>::empty() =~= joined(parts, Seq::empty()));
    }
}

/// `itertools::join` over strings: the `Display` text of each item (for a `String`,
/// the string itself), one after another, with `sep` between neighbours.
#[verifier::external_body]
fn join_texts(parts: &Vec<String>, sep: &str) -> (r: String)
    ensures
        r@ == joined(texts(parts@), sep@),
{
    itertools::join(parts.iter(), sep)
}

/// Adds the text of one component to `parts` when its value is not zero.
fn push_component(parts: &mut Vec<String>, value: u64, unit: &str, width: usize)
    ensures
        joined(texts(final(parts)@), Seq::empty()) == joined(texts(old(parts)@), Seq::empty())
            + component_text(value as nat, unit@, width as nat),
{
    reveal(component_text);
    if value > 0 {
        let mut text = String::new();
        append_padded(&mut text, value, width);
        text.append(unit);
        let ghost before = parts@;
        parts.push(text);
        proof {
            assert(texts(parts@) =~= texts(before).push(text@));
            lemma_joined_push_empty_sep(texts(before), text@);
        }
    } else {
        assert(joined(texts(old(parts)@), Seq::empty()) + Seq::<char>::empty() =~= joined(
            texts(old(parts)@),
            Seq::empty(),
        ));
    }
}

/// The subtraction-based arithmetic of `components` gives the components above.
proof fn lemma_components(ts: nat)
    ensures
        (ts / 1_000_000_000) / 3600 == hours_of(ts),
        ((ts / 1_000_000_000) - ((ts / 1_000_000_000) / 3600) * 3600) / 60 == minutes_of(ts),
        (ts / 1_000_000_000) - 60 * minutes_of(ts) - hours_of(ts) * 3600 == seconds_of(ts),
        (ts % 1_000_000 - ts % 1000) / 1000 == micros_of(ts),
        (ts % 1_000_000_000 - ts % 1000) / 1_000_000 == millis_of(ts),
        ts % 1000 <= ts % 1_000_000 <= ts % 1_000_000_000,
{
    let sec = ts / 1_000_000_000;
    vstd::arithmetic::div_mod::lemma_div_denominator(ts as int, 1_000_000_000, 3600);
    vstd::arithmetic::div_mod::lemma_div_denominator(ts as int, 1_000_000_000, 60);
    vstd::arithmetic::div_mod::lemma_fundamental_div_mod(sec as int, 3600);
    vstd::arithmetic::div_mod::lemma_mod_breakdown(sec as int, 60, 60);
    vstd::arithmetic::div_mod::lemma_mod_breakdown(ts as int, 1000, 1000);
    vstd::arithmetic::div_mod::lemma_mod_breakdown(ts as int, 1_000_000, 1000);
    vstd::arithmetic::div_mod::lemma_mod_breakdown(ts as int, 1000, 1_000_000);
    assert(sec - (sec / 3600) * 3600 == sec % 3600);
    assert(sec % 3600 == 60 * ((sec / 60) % 60) + sec % 60);
    assert((sec % 3600) / 60 == (sec / 60) % 60);
    assert(ts % 1_000_000 == 1000 * ((ts / 1000) % 1000) + ts % 1000);
    assert(ts % 1_000_000_000 == 1_000_000 * ((ts / 1_000_000) % 1000) + ts % 1_000_000);
    assert(ts % 1_000_000_000 == 1000 * ((ts / 1000) % 1_000_000) + ts % 1000);
}

/// The six components of `ts` nanoseconds: whole seconds split into hours,
/// minutes and seconds by subtraction, and the sub-second parts by remainders.
fn components(ts: u64) -> (c: (u64, u64, u64, u64, u64, u64))
    ensures
        c.0 == hours_of(ts as nat),
        c.1 == minutes_of(ts as nat),
        c.2 == seconds_of(ts as nat),
        c.3 == millis_of(ts as nat),
        c.4 == micros_of(ts as nat),
        c.5 == nanos_of(ts as nat),
{
    proof {
        lemma_components(ts as nat);
    }
    let seconds = ts / 1_000_000_000;
    let h = seconds / 3600;
    assert(h * 3600 <= seconds) by (nonlinear_arith)
        requires
            h == seconds / 3600,
    ;
    let m = (seconds - h * 3600) / 60;
    assert(60 * m + h * 3600 <= seconds) by (nonlinear_arith)
        requires
            m == (seconds - h * 3600) / 60,
            h * 3600 <= seconds,
    ;
    let s = seconds - 60 * m - h * 3600;

    let ns = ts % 1000;
    let mks = (ts % 1_000_000 - ns) / 1000;
    let ms = (ts % 1_000_000_000 - ns) / 1_000_000;
    (h, m, s, ms, mks, ns)
}

/// Renders `ts` nanoseconds as text, e.g. `8987` as `"008mks987ns"` and
/// `3_723_004_005_006` as `"01h02m03s004ms005mks006ns"`; zero renders as `""`.
pub fn fmt_ns(ts: u64) -> (r: String)
    ensures
        r@ == fmt_ns_text(ts as nat),
{
    let (h, m, s, ms, mks, ns) = components(ts);
    let mut parts: Vec<String> = Vec::new();
    proof {
        reveal_strlit("h");
        reveal_strlit("m");
        reveal_strlit("s");
        reveal_strlit("ms");
        reveal_strlit("mks");
        reveal_strlit("ns");
        assert("h"@ =~= seq!['h']);
        assert("m"@ =~= seq!['m']);
        assert("s"@ =~= seq!['s']);
        assert("ms"@ =~= seq!['m', 's']);
        assert("mks"@ =~= seq!['m', 'k', 's']);
        assert("ns"@ =~= seq!['n', 's']);
        assert(texts(parts@) =~= Seq::<Seq<char>>::empty());
    }
    push_component(&mut parts, h, "h", 2);
    assert(joined(texts(parts@), Seq::empty()) =~= component_text(h as nat, seq!['h'], 2));
    push_component(&mut parts, m, "m", 2);
    push_component(&mut parts, s, "s", 2);
    push_component(&mut parts, ms, "ms", 3);
    push_component(&mut parts, mks, "mks", 3);
    push_component(&mut parts, ns, "ns", 3);
    proof {
        reveal_strlit("");
        assert(""@ =~= Seq::<char>::empty());
    }
    let r = join_texts(&parts, "");
    r
}

/// Law: the components that `fmt_ns` renders account for the whole duration,
/// each below its unit's bound: `ts` is exactly `h` hours, `m` minutes,
/// `s` seconds, `ms` milli-, `mks` micro- and `ns` nanoseconds.
pub proof fn lemma_components_account_for_duration(ts: nat)
    ensures
        ts == hours_of(ts) * 3_600_000_000_000 + minutes_of(ts) * 60_000_000_000 + seconds_of(ts)
            * 1_000_000_000 + millis_of(ts) * 1_000_000 + micros_of(ts) * 1000 + nanos_of(ts),
        minutes_of(ts) < 60,
        seconds_of(ts) < 60,
        millis_of(ts) < 1000,
        micros_of(ts) < 1000,
        nanos_of(ts) < 1000,
{
    let sec = ts / 1_000_000_000;
    let min = ts / 60_000_000_000;
    vstd::arithmetic::div_mod::lemma_div_denominator(ts as int, 1_000_000_000, 60);
    vstd::arithmetic::div_mod::lemma_div_denominator(ts as int, 60_000_000_000, 60);
    vstd::arithmetic::div_mod::lemma_fundamental_div_mod(ts as int, 1000);
    vstd::arithmetic::div_mod::lemma_fundamental_div_mod(ts as int, 1_000_000_000);
    vstd::arithmetic::div_mod::lemma_fundamental_div_mod(sec as int, 60);
    vstd::arithmetic::div_mod::lemma_fundamental_div_mod(min as int, 60);
    vstd::arithmetic::div_mod::lemma_mod_breakdown(ts as int, 1000, 1000);
    vstd::arithmetic::div_mod::lemma_mod_breakdown(ts as int, 1_000_000, 1000);
    assert(ts % 1_000_000 == 1000 * ((ts / 1000) % 1000) + ts % 1000);
    assert(ts % 1_000_000_000 == 1_000_000 * ((ts / 1_000_000) % 1000) + ts % 1_000_000);
    assert(sec == 60 * (sec / 60) + sec % 60);
    assert(min == 60 * (min / 60) + min % 60);
    assert(sec / 60 == min);
    assert(min / 60 == hours_of(ts));
}

/// Law: `fmt_ns` gives the empty text exactly for a zero duration.
pub proof fn lemma_fmt_ns_empty_iff_zero(ts: nat)
    ensures
        (fmt_ns_text(ts).len() == 0) == (ts == 0),
{
    reveal(component_text);
    lemma_components_account_for_duration(ts);
    if ts != 0 {
        assert(hours_of(ts) > 0 || minutes_of(ts) > 0 || seconds_of(ts) > 0 || millis_of(ts) > 0
            || micros_of(ts) > 0 || nanos_of(ts) > 0);
        lemma_decimal_nonempty(hours_of(ts));
        lemma_decimal_nonempty(minutes_of(ts));
        lemma_decimal_nonempty(seconds_of(ts));
        lemma_decimal_nonempty(millis_of(ts));
        lemma_decimal_nonempty(micros_of(ts));
        lemma_decimal_nonempty(nanos_of(ts));
    } else {
        assert(fmt_ns_text(ts) =~= Seq::<char>::empty());
    }
}

/// Every number has at least one digit.
proof fn lemma_decimal_nonempty(n: nat)
    ensures
        decimal(n).len() >= 1,
        padded(n, 2).len() >= 1,
        padded(n, 3).len() >= 1,
    decreases n,
{
    if n >= 10 {
        lemma_decimal_nonempty(n / 10);
    }
}

// ---------------------------------------------------------------------------
// Statistics of a sequence of samples
// ---------------------------------------------------------------------------

/// The sum of the samples.
pub open spec fn total(s: Seq<u64>) -> nat
    decreases s.len(),
{
    if s.len() == 0 {
        0
    } else {
        total(s.drop_last()) + s.last() as nat
    }
}

/// The integer mean of the samples (rounded down); zero when there are none.
pub open spec fn average(s: Seq<u64>) -> nat {
    if s.len() == 0 {
        0
    } else {
        total(s) / s.len()
    }
}

/// The sample at the middle position `len / 2`; zero when there are none.
pub open spec fn middle(s: Seq<u64>) -> u64 {
    if s.len() == 0 {
        0
    } else {
        s[(s.len() / 2) as int]
    }
}

/// The samples are in ascending order.
pub open spec fn ascending(s: Seq<u64>) -> bool {
    forall|i: int, j: int| 0 <= i <= j < s.len() ==> s[i] <= s[j]
}

/// The report that `fmt_delim` renders for the (already sorted) samples `s`.
pub open spec fn report_text(s: Seq<u64>, delimeter: Seq<char>, eq: Seq<char>, throughput: Seq<char>) -> Seq<char> {
    "count"@ + eq + decimal(s.len()) + delimeter + "total"@ + eq + fmt_ns_text(total(s))
        + delimeter + "avg"@ + eq + fmt_ns_text(average(s)) + delimeter + "median"@ + eq
        + fmt_ns_text(middle(s) as nat) + delimeter + "throughput"@ + eq + throughput + "/s"@
}

/// Law: the report shows, after `avg`, the integer mean of the samples: the
/// number `a` with `a * len <= total < (a + 1) * len` (zero when there are none);
/// before it the count and the total, after it the middle sample and the rate.
pub proof fn lemma_report_shows_mean(
    s: Seq<u64>,
    delimeter: Seq<char>,
    eq: Seq<char>,
    throughput: Seq<char>,
    a: nat,
)
    requires
        s.len() == 0 ==> a == 0,
        s.len() > 0 ==> a * s.len() <= total(s) < (a + 1) * s.len(),
    ensures
        report_text(s, delimeter, eq, throughput) == "count"@ + eq + decimal(s.len()) + delimeter
            + "total"@ + eq + fmt_ns_text(total(s)) + delimeter + "avg"@ + eq + fmt_ns_text(a)
            + delimeter + "median"@ + eq + fmt_ns_text(
            if s.len() == 0 {
                0
            } else {
                s[(s.len() / 2) as int] as nat
            },
        ) + delimeter + "throughput"@ + eq + throughput + "/s"@,
{
    if s.len() > 0 {
        lemma_mean_unique(total(s), s.len(), a);
    }
}

/// The integer mean is the only `a` with `a * n <= t < (a + 1) * n`.
proof fn lemma_mean_unique(t: nat, n: nat, a: nat)
    requires
        n > 0,
        a * n <= t < (a + 1) * n,
    ensures
        t / n == a,
{
    vstd::arithmetic::div_mod::lemma_fundamental_div_mod(t as int, n as int);
    let q = t / n;
    let r = t % n;
    assert(t == n * q + r);
    assert(0 <= r < n);
    if q < a {
        assert(q + 1 <= a);
        assert((q + 1) * n <= a * n) by (nonlinear_arith)
            requires
                q + 1 <= a,
                n > 0,
        ;
        assert(n * q + r < (q + 1) * n) by (nonlinear_arith)
            requires
                r < n,
        ;
    }
    if q > a {
        assert(a + 1 <= q);
        assert((a + 1) * n <= q * n) by (nonlinear_arith)
            requires
                a + 1 <= q,
                n > 0,
        ;
        assert(n * q == q * n) by (nonlinear_arith);
    }
}

/// The sum of a prefix is at most the sum of the whole.
proof fn lemma_total_prefix(s: Seq<u64>, i: int)
    requires
        0 <= i <= s.len(),
    ensures
        total(s.take(i)) <= total(s),
    decreases s.len() - i,
{
    if i < s.len() {
        lemma_total_prefix(s, i + 1);
        assert(s.take(i + 1).drop_last() =~= s.take(i));
    } else {
        assert(s.take(i) =~= s);
    }
}

/// The sum of samples that all lie in `lo ..= hi` lies in `len * lo ..= len * hi`.
proof fn lemma_total_within(s: Seq<u64>, lo: nat, hi: nat)
    requires
        forall|i: int| 0 <= i < s.len() ==> lo <= #[trigger] s[i] <= hi,
    ensures
        s.len() * lo <= total(s) <= s.len() * hi,
    decreases s.len(),
{
    if s.len() > 0 {
        let t = s.drop_last();
        assert forall|i: int| 0 <= i < t.len() implies lo <= #[trigger] t[i] <= hi by {
            assert(t[i] == s[i]);
        }
        lemma_total_within(t, lo, hi);
        assert(s.last() == s[s.len() - 1]);
        assert(s.len() * lo == t.len() * lo + lo) by (nonlinear_arith)
            requires
                s.len() == t.len() + 1,
        ;
        assert(s.len() * hi == t.len() * hi + hi) by (nonlinear_arith)
            requires
                s.len() == t.len() + 1,
        ;
    }
}

/// Law: the mean of the samples lies between the smallest and the largest of them.
pub proof fn lemma_average_within_bounds(s: Seq<u64>, lo: nat, hi: nat)
    requires
        s.len() > 0,
        forall|i: int| 0 <= i < s.len() ==> lo <= #[trigger] s[i] <= hi,
    ensures
        lo <= average(s) <= hi,
{
    lemma_total_within(s, lo, hi);
    let n = s.len();
    let t = total(s);
    assert(lo <= t / n <= hi) by (nonlinear_arith)
        requires
            n > 0,
            n * lo <= t <= n * hi,
    {
        vstd::arithmetic::div_mod::lemma_div_is_ordered((n * lo) as int, t as int, n as int);
        vstd::arithmetic::div_mod::lemma_div_is_ordered(t as int, (n * hi) as int, n as int);
        vstd::arithmetic::div_mod::lemma_div_by_multiple(lo as int, n as int);
        vstd::arithmetic::div_mod::lemma_div_by_multiple(hi as int, n as int);
        vstd::arithmetic::mul::lemma_mul_is_commutative(n as int, lo as int);
        vstd::arithmetic::mul::lemma_mul_is_commutative(n as int, hi as int);
    }
}

/// Removing the sample at `i` lowers the sum by that sample.
proof fn lemma_total_remove(s: Seq<u64>, i: int)
    requires
        0 <= i < s.len(),
    ensures
        total(s) == total(s.remove(i)) + s[i],
    decreases s.len(),
{
    if i == s.len() - 1 {
        assert(s.remove(i) =~= s.drop_last());
    } else {
        lemma_total_remove(s.drop_last(), i);
        assert(s.remove(i).drop_last() =~= s.drop_last().remove(i));
        assert(s.remove(i).last() == s.last());
    }
}

/// Law: reordering the samples keeps their sum. Two sequences that hold each
/// value equally often have the same total.
pub proof fn lemma_total_of_permutation(a: Seq<u64>, b: Seq<u64>)
    requires
        a.to_multiset() == b.to_multiset(),
    ensures
        total(a) == total(b),
        a.len() == b.len(),
    decreases a.len(),
{
    broadcast use vstd::seq_lib::group_to_multiset_ensures;
    broadcast use vstd::multiset::group_multiset_axioms;

    if a.len() == 0 {
        assert(b.to_multiset().len() == 0);
        assert(b.len() == 0);
    } else {
        let x = a.last();
        assert(a.drop_last().push(x) =~= a);
        assert(a.to_multiset() == a.drop_last().to_multiset().insert(x));
        assert(a.to_multiset().count(x) > 0);
        assert(b.to_multiset().count(x) > 0);
        assert(b.contains(x));
        let i = choose|i: int| 0 <= i < b.len() && b[i] == x;
        assert(b.remove(i).to_multiset() == b.to_multiset().remove(x));
        assert(a.drop_last().to_multiset() =~= b.remove(i).to_multiset());
        lemma_total_of_permutation(a.drop_last(), b.remove(i));
        lemma_total_remove(b, i);
    }
}

/// Law: the ascending arrangement of a collection of samples is unique. Two
/// ascending sequences that hold each value equally often are equal, so sorting
/// sorted samples changes nothing and the middle sample of sorted samples depends
/// only on which samples were recorded, not on their order.
pub proof fn lemma_ascending_arrangement_unique(a: Seq<u64>, b: Seq<u64>)
    requires
        ascending(a),
        ascending(b),
        a.to_multiset() == b.to_multiset(),
    ensures
        a == b,
{
    let leq = |x: u64, y: u64| x <= y;
    assert(total_ordering(leq));
    assert(sorted_by(a, leq));
    assert(sorted_by(b, leq));
    vstd::seq_lib::lemma_sorted_unique(a, b, leq);
}

/// How one call on a profiler changes its samples: a call that adds a sample
/// (`add_value`, `add_nanos`, `add_duration`, `measure`) appends one; any other
/// call (`prepare`, `fmt_delim`, `fmt`, or one that takes `&self`) keeps every
/// sample as often as before.
pub open spec fn call_effect(before: Seq<u64>, after: Seq<u64>, adds: bool) -> bool {
    if adds {
        after.len() == before.len() + 1 && after.drop_last() == before
    } else {
        after.to_multiset() == before.to_multiset()
    }
}

/// The number of calls that add a sample.
pub open spec fn adding_calls(adds: Seq<bool>) -> nat
    decreases adds.len(),
{
    if adds.len() == 0 {
        0
    } else {
        adding_calls(adds.drop_last()) + if adds.last() {
            1nat
        } else {
            0nat
        }
    }
}

/// Law: after any run of calls, a profiler holds one sample more for each call
/// that added one, and as many as before otherwise. `states[k]` are the samples
/// before call `k` and `states[k + 1]` those after it; `adds[k]` says whether
/// call `k` adds a sample.
pub proof fn lemma_len_counts_adding_calls(states: Seq<Seq<u64>>, adds: Seq<bool>)
    requires
        states.len() == adds.len() + 1,
        forall|k: int|
            0 <= k < adds.len() ==> call_effect(#[trigger] states[k], states[k + 1], adds[k]),
    ensures
        states.last().len() == states[0].len() + adding_calls(adds),
    decreases adds.len(),
{
    broadcast use vstd::seq_lib::group_to_multiset_ensures;

    if adds.len() > 0 {
        let n = adds.len() - 1;
        let prefix = states.drop_last();
        assert forall|k: int| 0 <= k < adds.drop_last().len() implies call_effect(
            #[trigger] prefix[k],
            prefix[k + 1],
            adds.drop_last()[k],
        ) by {
            assert(call_effect(states[k], states[k + 1], adds[k]));
        }
        lemma_len_counts_adding_calls(prefix, adds.drop_last());
        assert(call_effect(states[n], states[n + 1], adds[n]));
        if !adds[n] {
            assert(states[n].to_multiset().len() == states[n + 1].to_multiset().len());
        }
    }
}

// ---------------------------------------------------------------------------
// Outside calls on time values
// ---------------------------------------------------------------------------

#[verifier::external_type_specification]
#[verifier::external_body]
pub struct ExInstant(Instant);

/// The whole nanoseconds that a duration spans (`Duration::as_nanos`).
pub uninterp spec fn duration_nanos(duration: Duration) -> nat;

/// `Duration::as_nanos`: the whole nanoseconds that the duration spans.
#[verifier::external_body]
fn duration_as_nanos(duration: &Duration) -> (r: u128)
    ensures
        r == duration_nanos(*duration),
{
    duration.as_nanos()
}

/// `Instant::elapsed`: the time from `start` to now, read from the clock; nothing
/// is stated of it.
#[verifier::external_body]
fn instant_elapsed(start: &Instant) -> Duration {
    start.elapsed()
}

/// `slice::sort` on `u64` values: puts them in ascending order, each value kept as
/// often as it occurred.
#[verifier::external_body]
fn sort_ascending(values: &mut Vec<u64>)
    ensures
        ascending(final(values)@),
        final(values)@.to_multiset() == old(values)@.to_multiset(),
{
    values.sort();
}

/// A sample as a duration gives it: the low 64 bits of its whole nanoseconds.
pub open spec fn nanos_sample(duration: Duration) -> u64 {
    (duration_nanos(duration) % 0x1_0000_0000_0000_0000) as u64
}

/// Whether `value` is the sample of some duration (its whole nanoseconds, low
/// 64 bits).
pub open spec fn is_duration_sample(value: u64) -> bool {
    exists|d: Duration| #[trigger] nanos_sample(d) == value
}

/// Law: a sample counts whole nanoseconds; for a duration below `2^64`
/// nanoseconds (about 584 years) it is exactly that duration's nanoseconds, and
/// two durations of different length give different samples.
pub proof fn lemma_sample_is_whole_nanoseconds(a: Duration, b: Duration)
    ensures
        duration_nanos(a) < 0x1_0000_0000_0000_0000 ==> nanos_sample(a) == duration_nanos(a),
        duration_nanos(a) < 0x1_0000_0000_0000_0000 && duration_nanos(b)
            < 0x1_0000_0000_0000_0000 && duration_nanos(a) != duration_nanos(b) ==> nanos_sample(a)
            != nanos_sample(b),
{
}

/// The nanoseconds elapsed since `start` (their low 64 bits), read from the clock:
/// the sample of the duration that the clock gives.
pub fn elapsed_ns(start: &Instant) -> (r: u64)
    ensures
        is_duration_sample(r),
{
    let elapsed = instant_elapsed(start);
    let r = duration_ns(&elapsed);
    assert(nanos_sample(elapsed) == r);
    r
}

/// The whole nanoseconds of `duration`, as their low 64 bits.
pub fn duration_ns(duration: &Duration) -> (r: u64)
    ensures
        r == (duration_nanos(*duration) % 0x1_0000_0000_0000_0000) as u64,
{
    let nanos = duration_as_nanos(duration);
    nanos_as_u64(nanos)
}

/// The low 64 bits of a nanosecond count, as `as u64` takes them.
pub fn nanos_as_u64(nanos: u128) -> (r: u64)
    ensures
        r == nanos % 0x1_0000_0000_0000_0000,
{
    assert(nanos as u64 == nanos % 0x1_0000_0000_0000_0000) by (bit_vector);
    nanos as u64
}

// ---------------------------------------------------------------------------
// The profiler
// ---------------------------------------------------------------------------

/// A list of latency samples in nanoseconds, in the order they were added
/// (ascending after `prepare`), beside a `count` field that stays zero.
#[derive(Debug)]
pub struct TimeProfiler {
    count: u64,
    values: Vec<u64>,
}

impl View for TimeProfiler {
    type V = Seq<u64>;

    closed spec fn view(&self) -> Seq<u64> {
        self.values@
    }
}

impl Clone for TimeProfiler {
    /// A profiler with the same samples.
    fn clone(&self) -> (r: Self)
        ensures
            r@ == self@,
    {
        proof {
            use_type_invariant(self);
        }
        TimeProfiler { count: self.count, values: self.values.clone() }
    }
}

impl TimeProfiler {
    /// The `count` field is always zero, so the samples are all there is to a
    /// profiler.
    #[verifier::type_invariant]
    spec fn count_stays_zero(self) -> bool {
        self.count == 0
    }

    /// A profiler with no samples.
    pub fn new() -> (r: Self)
        ensures
            r@ == Seq::<u64>::empty(),
    {
        Self { count: 0, values: Vec::new() }
    }

    /// The samples, in their current order.
    pub fn values(&self) -> (r: &[u64])
        ensures
            r@ == self@,
    {
        self.values.as_slice()
    }

    /// Adds a sample given as a nanosecond count; it is kept as its low 64 bits.
    pub fn add_nanos(&mut self, nanos: u128)
        ensures
            final(self)@ == old(self)@.push((nanos % 0x1_0000_0000_0000_0000) as u64),
    {
        let value = nanos_as_u64(nanos);
        self.add_value(value);
    }

    /// Adds the whole nanoseconds of `duration` as a sample (their low 64 bits).
    pub fn add_duration(&mut self, duration: Duration)
        ensures
            final(self)@ == old(self)@.push(
                (duration_nanos(duration) % 0x1_0000_0000_0000_0000) as u64,
            ),
    {
        let value = duration_ns(&duration);
        self.add_value(value);
    }

    /// Adds a sample.
    pub fn add_value(&mut self, value: u64)
        ensures
            final(self)@ == old(self)@.push(value),
    {
        proof {
            use_type_invariant(&*self);
        }
        let mut values = Vec::new();
        std::mem::swap(&mut values, &mut self.values);
        values.push(value);
        self.values = values;
    }

    /// Adds the time elapsed since `now` as a sample and returns it.
    pub fn measure(&mut self, now: Instant) -> (r: u64)
        ensures
            final(self)@ == old(self)@.push(r),
            is_duration_sample(r),
    {
        let value = elapsed_ns(&now);
        self.add_value(value);
        value
    }

    /// The number of samples.
    pub fn len(&self) -> (r: usize)
        ensures
            r == self@.len(),
    {
        self.values.len()
    }

    /// Whether there are no samples.
    pub fn is_empty(&self) -> (r: bool)
        ensures
            r == (self@.len() == 0),
    {
        self.values.len() == 0
    }

    /// The sum of the samples; it must fit in a `u64`.
    pub fn total_ns(&self) -> (r: u64)
        requires
            total(self@) <= u64::MAX,
        ensures
            r == total(self@),
    {
        let mut acc: u64 = 0;
        let n = self.values.len();
        let mut i: usize = 0;
        while i < n
            invariant
                n == self@.len(),
                i <= n,
                acc == total(self@.take(i as int)),
                total(self@) <= u64::MAX,
            decreases n - i,
        {
            proof {
                lemma_total_prefix(self@, i + 1);
                assert(self@.take(i + 1).drop_last() =~= self@.take(i as int));
            }
            acc = acc + self.values[i];
            i = i + 1;
        }
        assert(self@.take(n as int) =~= self@);
        acc
    }

    /// The integer mean of the samples, rounded down; zero when there are none.
    pub fn avg(&self) -> (r: u64)
        requires
            total(self@) <= u64::MAX,
        ensures
            r == average(self@),
    {
        if self.values.len() == 0 {
            return 0;
        }
        let t = self.total_ns();
        let n = self.values.len() as u64;
        assert(t / n <= t) by (nonlinear_arith)
            requires
                n >= 1,
        ;
        t / n
    }

    /// Sorts the samples into ascending order.
    pub fn prepare(&mut self)
        ensures
            ascending(final(self)@),
            final(self)@.to_multiset() == old(self)@.to_multiset(),
    {
        proof {
            use_type_invariant(&*self);
        }
        let mut values = Vec::new();
        std::mem::swap(&mut values, &mut self.values);
        sort_ascending(&mut values);
        self.values = values;
    }

    /// The sample at position `len / 2` (the median once the samples are sorted);
    /// zero when there are none.
    pub fn median(&self) -> (r: u64)
        ensures
            r == middle(self@),
    {
        if self.values.len() == 0 {
            return 0;
        }
        self.values[self.values.len() / 2]
    }

    /// `fmt_ns` of the mean.
    pub fn fmt_avg_ns(&self) -> (r: String)
        requires
            total(self@) <= u64::MAX,
        ensures
            r@ == fmt_ns_text(average(self@)),
    {
        fmt_ns(self.avg())
    }

    /// `fmt_ns` of the median.
    pub fn fmt_median_ns(&self) -> (r: String)
        ensures
            r@ == fmt_ns_text(middle(self@) as nat),
    {
        fmt_ns(self.median())
    }

    /// Sorts the samples, then renders the report
    /// `count{eq}N{delimeter}total{eq}T{delimeter}avg{eq}A{delimeter}median{eq}M{delimeter}throughput{eq}R/s`,
    /// with the durations through `fmt_ns` and `throughput` as the rate `R`
    /// (samples per second, which the caller computes in floating point).
    pub fn fmt_delim(&mut self, delimeter: &str, eq: &str, throughput: &str) -> (r: String)
        requires
            total(old(self)@) <= u64::MAX,
        ensures
            ascending(final(self)@),
            final(self)@.to_multiset() == old(self)@.to_multiset(),
            r@ == report_text(final(self)@, delimeter@, eq@, throughput@),
    {
        let ghost before = self@;
        self.prepare();
        proof {
            lemma_total_of_permutation(before, self@);
        }
        let total = self.total_ns();
        let mut out = String::new();
        out.append("count");
        out.append(eq);
        append_decimal(&mut out, self.values.len() as u64);
        out.append(delimeter);
        out.append("total");
        out.append(eq);
        let total_text = fmt_ns(total);
        out.append(total_text.as_str());
        out.append(delimeter);
        out.append("avg");
        out.append(eq);
        let avg_text = self.fmt_avg_ns();
        out.append(avg_text.as_str());
        out.append(delimeter);
        out.append("median");
        out.append(eq);
        let median_text = self.fmt_median_ns();
        out.append(median_text.as_str());
        out.append(delimeter);
        out.append("throughput");
        out.append(eq);
        out.append(throughput);
        out.append("/s");
        assert(out@ =~= report_text(self@, delimeter@, eq@, throughput@));
        out
    }

    /// `fmt_delim` with a space between entries and `=` after each name.
    pub fn fmt(&mut self, throughput: &str) -> (r: String)
        requires
            total(old(self)@) <= u64::MAX,
        ensures
            ascending(final(self)@),
            final(self)@.to_multiset() == old(self)@.to_multiset(),
            r@ == report_text(final(self)@, " "@, "="@, throughput@),
    {
        self.fmt_delim(" ", "=", throughput)
    }
}

} // verus!
