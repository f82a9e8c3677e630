//! The text that the program prints: worker names, thread ids and the
//! steps-per-millisecond statistics.

use vstd::prelude::*;

use crate::decimal::{
    decimal, lemma_decimal_reads_as, lemma_reads_as_unique, push_decimal, push_signed_decimal,
    reads_as, signed_decimal,
};

verus! {

/// Per-thread rates and their total, in counter steps per millisecond.
#[derive(Debug, Clone, PartialEq, Eq)]
pub struct Statistics {
    /// `rates[i]` is thread `i`'s count divided by the elapsed milliseconds.
    pub rates: Vec<u128>,
    /// The sum of `rates`.
    pub total: u128,
}

/// The rate of one thread: its count divided by the elapsed milliseconds, rounded down.
pub open spec fn rate(count: u64, millis: u128) -> nat {
    (count as nat / millis as nat) as nat
}

/// The sum of the rates of the threads whose counts are `counts`.
pub open spec fn total_rate(counts: Seq<u64>, millis: u128) -> nat
    decreases counts.len(),
{
    if counts.len() == 0 {
        0
    } else {
        total_rate(counts.drop_last(), millis) + rate(counts.last(), millis)
    }
}

proof fn lemma_total_rate_bound(counts: Seq<u64>, millis: u128)
    requires
        millis > 0,
    ensures
        total_rate(counts, millis) <= counts.len() * (u64::MAX as nat),
    decreases counts.len(),
{
    if counts.len() > 0 {
        lemma_total_rate_bound(counts.drop_last(), millis);
        let c = counts.last() as nat;
        vstd::arithmetic::div_mod::lemma_div_is_ordered_by_denominator(c as int, 1, millis as int);
        assert(c / 1 == c);
        assert(counts.len() * (u64::MAX as nat) == (counts.len() - 1) * (u64::MAX as nat)
            + u64::MAX as nat) by (nonlinear_arith)
            requires
                counts.len() >= 1,
        ;
    }
}

/// A thread's rate is its count divided by the elapsed milliseconds, rounded
/// down: the largest whole number of milliseconds' worth that fits in the count.
pub proof fn lemma_rate_is_floor(count: u64, millis: u128)
    requires
        millis > 0,
    ensures
        rate(count, millis) * millis <= count,
        count < (rate(count, millis) + 1) * millis,
{
    let c = count as int;
    let m = millis as int;
    vstd::arithmetic::div_mod::lemma_fundamental_div_mod(c, m);
    let q = c / m;
    assert(rate(count, millis) == q);
    assert(q * m + c % m == c) by {
        vstd::arithmetic::mul::lemma_mul_is_commutative(q, m);
    }
    assert((q + 1) * m == q * m + m) by (nonlinear_arith);
}

/// The total of one thread's rate is that rate.
pub proof fn lemma_total_rate_single(count: u64, millis: u128)
    ensures
        total_rate(seq![count], millis) == rate(count, millis),
{
    assert(seq![count].drop_last() =~= Seq::<u64>::empty());
    assert(total_rate(Seq::<u64>::empty(), millis) == 0);
    assert(seq![count].last() == count);
}

/// The total over two groups of threads is the sum of the two groups' totals,
/// so the total is the sum of the per-thread rates in any grouping.
pub proof fn lemma_total_rate_additive(a: Seq<u64>, b: Seq<u64>, millis: u128)
    ensures
        total_rate(a + b, millis) == total_rate(a, millis) + total_rate(b, millis),
    decreases b.len(),
{
    if b.len() == 0 {
        assert(a + b =~= a);
    } else {
        lemma_total_rate_additive(a, b.drop_last(), millis);
        assert((a + b).drop_last() =~= a + b.drop_last());
        assert((a + b).last() == b.last());
    }
}

/// Divides each thread's count of steps by the elapsed milliseconds and adds up the rates.
/// With no threads nothing is divided, and the elapsed time may be zero.
pub fn compute_statistics(counts: &Vec<u64>, millis: u128) -> (r: Statistics)
    requires
        counts@.len() > 0 ==> millis > 0,
    ensures
        r.rates@.len() == counts@.len(),
        forall|i: int| 0 <= i < counts@.len() ==> r.rates@[i] == rate(#[trigger] counts@[i], millis),
        r.total == total_rate(counts@, millis),
{
    let mut rates: Vec<u128> = Vec::new();
    let mut total: u128 = 0;
    let mut i: usize = 0;
    while i < counts.len()
        invariant
            counts@.len() > 0 ==> millis > 0,
            i <= counts@.len(),
            rates@.len() == i,
            forall|j: int| 0 <= j < i ==> rates@[j] == rate(#[trigger] counts@[j], millis),
            total == total_rate(counts@.take(i as int), millis),
        decreases counts@.len() - i,
    {
        let r = (counts[i] as u128) / millis;
        proof {
            let next = counts@.take(i + 1);
            assert(next.drop_last() =~= counts@.take(i as int));
            lemma_total_rate_bound(next, millis);
            assert(next.len() * (u64::MAX as nat) <= (usize::MAX as nat) * (u64::MAX as nat))
                by (nonlinear_arith)
                requires
                    next.len() <= usize::MAX,
            ;
            assert((usize::MAX as nat) * (u64::MAX as nat) <= u128::MAX) by (nonlinear_arith)
                requires
                    usize::MAX <= u64::MAX,
            ;
        }
        total = total + r;
        rates.push(r);
        i = i + 1;
    }
    assert(counts@.take(counts@.len() as int) =~= counts@);
    Statistics { rates, total }
}

/// The report line of thread `nr`.
pub open spec fn thread_line_spec(nr: nat, steps: nat, rate: nat) -> Seq<char> {
    "thread number: "@ + decimal(nr) + ", steps: "@ + decimal(steps) + ", steps/ms: "@ + decimal(
        rate,
    ) + ", "@
}

/// The start of the closing line, before the elapsed time.
pub open spec fn total_line_spec(total: nat) -> Seq<char> {
    "Total steps/ms: "@ + decimal(total) + ", total time of test: "@
}

/// The name of worker thread `nr`.
pub open spec fn worker_name_spec(nr: nat) -> Seq<char> {
    "cpu-eater-w-"@ + decimal(nr)
}

/// The line in which a worker announces its operating-system thread id.
pub open spec fn thread_id_line_spec(id: int) -> Seq<char> {
    "threadid: "@ + signed_decimal(id)
}

/// A thread's report line is `thread number: `, the digits of its number,
/// `, steps: `, the digits of its step count, `, steps/ms: `, the digits of its
/// rate, and `, `: each field reads back as the number it reports.
pub proof fn lemma_thread_line_fields(nr: nat, steps: nat, rate: nat)
    ensures
        exists|a: Seq<char>, b: Seq<char>, c: Seq<char>|
            {
                &&& thread_line_spec(nr, steps, rate) == "thread number: "@ + a + ", steps: "@ + b
                    + ", steps/ms: "@ + c + ", "@
                &&& reads_as(a, nr)
                &&& reads_as(b, steps)
                &&& reads_as(c, rate)
            },
{
    lemma_decimal_reads_as(nr);
    lemma_decimal_reads_as(steps);
    lemma_decimal_reads_as(rate);
    let a = decimal(nr);
    let b = decimal(steps);
    let c = decimal(rate);
    assert(thread_line_spec(nr, steps, rate) == "thread number: "@ + a + ", steps: "@ + b
        + ", steps/ms: "@ + c + ", "@);
}

/// The closing line starts with `Total steps/ms: `, the digits of the total and
/// `, total time of test: `; the digits read back as the total.
pub proof fn lemma_total_line_fields(total: nat)
    ensures
        exists|t: Seq<char>|
            total_line_spec(total) == "Total steps/ms: "@ + t + ", total time of test: "@
                && reads_as(t, total),
{
    lemma_decimal_reads_as(total);
    assert(total_line_spec(total) == "Total steps/ms: "@ + decimal(total)
        + ", total time of test: "@);
}

/// Worker `nr` is named `cpu-eater-w-` followed by digits that read back as `nr`.
pub proof fn lemma_worker_name_fields(nr: nat)
    ensures
        exists|t: Seq<char>| worker_name_spec(nr) == "cpu-eater-w-"@ + t && reads_as(t, nr),
{
    lemma_decimal_reads_as(nr);
    assert(worker_name_spec(nr) == "cpu-eater-w-"@ + decimal(nr));
}

/// Different workers get different names.
pub proof fn lemma_worker_names_distinct(nr: nat, other: nat)
    requires
        nr != other,
    ensures
        worker_name_spec(nr) != worker_name_spec(other),
{
    lemma_decimal_reads_as(nr);
    lemma_decimal_reads_as(other);
    let p = "cpu-eater-w-"@;
    if worker_name_spec(nr) == worker_name_spec(other) {
        let x = worker_name_spec(nr);
        assert(x.subrange(p.len() as int, x.len() as int) =~= decimal(nr));
        assert(x.subrange(p.len() as int, x.len() as int) =~= decimal(other));
        lemma_reads_as_unique(decimal(nr), nr, other);
    }
}

/// A thread id announcement is `threadid: ` followed by the digits of the id,
/// with a `-` before them for a negative id; the digits read back as the id's
/// magnitude.
pub proof fn lemma_thread_id_line_fields(id: int)
    ensures
        id >= 0 ==> exists|t: Seq<char>|
            thread_id_line_spec(id) == "threadid: "@ + t && reads_as(t, id as nat),
        id < 0 ==> exists|t: Seq<char>|
            thread_id_line_spec(id) == "threadid: -"@ + t && reads_as(t, (-id) as nat),
{
    if id >= 0 {
        lemma_decimal_reads_as(id as nat);
        assert(thread_id_line_spec(id) == "threadid: "@ + decimal(id as nat));
    } else {
        lemma_decimal_reads_as((-id) as nat);
        reveal_strlit("threadid: ");
        reveal_strlit("threadid: -");
        assert(thread_id_line_spec(id) =~= "threadid: -"@ + decimal((-id) as nat));
    }
}

/// The report line of thread `nr`, which counted `steps` at `rate` steps per millisecond.
pub fn thread_line(nr: usize, steps: u64, rate: u128) -> (r: String)
    ensures
        r@ == thread_line_spec(nr as nat, steps as nat, rate as nat),
{
    let mut s = String::from_str("thread number: ");
    push_decimal(&mut s, nr as u128);
    s.append(", steps: ");
    push_decimal(&mut s, steps as u128);
    s.append(", steps/ms: ");
    push_decimal(&mut s, rate);
    s.append(", ");
    s
}

/// The start of the closing line for a total of `total` steps per millisecond;
/// the elapsed time follows it.
pub fn total_line(total: u128) -> (r: String)
    ensures
        r@ == total_line_spec(total as nat),
{
    let mut s = String::from_str("Total steps/ms: ");
    push_decimal(&mut s, total);
    s.append(", total time of test: ");
    s
}

/// The report: one line per thread, in thread order, then the start of the
/// closing line with the total.
pub fn statistics_report(counts: &Vec<u64>, millis: u128) -> (r: Vec<String>)
    requires
        counts@.len() > 0 ==> millis > 0,
    ensures
        r@.len() == counts@.len() + 1,
        forall|i: int|
            0 <= i < counts@.len() ==> (#[trigger] r@[i])@ == thread_line_spec(
                i as nat,
                counts@[i] as nat,
                rate(counts@[i], millis),
            ),
        r@[counts@.len() as int]@ == total_line_spec(total_rate(counts@, millis)),
{
    let stats = compute_statistics(counts, millis);
    let mut lines: Vec<String> = Vec::new();
    let mut i: usize = 0;
    while i < counts.len()
        invariant
            i <= counts@.len(),
            stats.rates@.len() == counts@.len(),
            forall|j: int| 0 <= j < counts@.len() ==> stats.rates@[j] == rate(#[trigger] counts@[j], millis),
            lines@.len() == i,
            forall|j: int|
                0 <= j < i ==> (#[trigger] lines@[j])@ == thread_line_spec(
                    j as nat,
                    counts@[j] as nat,
                    rate(counts@[j], millis),
                ),
        decreases counts@.len() - i,
    {
        let line = thread_line(i, counts[i], stats.rates[i]);
        lines.push(line);
        i = i + 1;
    }
    lines.push(total_line(stats.total));
    lines
}

/// The name of worker thread `nr`.
pub fn worker_name(nr: usize) -> (r: String)
    ensures
        r@ == worker_name_spec(nr as nat),
{
    let mut s = String::from_str("cpu-eater-w-");
    push_decimal(&mut s, nr as u128);
    s
}

/// The line that announces the thread id `id`.
pub fn thread_id_line(id: i128) -> (r: String)
    ensures
        r@ == thread_id_line_spec(id as int),
{
    let mut s = String::from_str("threadid: ");
    push_signed_decimal(&mut s, id);
    s
}

/// `os_id::thread::get_raw_id`: the operating system's id of the calling
/// thread, widened to `i128`. Nothing is stated of its value, which the
/// operating system chooses.
#[verifier::external_body]
fn raw_thread_id() -> (id: i128) {
    i128::from(os_id::thread::get_raw_id())
}

/// The line in which the calling thread announces its operating-system id.
pub fn current_thread_id_line() -> (r: String)
    ensures
        exists|id: i128| r@ == thread_id_line_spec(id as int),
{
    let id = raw_thread_id();
    thread_id_line(id)
}

} // verus!
