//! The bookkeeping of one busy-loop worker: it keeps a value busy with an
//! addition and a subtraction per iteration, and after every `COUNTER_STEP`
//! iterations it asks for its shared progress counter to be raised by one.

use vstd::prelude::*;

verus! {

/// Number of loop iterations that make one unit on a worker's progress counter.
pub const COUNTER_STEP: usize = 1_000;

/// `std::hint::black_box` on an `i32`: the identity, which the compiler may not
/// see through, so that the busy arithmetic is not optimised away.
#[verifier::external_body]
fn opaque(x: i32) -> (r: i32)
    ensures
        r == x,
{
    std::hint::black_box(x)
}

/// One worker's state between two iterations of its loop.
pub struct Worker {
    x: i32,
    loop_counter: usize,
}

/// The next pending count after one iteration, and whether that iteration
/// completes a unit of `COUNTER_STEP` iterations.
pub open spec fn step(pending: nat) -> (nat, bool) {
    if pending + 1 == COUNTER_STEP {
        (0, true)
    } else {
        (pending + 1, false)
    }
}

/// After `k` iterations from `pending`: the pending count and the number of
/// units completed on the way.
pub open spec fn run(pending: nat, k: nat) -> (nat, nat)
    decreases k,
{
    if k == 0 {
        (pending, 0)
    } else {
        let (p, unit) = step(pending);
        let (q, n) = run(p, (k - 1) as nat);
        (q, n + if unit { 1nat } else { 0nat })
    }
}

impl Worker {
    #[verifier::type_invariant]
    spec fn inv(self) -> bool {
        &&& self.x == 0
        &&& self.loop_counter < COUNTER_STEP
    }

    /// Iterations done since the last completed unit.
    pub closed spec fn pending(self) -> nat {
        self.loop_counter as nat
    }

    /// The value that the loop keeps busy.
    pub closed spec fn value(self) -> int {
        self.x as int
    }

    /// A worker that has not iterated yet.
    pub fn new() -> (w: Worker)
        ensures
            w.pending() == 0,
            w.value() == 0,
    {
        Worker { x: 0, loop_counter: 0 }
    }

    /// Iterations done since the last completed unit.
    pub fn pending_iterations(&self) -> (r: usize)
        ensures
            r == self.pending(),
            r < COUNTER_STEP,
    {
        proof {
            use_type_invariant(self);
        }
        self.loop_counter
    }

    /// The value that the loop keeps busy.
    pub fn busy_value(&self) -> (r: i32)
        ensures
            r == self.value(),
            r == 0,
    {
        proof {
            use_type_invariant(self);
        }
        self.x
    }

    /// One iteration: adds one to the busy value and takes it away again, then
    /// counts the iteration. Returns `true` when the iteration completes a unit
    /// of `COUNTER_STEP` iterations, so that the progress counter is to be raised.
    pub fn tick(&mut self) -> (unit: bool)
        ensures
            (final(self).pending(), unit) == step(old(self).pending()),
            final(self).value() == old(self).value(),
    {
        proof {
            use_type_invariant(&*self);
        }
        let up = opaque(opaque(self.x) + opaque(1));
        let down = opaque(opaque(up) - opaque(1));
        let next = self.loop_counter + 1;
        if next == COUNTER_STEP {
            *self = Worker { x: down, loop_counter: 0 };
            true
        } else {
            *self = Worker { x: down, loop_counter: next };
            false
        }
    }
}

/// Whatever the starting point, every `COUNTER_STEP` iterations complete exactly
/// one unit: after `k` iterations from a pending count `p`, the pending count is
/// `(p + k) % COUNTER_STEP` and `(p + k) / COUNTER_STEP` units have been completed.
pub proof fn lemma_run(p: nat, k: nat)
    requires
        p < COUNTER_STEP,
    ensures
        run(p, k) == ((p + k) % (COUNTER_STEP as nat), (p + k) / (COUNTER_STEP as nat)),
    decreases k,
{
    let s = COUNTER_STEP as nat;
    if k == 0 {
        vstd::arithmetic::div_mod::lemma_small_mod(p, s);
        vstd::arithmetic::div_mod::lemma_basic_div(p as int, s as int);
    } else {
        let (q, unit) = step(p);
        lemma_run(q, (k - 1) as nat);
        if unit {
            assert(p + k == s + (k - 1));
            vstd::arithmetic::div_mod::lemma_mod_add_multiples_vanish((k - 1) as int, s as int);
            vstd::arithmetic::div_mod::lemma_div_plus_one((k - 1) as int, s as int);
        } else {
            assert(q + (k - 1) == p + k);
        }
    }
}

/// A fresh worker that has iterated `k` times has completed `k / COUNTER_STEP`
/// units and has `k % COUNTER_STEP` iterations pending.
pub proof fn lemma_fresh_worker_units(k: nat)
    ensures
        run(0, k) == (k % (COUNTER_STEP as nat), k / (COUNTER_STEP as nat)),
{
    lemma_run(0, k);
}

} // verus!
