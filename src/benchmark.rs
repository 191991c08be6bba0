//! The coherency ping-pong benchmark: two threads, each pinned to a core,
//! hand one shared flag back and forth so that its cache line crosses the
//! mesh between the two cores.
use vstd::prelude::*;
use std::sync::{Barrier, BarrierWaitResult};
use std::sync::atomic::{AtomicBool, Ordering};

verus! {

#[verifier::external_type_specification]
#[verifier::external_body]
pub struct ExBarrier(Barrier);

#[verifier::external_type_specification]
#[verifier::external_body]
pub struct ExBarrierWaitResult(BarrierWaitResult);

/// Relies on std's `Barrier::new`: a rendezvous for `n` threads, built
/// without failing.
pub assume_specification[ Barrier::new ](n: usize) -> Barrier;

/// Relies on std's `Barrier::wait`: returns once `n` threads have called it.
pub assume_specification[ Barrier::wait ](b: &Barrier) -> BarrierWaitResult;

/// The flag value that the ping side hands over.
pub const PING: bool = false;

/// The flag value that the pong side hands over.
pub const PONG: bool = true;

/// The side of the exchange that a thread plays.
#[derive(Clone, Copy, Debug, PartialEq, Eq)]
pub enum Side {
    /// Turns the flag from `PONG` to `PING`; it is the side that is timed.
    Ping,
    /// Turns the flag from `PING` to `PONG`.
    Pong,
}

/// The flag value that a side waits for, and the value it turns it to.
pub open spec fn transition_of(side: Side) -> (bool, bool) {
    match side {
        Side::Ping => (PONG, PING),
        Side::Pong => (PING, PONG),
    }
}

impl Side {
    /// The flag value that this side waits for, and the value it turns it to:
    /// the ping side turns `PONG` into `PING`, the pong side `PING` into `PONG`.
    pub fn transition(self) -> (r: (bool, bool))
        ensures
            r == transition_of(self),
    {
        match self {
            Side::Ping => (PONG, PING),
            Side::Pong => (PING, PONG),
        }
    }
}

/// One thread's progress through its share of the exchange: how many
/// transitions of the flag it has made, and how many it is to make.
#[derive(Debug)]
pub struct Exchanger {
    pub side: Side,
    pub done: u64,
    pub total: u64,
}

impl Exchanger {
    pub open spec fn wf(&self) -> bool {
        self.done <= self.total
    }

    /// A side that is to make `num_round_trips` transitions for each of
    /// `num_samples` samples.
    pub fn new(side: Side, num_round_trips: u32, num_samples: u32) -> (r: Exchanger)
        ensures
            r.side == side,
            r.done == 0,
            r.total == num_round_trips * num_samples,
            r.wf(),
    {
        assert((num_round_trips as u64) * (num_samples as u64) <= 0xffff_ffff * 0xffff_ffffu64)
            by (nonlinear_arith)
            requires
                num_round_trips <= 0xffff_ffffu32,
                num_samples <= 0xffff_ffffu32,
        ;
        Exchanger { side, done: 0, total: (num_round_trips as u64) * (num_samples as u64) }
    }

    /// Whether the side has made all of its transitions.
    pub fn is_finished(&self) -> (r: bool)
        ensures
            r == (self.done >= self.total),
    {
        self.done >= self.total
    }
}

/// The count of a side that starts at `done` of `total` transitions after
/// the attempts whose outcomes are `outcomes`, attempts being made only
/// while the side is unfinished (as `State::exchange` requires).
pub open spec fn count_after(done: nat, total: nat, outcomes: Seq<bool>) -> nat
    decreases outcomes.len(),
{
    if outcomes.len() == 0 || done >= total {
        done
    } else {
        count_after(
            done + if outcomes[0] {
                1nat
            } else {
                0nat
            },
            total,
            outcomes.drop_first(),
        )
    }
}

/// How many of the outcomes are successes.
pub open spec fn successes(outcomes: Seq<bool>) -> nat
    decreases outcomes.len(),
{
    if outcomes.len() == 0 {
        0
    } else {
        (if outcomes[0] {
            1nat
        } else {
            0nat
        }) + successes(outcomes.drop_first())
    }
}

proof fn lemma_count_after(done: nat, total: nat, outcomes: Seq<bool>)
    requires
        done <= total,
    ensures
        count_after(done, total, outcomes) == if done + successes(outcomes) < total {
            done + successes(outcomes)
        } else {
            total
        },
    decreases outcomes.len(),
{
    if outcomes.len() > 0 && done < total {
        lemma_count_after(
            done + if outcomes[0] {
                1nat
            } else {
                0nat
            },
            total,
            outcomes.drop_first(),
        );
    }
}

/// Whatever the other thread does, a side that starts fresh with
/// `num_round_trips` round trips for each of `num_samples` samples has, after
/// any run of attempts, made as many transitions as attempts succeeded, but
/// never more than its share; it is finished exactly when it has made its
/// whole share, `num_round_trips * num_samples`, which is the same on every run.
pub proof fn lemma_side_makes_its_share(num_round_trips: u32, num_samples: u32, outcomes: Seq<bool>)
    ensures
        count_after(0, (num_round_trips * num_samples) as nat, outcomes) == if successes(outcomes)
            < num_round_trips * num_samples {
            successes(outcomes)
        } else {
            (num_round_trips * num_samples) as nat
        },
        count_after(0, (num_round_trips * num_samples) as nat, outcomes) <= num_round_trips
            * num_samples,
{
    assert(num_round_trips * num_samples >= 0) by (nonlinear_arith);
    lemma_count_after(0, (num_round_trips * num_samples) as nat, outcomes);
}

/// What the two threads share: the rendezvous before they start, and the
/// flag. The flag starts at `PING`, so the pong side moves first.
pub struct State {
    barrier: Barrier,
    flag: AtomicBool,
}

impl State {
    pub fn new() -> Self {
        State { barrier: Barrier::new(2), flag: AtomicBool::new(PING) }
    }

    /// Waits until the other thread has arrived too.
    pub fn rendezvous(&self) {
        let _ = self.barrier.wait();
    }

    /// One attempt by `ex`'s side to make its transition of the flag, a
    /// compare-and-swap from `transition_of(side).0` to `transition_of(side).1`.
    /// Whether the attempt succeeds depends on the other thread; the side's
    /// count of transitions grows by one exactly when it does.
    pub fn exchange(&self, ex: &mut Exchanger) -> (swapped: bool)
        requires
            old(ex).done < old(ex).total,
        ensures
            final(ex).side == old(ex).side,
            final(ex).total == old(ex).total,
            final(ex).done == old(ex).done + (if swapped {
                1int
            } else {
                0int
            }),
            final(ex).wf(),
    {
        let (from, to) = ex.side.transition();
        let swapped = self.flag.compare_exchange(from, to, Ordering::Relaxed, Ordering::Relaxed).is_ok();
        if swapped {
            ex.done = ex.done + 1;
        }
        swapped
    }
}

} // verus!
