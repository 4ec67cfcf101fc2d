//! The bounded pool of training workers: how jobs are handed out and how their
//! progress is passed on.

use vstd::prelude::*;

use crate::numbers::decimal;
use crate::numbers::decimal_of;
use crate::progress::BuildProgress;
use crate::util::at_least_one;
use crate::util::raised_to_one;

verus! {

pub type JobId = u64;

/// The number of workers of a pool: at least one.
pub fn pool_size(worker_count: usize) -> (r: usize)
    ensures
        r == at_least_one(worker_count),
{
    raised_to_one(worker_count)
}

/// How many jobs may wait for the dispatcher: two for each worker.
pub fn queue_capacity(workers: usize) -> (r: usize)
    ensures
        r == if 2 * workers > usize::MAX {
            usize::MAX as int
        } else {
            2 * workers
        },
{
    if workers > usize::MAX / 2 {
        usize::MAX
    } else {
        2 * workers
    }
}

/// The name of the `i`-th thread of the pool.
pub fn thread_name(i: usize) -> (r: String)
    ensures
        r@ == "capacitor-train-"@ + decimal(i as nat),
{
    let mut r = "capacitor-train-".to_owned();
    let number = decimal_of(i as u64);
    r.append(number.as_str());
    r
}

/// Numbers the jobs in the order in which they are submitted.
pub struct JobCounter {
    next: JobId,
}

impl JobCounter {
    /// The number that the next job gets.
    pub closed spec fn next(&self) -> nat {
        self.next as nat
    }

    /// A counter that begins with zero.
    pub fn new() -> (r: Self)
        ensures
            r.next() == 0,
    {
        JobCounter { next: 0 }
    }

    /// Numbers a job. After the largest number comes zero again.
    pub fn submitted(&mut self) -> (r: JobId)
        ensures
            r == old(self).next(),
            final(self).next() == if r == u64::MAX {
                0
            } else {
                r as nat + 1
            },
    {
        let id: JobId = self.next;
        self.next = self.next.wrapping_add(1);
        id
    }
}

/// Hands jobs to the workers in turn.
pub struct Dispatcher {
    workers: usize,
    turn: usize,
}

/// A turn `n` turns later; turns are counted in machine words, which wrap.
pub open spec fn later(turn: nat, n: nat) -> nat {
    if turn + n > usize::MAX {
        (turn + n - usize::MAX - 1) as nat
    } else {
        turn + n
    }
}

impl Dispatcher {
    /// The number of workers.
    pub closed spec fn size(&self) -> nat {
        self.workers as nat
    }

    /// How many turns have been taken.
    pub closed spec fn turns(&self) -> nat {
        self.turn as nat
    }

    /// There is a worker to hand jobs to.
    pub open spec fn wf(&self) -> bool {
        self.size() >= 1
    }

    /// A dispatcher for a pool of the given size.
    pub fn new(workers: usize) -> (r: Self)
        requires
            workers >= 1,
        ensures
            r.wf(),
            r.size() == workers,
            r.turns() == 0,
    {
        Dispatcher { workers, turn: 0 }
    }

    /// The worker whose turn it is.
    pub fn target(&self) -> (r: usize)
        requires
            self.wf(),
        ensures
            r == self.turns() % self.size(),
            r < self.size(),
    {
        self.turn % self.workers
    }

    /// Goes on to the next worker. Where the worker could not take the job,
    /// because it has stopped, the one after it is passed over too.
    pub fn advance(&mut self, taken: bool)
        ensures
            final(self).size() == old(self).size(),
            final(self).turns() == later(
                old(self).turns(),
                if taken {
                    1
                } else {
                    2
                },
            ),
    {
        if !taken {
            self.turn = self.turn.wrapping_add(1);
        }
        self.turn = self.turn.wrapping_add(1);
    }
}

/// Consecutive jobs go to consecutive workers, and after the last worker to
/// the first again. (Not where the count of turns wraps around.)
pub proof fn law_round_robin(turn: nat, workers: nat)
    requires
        workers >= 1,
        turn < usize::MAX,
    ensures
        later(turn, 1) % workers == (if turn % workers + 1 == workers {
            0
        } else {
            turn % workers + 1
        }),
{
    let q = turn / workers;
    let r = turn % workers;
    assert(turn == workers * q + r) by {
        vstd::arithmetic::div_mod::lemma_fundamental_div_mod(turn as int, workers as int);
    }
    assert(later(turn, 1) == turn + 1);
    if r + 1 == workers {
        assert(turn + 1 == (q + 1) * workers) by (nonlinear_arith)
            requires
                turn == workers * q + r,
                r + 1 == workers,
        ;
        vstd::arithmetic::div_mod::lemma_fundamental_div_mod_converse(
            turn as int + 1,
            workers as int,
            q as int + 1,
            0,
        );
    } else {
        assert(turn + 1 == q * workers + (r + 1)) by (nonlinear_arith)
            requires
                turn == workers * q + r,
        ;
        vstd::arithmetic::div_mod::lemma_fundamental_div_mod_converse(
            turn as int + 1,
            workers as int,
            q as int,
            r as int + 1,
        );
    }
}

/// What is passed on of a job's progress: current and total of the experts,
/// but nothing where there are none to build.
pub fn log_progress(current: usize, total: usize) -> (r: Option<(usize, usize)>)
    ensures
        r == if total == 0 {
            None::<(usize, usize)>
        } else {
            Some((current, total))
        },
{
    if total == 0 {
        None
    } else {
        Some((current, total))
    }
}

/// What is passed on of a build report: only how many experts are built.
pub fn forwarded_progress(event: &BuildProgress) -> (r: Option<(usize, usize)>)
    ensures
        r == match *event {
            BuildProgress::BuildExperts { current, total } => if total == 0 {
                None
            } else {
                Some((current, total))
            },
            _ => None,
        },
{
    match event {
        BuildProgress::BuildExperts { current, total } => log_progress(*current, *total),
        _ => None,
    }
}

/// Turns are counted one by one, and after the largest word comes zero: going on
/// by some turns and then by more is going on by all of them.
pub proof fn law_later(turn: nat, a: nat, b: nat)
    requires
        turn <= usize::MAX,
        a + b <= usize::MAX,
    ensures
        later(turn, 0) == turn,
        turn < usize::MAX ==> later(turn, 1) == turn + 1,
        later(usize::MAX as nat, 1) == 0,
        later(later(turn, a), b) == later(turn, a + b),
{
}

} // verus!
