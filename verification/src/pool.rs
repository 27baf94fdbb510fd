//! A pool of machines behind opaque handles, advanced together on one
//! fixed-rate clock.  Handles carry a generation: destroying a machine
//! bumps its slot's generation, so a stale handle held by a caller is
//! detected exactly instead of silently touching a reused slot.

use vstd::prelude::*;

use crate::addr::Addr;
use crate::addr::PROGRAM_START;
use crate::context::Context;
use crate::context::MachineView;
use crate::context::can_step_err;
use crate::context::is_run;
use crate::context::ticked;
use crate::context::ticked_after_steps;
use crate::font::spec_font;
use crate::syscalls::Syscalls;

verus! {

/// An opaque handle to one machine in a pool: a slot index paired with
/// the generation the slot had when the machine was created.
#[derive(Clone, Copy, PartialEq, Eq, Structural, Debug)]
pub struct ContextId {
    /// The slot the machine lives in.
    pub index: usize,
    /// The slot's generation at creation time.
    pub generation: u64,
}

/// The state of a freshly loaded machine: the power-on state — font at
/// the base of memory, everything else zero — with the program image
/// copied in at the load address.
pub open spec fn loaded_view(m: MachineView, program: Seq<u8>) -> bool {
    &&& m.v == Seq::new(16, |k: int| 0u8)
    &&& m.i == 0
    &&& m.pc == PROGRAM_START
    &&& m.stack.len() == 0
    &&& m.delay == 0
    &&& m.sound == 0
    &&& !m.playing
    &&& m.mem.len() == 4096
    &&& forall|a: int| 0 <= a < 80 ==> m.mem[a] == spec_font()[a]
    &&& forall|a: int| 80 <= a < PROGRAM_START ==> m.mem[a] == 0
    &&& forall|a: int|
        PROGRAM_START <= a < PROGRAM_START + program.len() ==> m.mem[a] == program[a
            - PROGRAM_START]
    &&& forall|a: int| PROGRAM_START + program.len() <= a < 4096 ==> m.mem[a] == 0
}

/// A growable collection of machines, each addressed by a `ContextId`.
pub struct ContextPool<S: Syscalls> {
    /// One slot per machine ever created; destroyed slots hold `None`.
    slots: Vec<Option<Context<S>>>,
    /// Each slot's generation, bumped when its machine is destroyed.
    generations: Vec<u64>,
    /// Indices of the currently empty slots.
    free: Vec<usize>,
}

impl<S: Syscalls> ContextPool<S> {
    /// The pool's bookkeeping is consistent: one generation per slot,
    /// and the free list names only empty slots.
    pub closed spec fn wf(self) -> bool {
        &&& self.generations@.len() == self.slots@.len()
        &&& forall|k: int|
            0 <= k < self.free@.len() ==> self.free@[k] < self.slots@.len() && self.slots@[
                self.free@[k] as int
            ] is None
        &&& forall|k1: int, k2: int|
            0 <= k1 < k2 < self.free@.len() ==> self.free@[k1] != self.free@[k2]
    }

    /// Whether `id` names a machine that is still alive.
    pub closed spec fn valid(self, id: ContextId) -> bool {
        &&& id.index < self.slots@.len()
        &&& self.generations@[id.index as int] == id.generation
        &&& self.slots@[id.index as int] is Some
    }

    /// The machine behind a handle.
    pub closed spec fn machine(self, id: ContextId) -> MachineView {
        self.slots@[id.index as int]->Some_0@
    }

    /// How many slots the pool has ever allocated.
    pub closed spec fn num_slots(self) -> nat {
        self.slots@.len()
    }

    /// How many of the first `n` slots hold a live machine.
    spec fn live_in_prefix(self, n: int) -> int
        decreases n,
    {
        if n <= 0 {
            0
        } else {
            self.live_in_prefix(n - 1) + if self.slots@[n - 1] is Some {
                1int
            } else {
                0int
            }
        }
    }

    /// How many machines are alive, as the contracts count them.
    pub closed spec fn spec_live_count(self) -> int {
        self.live_in_prefix(self.slots@.len() as int)
    }

    /// Pools whose slots are live in the same places count the same.
    proof fn lemma_live_congruence(self, other: Self, n: int)
        requires
            forall|k: int| 0 <= k < n ==> (self.slots@[k] is Some <==> other.slots@[k] is Some),
        ensures
            self.live_in_prefix(n) == other.live_in_prefix(n),
        decreases n,
    {
        if n > 0 {
            self.lemma_live_congruence(other, n - 1);
        }
    }

    /// Changing one slot changes the count by that slot's contribution.
    proof fn lemma_live_set(self, other: Self, j: int, n: int)
        requires
            0 <= j,
            forall|k: int| 0 <= k < n && k != j ==> (self.slots@[k] is Some <==> other.slots@[k] is Some),
        ensures
            other.live_in_prefix(n) == self.live_in_prefix(n) + (if j < n {
                (if other.slots@[j] is Some {
                    1int
                } else {
                    0int
                }) - (if self.slots@[j] is Some {
                    1int
                } else {
                    0int
                })
            } else {
                0int
            }),
        decreases n,
    {
        if n > 0 {
            self.lemma_live_set(other, j, n - 1);
        }
    }

    /// An empty pool.
    pub fn new() -> (r: ContextPool<S>)
        ensures
            r.wf(),
            r.num_slots() == 0,
    {
        ContextPool { slots: Vec::new(), generations: Vec::new(), free: Vec::new() }
    }

    /// Create a machine for `program`, owning `syscalls`, and hand back
    /// its handle.  The load is rejected, and nothing is created, when
    /// the image would run past the end of memory.
    pub fn create_context(&mut self, syscalls: S, program: &[u8]) -> (r: Result<ContextId, ()>)
        requires
            old(self).wf(),
        ensures
            final(self).wf(),
            r is Ok <==> PROGRAM_START + program@.len() <= 4096,
            r is Err ==> *final(self) == *old(self),
            r matches Ok(id) ==> final(self).valid(id) && loaded_view(
                final(self).machine(id),
                program@,
            ),
            r matches Ok(id) ==> forall|other: ContextId|
                other.index != id.index && old(self).valid(other) ==> final(self).valid(other)
                    && final(self).machine(other) == old(self).machine(other),
            r matches Ok(id) ==> forall|other: ContextId|
                old(self).valid(other) ==> other != id,
            r is Ok ==> final(self).spec_live_count() == old(self).spec_live_count() + 1,
    {
        let mut ctx = Context::new(syscalls);
        match ctx.memory.copy_from_slice(Addr(PROGRAM_START), program) {
            Err(_) => Err(()),
            Ok(_) => {
                match self.free.pop() {
                    Some(idx) => {
                        self.slots.set(idx, Some(ctx));
                        let generation = self.generations[idx];
                        proof {
                            old(self).lemma_live_set(*self, idx as int, self.slots@.len() as int);
                        }
                        Ok(ContextId { index: idx, generation })
                    },
                    None => {
                        let idx = self.slots.len();
                        self.slots.push(Some(ctx));
                        self.generations.push(0);
                        proof {
                            old(self).lemma_live_congruence(*self, idx as int);
                        }
                        Ok(ContextId { index: idx, generation: 0 })
                    },
                }
            },
        }
    }

    /// Destroy the machine behind `id`.  A stale or never-valid handle
    /// is a hard error: destroying twice does not silently succeed.
    pub fn destroy_context(&mut self, id: ContextId) -> (r: Result<(), ()>)
        requires
            old(self).wf(),
        ensures
            final(self).wf(),
            r is Ok <==> old(self).valid(id),
            r is Err ==> *final(self) == *old(self),
            r is Ok ==> !final(self).valid(id),
            r is Ok ==> forall|other: ContextId|
                other.index != id.index && old(self).valid(other) ==> final(self).valid(other)
                    && final(self).machine(other) == old(self).machine(other),
            r is Ok ==> final(self).spec_live_count() == old(self).spec_live_count() - 1,
    {
        if id.index < self.slots.len() && self.generations[id.index] == id.generation
            && self.slots[id.index].is_some() {
            self.slots.set(id.index, None);
            let generation = self.generations[id.index];
            self.generations.set(id.index, generation.wrapping_add(1));
            self.free.push(id.index);
            proof {
                assert(self.generations@[id.index as int] != id.generation || id.generation
                    == id.generation.wrapping_add(1));
                assert(id.generation != id.generation.wrapping_add(1));
                old(self).lemma_live_set(*self, id.index as int, self.slots@.len() as int);
            }
            Ok(())
        } else {
            Err(())
        }
    }

    /// Whether `id` still names a live machine.
    pub fn is_alive(&self, id: ContextId) -> (r: bool)
        requires
            self.wf(),
        ensures
            r == self.valid(id),
    {
        id.index < self.slots.len() && self.generations[id.index] == id.generation
            && self.slots[id.index].is_some()
    }

    /// How many machines are alive.
    pub fn live_count(&self) -> (r: usize)
        ensures
            r == self.spec_live_count(),
            r <= self.num_slots(),
    {
        let mut count: usize = 0;
        let mut k: usize = 0;
        while k < self.slots.len()
            invariant
                k <= self.slots@.len(),
                count <= k,
                count == self.live_in_prefix(k as int),
            decreases self.slots@.len() - k,
        {
            if self.slots[k].is_some() {
                count = count + 1;
            }
            k = k + 1;
        }
        count
    }

    /// One shared clock tick: advance every live machine by
    /// `steps_per_tick` instructions — fewer only when a step blocks on
    /// a key or hits a fatal instruction, as `try_step_many` stops —
    /// then tick its timers once.  Every machine behind a valid handle
    /// afterwards is its old self advanced exactly that way; which
    /// slots are alive, and every generation, is unchanged.
    pub fn tick_all(&mut self, steps_per_tick: usize)
        requires
            old(self).wf(),
        ensures
            final(self).wf(),
            final(self).num_slots() == old(self).num_slots(),
            final(self).spec_live_count() == old(self).spec_live_count(),
            forall|id: ContextId| old(self).valid(id) <==> final(self).valid(id),
            forall|id: ContextId|
                old(self).valid(id) ==> #[trigger] ticked_after_steps(
                    old(self).machine(id),
                    final(self).machine(id),
                    steps_per_tick as nat,
                ),
    {
        let mut k: usize = 0;
        while k < self.slots.len()
            invariant
                old(self).wf(),
                k <= self.slots@.len(),
                self.slots@.len() == old(self).slots@.len(),
                self.generations == old(self).generations,
                self.free == old(self).free,
                forall|j: int|
                    0 <= j < old(self).slots@.len() ==> (self.slots@[j] is Some <==> old(
                        self,
                    ).slots@[j] is Some),
                forall|id: ContextId| old(self).valid(id) <==> self.valid(id),
                forall|j: int|
                    0 <= j < k && old(self).slots@[j] is Some ==> #[trigger] ticked_after_steps(
                        (old(self).slots@[j]->Some_0)@,
                        (self.slots@[j]->Some_0)@,
                        steps_per_tick as nat,
                    ),
                forall|j: int|
                    k <= j < old(self).slots@.len() ==> self.slots@[j] == old(self).slots@[j],
            decreases self.slots@.len() - k,
        {
            let slot = self.slots.remove(k);
            match slot {
                Some(mut ctx) => {
                    let ghost before = ctx@;
                    let stepped = ctx.try_step_many(steps_per_tick);
                    let ghost mid = ctx@;
                    ctx.step_clocks();
                    proof {
                        let run = choose|trace: Seq<MachineView>|
                            trace.len() == stepped + 1 && trace.first() == before && is_run(trace)
                                && trace.last() == mid;
                        assert(1 <= run.len() <= steps_per_tick as nat + 1);
                        assert(run.len() < steps_per_tick as nat + 1 ==> can_step_err(run.last()));
                        assert(ticked(run.last(), ctx@));
                        assert(ticked_after_steps(before, ctx@, steps_per_tick as nat));
                    }
                    self.slots.insert(k, Some(ctx));
                },
                None => {
                    self.slots.insert(k, None);
                },
            }
            k = k + 1;
        }
        proof {
            old(self).lemma_live_congruence(*self, self.slots@.len() as int);
            assert forall|id: ContextId| old(self).valid(id) implies #[trigger] ticked_after_steps(
                old(self).machine(id),
                self.machine(id),
                steps_per_tick as nat,
            ) by {
                assert(0 <= id.index < self.slots@.len());
                assert(old(self).slots@[id.index as int] is Some);
            }
        }
    }
}

/// How many clock ticks are due at `now_ms`, with catch-up clamped: a
/// stall longer than `max_lag_ms` is forgiven rather than replayed as a
/// burst of ticks.  Returns the tick count and the next deadline.
pub fn schedule_ticks(now_ms: u64, next_ms: u64, period_ms: u64, max_lag_ms: u64) -> (r: (
    u64,
    u64,
))
    requires
        0 < period_ms,
        now_ms < 0x1000_0000_0000_0000,
        next_ms < 0x1000_0000_0000_0000,
        period_ms < 0x1000_0000_0000_0000,
    ensures
        ({
            let base = if next_ms + max_lag_ms < now_ms {
                (now_ms - max_lag_ms) as u64
            } else {
                next_ms
            };
            &&& (r.0 == 0 <==> now_ms < base)
            &&& now_ms < base ==> r.1 == base
            &&& base <= now_ms ==> r.0 == (now_ms - base) / (period_ms as int) + 1 && r.1 == base
                + r.0 * period_ms
            &&& base <= now_ms ==> now_ms < r.1 <= now_ms + period_ms
        }),
{
    let base: u64 = if max_lag_ms < now_ms && next_ms < now_ms - max_lag_ms {
        now_ms - max_lag_ms
    } else {
        next_ms
    };
    if now_ms < base {
        (0, base)
    } else {
        let q = (now_ms - base) / period_ms;
        let ticks = q + 1;
        proof {
            let d = (now_ms - base) as int;
            let p = period_ms as int;
            vstd::arithmetic::div_mod::lemma_fundamental_div_mod(d, p);
            vstd::arithmetic::div_mod::lemma_mod_bound(d, p);
            vstd::arithmetic::div_mod::lemma_div_pos_is_pos(d, p);
            assert(ticks * period_ms == p * (d / p) + p) by (nonlinear_arith)
                requires
                    ticks == d / p + 1,
                    p == period_ms,
                    0 <= d / p,
                    p > 0,
            ;
        }
        let next = base + ticks * period_ms;
        (ticks, next)
    }
}

} // verus!
