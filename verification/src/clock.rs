//! Slot and epoch timekeeping: slots of 30 seconds from a genesis time,
//! epochs of 32 slots.

use vstd::prelude::*;
use crate::primitives::system_unix_secs;

verus! {

/// Length of a slot in seconds.
pub const SLOT_SECONDS: u64 = 30;

/// Number of slots in an epoch.
pub const EPOCH_SLOTS: u64 = 32;

/// A clock of slots counted from `genesis` (Unix seconds).
#[derive(Clone, Copy)]
pub struct SlotClock {
    pub genesis: u64,
}

/// The slot that time `ts` falls in for a clock started at `genesis`;
/// times before genesis fall in slot 0.
pub open spec fn slot_at(genesis: u64, ts: u64) -> int {
    if ts >= genesis {
        (ts - genesis) / (SLOT_SECONDS as int)
    } else {
        0
    }
}

/// The start of slot `k`.
pub open spec fn slot_start(genesis: u64, k: int) -> int {
    genesis + k * (SLOT_SECONDS as int)
}

/// The start of the slot after the one that `now` falls in.
pub open spec fn next_slot_start_at(genesis: u64, now: u64) -> int {
    genesis + (slot_at(genesis, now) + 1) * (SLOT_SECONDS as int)
}

/// The current time in whole seconds since the Unix epoch; `None` where
/// the clock reads earlier than the epoch. Nothing is known of the reading:
/// it is the time.
pub fn now_secs() -> Option<u64> {
    system_unix_secs()
}

/// Seconds to wait from `now` until `next_unix`; none once it has passed.
pub fn secs_until(next_unix: u64, now: u64) -> (res: u64)
    ensures
        res == (if next_unix > now { next_unix - now } else { 0 }),
{
    if next_unix > now {
        next_unix - now
    } else {
        0
    }
}

impl SlotClock {
    /// A clock whose genesis is the start of the 30-second period that
    /// `now` falls in.
    pub fn new_aligned_at(now: u64) -> (clock: Self)
        ensures
            clock.genesis == now - now % SLOT_SECONDS,
            clock.genesis % SLOT_SECONDS == 0,
            clock.genesis <= now < clock.genesis + SLOT_SECONDS,
            slot_at(clock.genesis, now) == 0,
    {
        SlotClock { genesis: now - now % SLOT_SECONDS }
    }

    /// A clock aligned to the current time (see `new_aligned_at`); `None`
    /// where the clock reads earlier than the Unix epoch.
    pub fn new_aligned_now() -> (clock: Option<Self>)
        ensures
            clock matches Some(c) ==> c.genesis % SLOT_SECONDS == 0,
            clock matches Some(c) ==> exists|now: u64| c == Self::new_aligned_at_spec(now),
    {
        match now_secs() {
            Some(now) => {
                let clock = Self::new_aligned_at(now);
                assert(clock == Self::new_aligned_at_spec(now));
                Some(clock)
            },
            None => None,
        }
    }

    /// The clock that `new_aligned_at(now)` returns.
    pub open spec fn new_aligned_at_spec(now: u64) -> Self {
        SlotClock { genesis: (now - now % SLOT_SECONDS) as u64 }
    }

    /// The slot that time `ts` falls in (0 before genesis).
    pub fn slot_of(&self, ts: u64) -> (slot: u64)
        ensures
            slot == slot_at(self.genesis, ts),
    {
        (if ts >= self.genesis { ts - self.genesis } else { 0 }) / SLOT_SECONDS
    }

    /// The slot that the current time falls in; `None` where the clock
    /// reads earlier than the Unix epoch.
    pub fn now_slot(&self) -> (slot: Option<u64>)
        ensures
            slot matches Some(s) ==> exists|now: u64| s == slot_at(self.genesis, now),
    {
        match now_secs() {
            Some(now) => Some(self.slot_of(now)),
            None => None,
        }
    }

    /// The epoch that a slot belongs to.
    pub fn epoch_of_slot(&self, slot: u64) -> (epoch: u64)
        ensures
            epoch == slot / EPOCH_SLOTS,
    {
        slot / EPOCH_SLOTS
    }

    /// The position of a slot within its epoch.
    pub fn slot_in_epoch(&self, slot: u64) -> (pos: u64)
        ensures
            pos == slot % EPOCH_SLOTS,
    {
        slot % EPOCH_SLOTS
    }

    /// The start of the slot after the one that `now` falls in, `None` where
    /// that time does not fit in a `u64`.
    pub fn next_slot_start_from(&self, now: u64) -> (next: Option<u64>)
        ensures
            match next {
                Some(t) => t == next_slot_start_at(self.genesis, now),
                None => next_slot_start_at(self.genesis, now) > u64::MAX,
            },
            next matches Some(t) ==> t > now && (t - self.genesis) % (SLOT_SECONDS as int) == 0,
            next matches Some(t) ==> now >= self.genesis ==> t - now <= SLOT_SECONDS,
    {
        let slot = self.slot_of(now);
        let room = u64::MAX - self.genesis;
        if slot + 1 > room / SLOT_SECONDS {
            proof {
                assert((slot + 1) * 30 > room) by (nonlinear_arith)
                    requires slot + 1 > room / 30;
            }
            None
        } else {
            proof {
                assert((slot + 1) * 30 <= room) by (nonlinear_arith)
                    requires slot + 1 <= room / 30;
            }
            let t = self.genesis + (slot + 1) * SLOT_SECONDS;
            Some(t)
        }
    }

    /// The start of the next slot after the current time (see
    /// `next_slot_start_from`); `None` where that time does not fit in a
    /// `u64` or the clock reads earlier than the Unix epoch.
    pub fn next_slot_start(&self) -> (next: Option<u64>)
        ensures
            next matches Some(t) ==> exists|now: u64| t == next_slot_start_at(self.genesis, now),
    {
        match now_secs() {
            Some(now) => self.next_slot_start_from(now),
            None => None,
        }
    }
}

/// The finalized height after a block at (`slot`, `epoch`): at the first
/// slot of an epoch, everything up to the last block of the epoch two back
/// is final. Heights are counted in slots, one block per slot from genesis,
/// so that block's height is the last slot of epoch `epoch - 2`, that is
/// `(epoch - 2) * 32 + 31`; in the first two epochs nothing is final (0).
/// Elsewhere finality stays where it was.
pub open spec fn finality_after(current: u64, slot: u64, epoch: u64) -> int {
    if slot % EPOCH_SLOTS == 0 {
        if epoch >= 2 {
            (epoch - 2) * (EPOCH_SLOTS as int) + (EPOCH_SLOTS as int) - 1
        } else {
            0
        }
    } else {
        current as int
    }
}

/// Whether `finality_after` fits in a `u64` for a block at (`slot`,
/// `epoch`): only a block at the first slot of epoch 2 or later moves
/// finality, and then its epoch must not be so large that the last slot of
/// the epoch two back overflows.
pub open spec fn finality_fits(slot: u64, epoch: u64) -> bool {
    slot % EPOCH_SLOTS == 0 && epoch >= 2 ==> epoch - 2 <= u64::MAX / EPOCH_SLOTS
}

/// Whether finality after a block at (`slot`, `epoch`) fits in a `u64` (see
/// `finality_fits`).
pub fn finality_in_range(slot: u64, epoch: u64) -> (ok: bool)
    ensures
        ok == finality_fits(slot, epoch),
{
    !(slot % EPOCH_SLOTS == 0 && epoch >= 2) || epoch - 2 <= u64::MAX / EPOCH_SLOTS
}

/// The finalized height after a block at (`slot`, `epoch`), see
/// `finality_after`.
pub fn finalized_height_after(current: u64, slot: u64, epoch: u64) -> (h: u64)
    requires
        finality_fits(slot, epoch),
    ensures
        h == finality_after(current, slot, epoch),
{
    if slot % EPOCH_SLOTS == 0 {
        if epoch >= 2 {
            (epoch - 2) * EPOCH_SLOTS + (EPOCH_SLOTS - 1)
        } else {
            0
        }
    } else {
        current
    }
}

/// Finality moves only at the first slot of an epoch. For a block whose
/// epoch is its slot's epoch, it moves there to the last slot of the epoch
/// two back: the slot 33 before the block's, which lies in epoch
/// `epoch - 2` while the slot after it opens epoch `epoch - 1`.
pub proof fn lemma_finality_moves_at_epoch_starts(current: u64, slot: u64, epoch: u64)
    requires
        epoch == slot / EPOCH_SLOTS,
    ensures
        slot % EPOCH_SLOTS != 0 ==> finality_after(current, slot, epoch) == current,
        slot % EPOCH_SLOTS == 0 && epoch >= 2 ==> {
            let f = finality_after(current, slot, epoch);
            &&& f == slot - 33
            &&& f / (EPOCH_SLOTS as int) == epoch - 2
            &&& (f + 1) / (EPOCH_SLOTS as int) == epoch - 1
        },
        slot % EPOCH_SLOTS == 0 && epoch < 2 ==> finality_after(current, slot, epoch) == 0,
{
}

/// Every slot is its epoch's first slot plus its position in the epoch.
pub proof fn lemma_slot_decomposes(slot: u64)
    ensures
        (slot / EPOCH_SLOTS) * EPOCH_SLOTS + slot % EPOCH_SLOTS == slot,
        slot % EPOCH_SLOTS < EPOCH_SLOTS,
{
}

/// Later times never fall in earlier slots.
pub proof fn lemma_slot_of_monotonic(clock: SlotClock, t1: u64, t2: u64)
    requires
        t1 <= t2,
    ensures
        slot_at(clock.genesis, t1) <= slot_at(clock.genesis, t2),
{
    if t1 >= clock.genesis {
        let a = (t1 - clock.genesis) as int;
        let b = (t2 - clock.genesis) as int;
        assert(a / 30 <= b / 30) by (nonlinear_arith)
            requires 0 <= a <= b;
    }
}

/// A time falls in its slot: at or after genesis, the slot starts at or
/// before the time and the next slot starts after it; any time before
/// genesis counts as slot 0.
pub proof fn lemma_time_falls_in_its_slot(genesis: u64, t: u64)
    ensures
        slot_at(genesis, t) >= 0,
        t >= genesis ==> genesis + slot_at(genesis, t) * (SLOT_SECONDS as int) <= t,
        t >= genesis ==> t < genesis + (slot_at(genesis, t) + 1) * (SLOT_SECONDS as int),
        t < genesis ==> slot_at(genesis, t) == 0,
{
    if t >= genesis {
        let d = t - genesis;
        assert(0 <= d - (d / 30) * 30 < 30) by (nonlinear_arith)
            requires d >= 0;
    }
}

/// The next slot start is the first slot boundary after a time: it lies on
/// a boundary, strictly after the time, at most one slot length after a
/// time at or after genesis, and no boundary after that time comes before
/// it.
pub proof fn lemma_next_slot_start_is_first_boundary_after(genesis: u64, t: u64)
    ensures
        next_slot_start_at(genesis, t) > t,
        (next_slot_start_at(genesis, t) - genesis) % (SLOT_SECONDS as int) == 0,
        t >= genesis ==> next_slot_start_at(genesis, t) - t <= SLOT_SECONDS,
        t >= genesis ==> forall|k: int|
            k >= 0 && #[trigger] slot_start(genesis, k) > t ==> slot_start(genesis, k)
                >= next_slot_start_at(genesis, t),
{
    lemma_time_falls_in_its_slot(genesis, t);
    let s = slot_at(genesis, t);
    assert(((s + 1) * 30) % 30 == 0) by (nonlinear_arith)
        requires s >= 0;
    if t >= genesis {
        assert forall|k: int|
            k >= 0 && #[trigger] slot_start(genesis, k) > t implies slot_start(genesis, k)
                >= next_slot_start_at(genesis, t) by {
            assert(k * 30 > s * 30 ==> k >= s + 1) by (nonlinear_arith)
                requires s >= 0, k >= 0;
            assert(k >= s + 1 ==> k * 30 >= (s + 1) * 30) by (nonlinear_arith);
        }
    }
}

} // verus!
