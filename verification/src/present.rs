use vstd::prelude::*;

verus! {

/// `D3D_OK`.
pub const D3D_OK: i32 = 0;

/// `D3DERR_DEVICELOST`.
pub const D3DERR_DEVICELOST: i32 = -2005530520;

/// `D3DERR_DEVICENOTRESET`.
pub const D3DERR_DEVICENOTRESET: i32 = -2005530519;

/// A fixed table of callback slots; 0 marks a free slot.
pub struct CallbackSlots {
    slots: Vec<usize>,
}

/// The callbacks of a slot table that are set, in slot order.
pub open spec fn live_callbacks(s: Seq<usize>) -> Seq<usize>
    decreases s.len(),
{
    if s.len() == 0 {
        Seq::empty()
    } else if s.last() != 0 {
        live_callbacks(s.drop_last()).push(s.last())
    } else {
        live_callbacks(s.drop_last())
    }
}

/// The first free slot of a table, if any.
pub open spec fn first_free(s: Seq<usize>) -> Option<int> {
    if exists|i: int| 0 <= i < s.len() && s[i] == 0 {
        Some(choose|i: int| 0 <= i < s.len() && s[i] == 0 && forall|j: int| 0 <= j < i ==> s[j] != 0)
    } else {
        None
    }
}

/// Every callback held in a slot is among the live ones.
proof fn lemma_held_is_live(s: Seq<usize>, j: int)
    requires
        0 <= j < s.len(),
        s[j] != 0,
    ensures
        live_callbacks(s).contains(s[j]),
    decreases s.len(),
{
    if j == s.len() - 1 {
        assert(live_callbacks(s).last() == s[j]);
    } else {
        lemma_held_is_live(s.drop_last(), j);
        let w = choose|k: int| 0 <= k < live_callbacks(s.drop_last()).len() && live_callbacks(s.drop_last())[k] == s[j];
        if s.last() != 0 {
            assert(live_callbacks(s)[w] == s[j]);
        }
    }
}

/// A table with a free slot has a first free slot.
proof fn lemma_first_zero(s: Seq<usize>, k: int)
    requires
        0 <= k < s.len(),
        s[k] == 0,
    ensures
        exists|i: int| 0 <= i < s.len() && s[i] == 0 && forall|j: int| 0 <= j < i ==> s[j] != 0,
    decreases k,
{
    if exists|j: int| 0 <= j < k && s[j] == 0 {
        let j = choose|j: int| 0 <= j < k && s[j] == 0;
        lemma_first_zero(s, j);
    } else {
        assert(0 <= k < s.len() && s[k] == 0 && forall|j: int| 0 <= j < k ==> s[j] != 0);
    }
}

/// A callback that registered (in the first free slot) runs before each
/// present: it is among the live callbacks of the table it went into.
pub proof fn lemma_registered_callback_runs(s: Seq<usize>, v: usize)
    requires
        v != 0,
        first_free(s) is Some,
    ensures
        live_callbacks(s.update(first_free(s)->Some_0, v)).contains(v),
{
    let k = choose|k: int| 0 <= k < s.len() && s[k] == 0;
    lemma_first_zero(s, k);
    let i = first_free(s)->Some_0;
    assert(0 <= i < s.len());
    lemma_held_is_live(s.update(i, v), i);
}

impl View for CallbackSlots {
    type V = Seq<usize>;

    closed spec fn view(&self) -> Seq<usize> {
        self.slots@
    }
}

impl CallbackSlots {
    /// A table of `capacity` free slots.
    pub fn new(capacity: usize) -> (t: Self)
        ensures
            t@ == Seq::new(capacity as nat, |i: int| 0usize),
    {
        let mut slots: Vec<usize> = Vec::new();
        let mut i: usize = 0;
        while i < capacity
            invariant
                i <= capacity,
                slots@ == Seq::new(i as nat, |k: int| 0usize),
            decreases capacity - i,
        {
            slots.push(0);
            i = i + 1;
            assert(slots@ =~= Seq::new(i as nat, |k: int| 0usize));
        }
        CallbackSlots { slots }
    }

    /// Registers a callback in the first free slot: 0 on success; -1, with
    /// the table unchanged, when there is no callback or no free slot.
    pub fn register(&mut self, callback: Option<usize>) -> (r: i32)
        requires
            callback matches Some(v) ==> v != 0,
        ensures
            (callback is None || first_free(old(self)@) is None) ==> r == -1 && final(self)@ == old(self)@,
            callback matches Some(v) ==> (first_free(old(self)@) matches Some(i) ==> r == 0 && final(self)@ == old(
                self,
            )@.update(i, v)),
    {
        let v = match callback {
            None => {
                return -1;
            },
            Some(v) => v,
        };
        let mut i: usize = 0;
        while i < self.slots.len()
            invariant
                i <= self.slots@.len(),
                self.slots@ == old(self)@,
                callback == Some(v),
                forall|j: int| 0 <= j < i ==> self.slots@[j] != 0,
            decreases self.slots@.len() - i,
        {
            if self.slots[i] == 0 {
                proof {
                    let s = old(self)@;
                    assert(exists|k: int| 0 <= k < s.len() && s[k] == 0) by {
                        assert(s[i as int] == 0);
                    }
                    let c = choose|k: int| 0 <= k < s.len() && s[k] == 0 && forall|j: int| 0 <= j < k ==> s[j] != 0;
                    assert(0 <= i < s.len() && s[i as int] == 0 && forall|j: int| 0 <= j < i ==> s[j] != 0);
                    assert(c == i as int) by {
                        if c < i {
                            assert(s[c] != 0);
                        }
                        if c > i {
                            assert(s[i as int] != 0);
                        }
                    }
                    assert(first_free(s) == Some(i as int));
                }
                self.slots.set(i, v);
                assert(self@ == old(self)@.update(i as int, v));
                return 0;
            }
            i = i + 1;
        }
        proof {
            let s = old(self)@;
            assert(!exists|k: int| 0 <= k < s.len() && s[k] == 0);
        }
        -1
    }

    /// The callbacks to run, in slot order.
    pub fn live(&self) -> (out: Vec<usize>)
        ensures
            out@ == live_callbacks(self@),
    {
        let mut out: Vec<usize> = Vec::new();
        let mut i: usize = 0;
        while i < self.slots.len()
            invariant
                i <= self.slots@.len(),
                out@ == live_callbacks(self.slots@.take(i as int)),
            decreases self.slots@.len() - i,
        {
            proof {
                assert(self.slots@.take(i + 1).drop_last() =~= self.slots@.take(i as int));
            }
            if self.slots[i] != 0 {
                out.push(self.slots[i]);
            }
            i = i + 1;
        }
        assert(self.slots@.take(self.slots@.len() as int) =~= self.slots@);
        out
    }
}

/// The frame lock's interval in performance-counter ticks: the counter's
/// frequency over the target rate; `None` (no lock) when either is 0.
pub fn frame_interval(freq: u64, fps: u32) -> (r: Option<u64>)
    ensures
        r == (if fps == 0 || freq == 0 { None } else { Some((freq / fps as u64) as u64) }),
{
    if fps == 0 || freq == 0 {
        None
    } else {
        Some(freq / fps as u64)
    }
}

/// Whether the next frame may be presented: a full interval has passed since
/// the last one (the counter difference taken with wrapping).
pub fn frame_due(now: u64, last: u64, interval: u64) -> (b: bool)
    ensures
        b == (vstd::wrapping::u64_specs::wrapping_sub(now, last) >= interval),
{
    now.wrapping_sub(last) >= interval
}

/// What a hooked `Present` returns when the original is missing, and
/// whether a result asks for device recovery.
pub fn present_needs_recovery(result: i32) -> (b: bool)
    ensures
        b == (result == D3DERR_DEVICELOST),
{
    result == D3DERR_DEVICELOST
}

/// Whether a device reset succeeded, so that the callbacks' second phase runs.
pub fn reset_succeeded(result: i32) -> (b: bool)
    ensures
        b == (result == D3D_OK),
{
    result == D3D_OK
}

/// What one attempt of device recovery does, from the cooperative level the
/// device reports (`D3DERR_DEVICELOST` where it cannot be asked).
#[derive(Clone, Copy, PartialEq, Eq, Debug, Structural)]
pub enum RecoveryStep {
    /// The device can be reset: reset it (when the parameters and the reset
    /// function are known) and stop.
    Reset,
    /// The device is usable again: stop.
    Done,
    /// Still lost: wait and try again.
    Wait,
}

/// The recovery step for a cooperative level.
pub fn recovery_step(level: i32) -> (s: RecoveryStep)
    ensures
        s == (if level == D3DERR_DEVICENOTRESET {
            RecoveryStep::Reset
        } else if level == D3D_OK {
            RecoveryStep::Done
        } else {
            RecoveryStep::Wait
        }),
{
    if level == D3DERR_DEVICENOTRESET {
        RecoveryStep::Reset
    } else if level == D3D_OK {
        RecoveryStep::Done
    } else {
        RecoveryStep::Wait
    }
}

/// Whether a device method's vtable slot gets the detour: not when it already
/// holds it, nor when an original was already saved for it.
pub fn should_patch_slot(current: usize, detour: usize, original_saved: bool) -> (b: bool)
    ensures
        b == (current != detour && !original_saved),
{
    current != detour && !original_saved
}

/// The end of a frame-rate window: when a whole second of counter ticks
/// (`freq`) has passed since the window began, the ticks it lasted
/// (`now - previous`, 0 if the counter went back).
pub fn fps_window_end(now: u64, previous: u64, freq: u64) -> (r: Option<u64>)
    ensures
        r == (if freq > 0 && (if now >= previous { now - previous } else { 0 }) >= freq {
            Some((if now >= previous { now - previous } else { 0 }) as u64)
        } else {
            None
        }),
{
    let elapsed = now.saturating_sub(previous);
    if freq > 0 && elapsed >= freq {
        Some(elapsed)
    } else {
        None
    }
}

} // verus!
