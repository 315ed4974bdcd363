//! One completion-fence slot per swap image.
//!
//! A slot is empty until work targeting its image is submitted; it then holds
//! that submission's fence, first in flight and, once the host has seen it
//! signalled, observed. The tracker has no locking of its own: the frame loop
//! that owns it is single-threaded.
use vstd::prelude::*;

verus! {

/// What a slot holds, without the fence itself.
#[derive(Clone, Copy, Debug, PartialEq, Eq, Structural)]
pub enum SlotState {
    /// No fence: the slot was never submitted to, or its last submission
    /// reported a stale swap chain.
    Empty,
    /// A fence that the host has not yet seen signalled.
    InFlight,
    /// A fence that the host has seen signalled.
    Observed,
}

/// A slot with its fence.
pub enum FenceSlot<F> {
    Empty,
    InFlight(F),
    Observed(F),
}

impl<F> FenceSlot<F> {
    pub open spec fn state(&self) -> SlotState {
        match self {
            FenceSlot::Empty => SlotState::Empty,
            FenceSlot::InFlight(_) => SlotState::InFlight,
            FenceSlot::Observed(_) => SlotState::Observed,
        }
    }

    pub open spec fn handle(&self) -> Option<F> {
        match self {
            FenceSlot::Empty => None,
            FenceSlot::InFlight(f) => Some(*f),
            FenceSlot::Observed(f) => Some(*f),
        }
    }
}

/// The slot in flight with the highest index, if any.
pub open spec fn last_in_flight(s: Seq<SlotState>) -> Option<int>
    decreases s.len(),
{
    if s.len() == 0 {
        None
    } else if s.last() == SlotState::InFlight {
        Some(s.len() - 1)
    } else {
        last_in_flight(s.drop_last())
    }
}

pub open spec fn none_in_flight(s: Seq<SlotState>) -> bool {
    forall|i: int| 0 <= i < s.len() ==> s[i] != SlotState::InFlight
}

/// `last_in_flight` names a slot in flight, and finds one whenever there is one.
pub proof fn lemma_last_in_flight(s: Seq<SlotState>)
    ensures
        last_in_flight(s) matches Some(i) ==> 0 <= i < s.len() && s[i] == SlotState::InFlight,
        last_in_flight(s) is None <==> none_in_flight(s),
    decreases s.len(),
{
    if s.len() > 0 && s.last() != SlotState::InFlight {
        lemma_last_in_flight(s.drop_last());
        if last_in_flight(s) is None {
            assert forall|i: int| 0 <= i < s.len() implies s[i] != SlotState::InFlight by {
                if i < s.len() - 1 {
                    assert(s.drop_last()[i] == s[i]);
                }
            }
        } else {
            let i = last_in_flight(s.drop_last())->0;
            assert(s.drop_last()[i] == s[i]);
        }
    }
}

pub struct FenceTracker<F> {
    slots: Vec<FenceSlot<F>>,
}

impl<F> View for FenceTracker<F> {
    type V = Seq<SlotState>;

    closed spec fn view(&self) -> Seq<SlotState> {
        self.slots@.map_values(|s: FenceSlot<F>| s.state())
    }
}

impl<F> FenceTracker<F> {
    /// The fence that slot `i` holds, if any.
    pub closed spec fn handle(&self, i: int) -> Option<F> {
        self.slots@[i].handle()
    }

    /// `n` empty slots.
    pub fn new(n: usize) -> (t: Self)
        ensures
            t@ == Seq::new(n as nat, |_i: int| SlotState::Empty),
            forall|i: int| 0 <= i < n ==> t.handle(i) is None,
    {
        let mut slots: Vec<FenceSlot<F>> = Vec::new();
        let mut k: usize = 0;
        while k < n
            invariant
                k <= n,
                slots@.len() == k,
                forall|i: int| 0 <= i < k ==> slots@[i] is Empty,
            decreases n - k,
        {
            slots.push(FenceSlot::Empty);
            k = k + 1;
        }
        let t = FenceTracker { slots };
        assert(t@ =~= Seq::new(n as nat, |_i: int| SlotState::Empty));
        t
    }

    pub fn len(&self) -> (n: usize)
        ensures
            n == self@.len(),
    {
        self.slots.len()
    }

    pub fn state(&self, i: usize) -> (s: SlotState)
        requires
            i < self@.len(),
        ensures
            s == self@[i as int],
    {
        match &self.slots[i] {
            FenceSlot::Empty => SlotState::Empty,
            FenceSlot::InFlight(_) => SlotState::InFlight,
            FenceSlot::Observed(_) => SlotState::Observed,
        }
    }

    /// The fence to wait on before image `i` is used again: the one in the
    /// slot while it is in flight, and nothing otherwise (a first use, or a
    /// fence already seen signalled).
    pub fn wait_if_pending(&self, i: usize) -> (r: Option<&F>)
        requires
            i < self@.len(),
        ensures
            r is Some <==> self@[i as int] == SlotState::InFlight,
            r matches Some(f) ==> self.handle(i as int) == Some(*f),
    {
        match &self.slots[i] {
            FenceSlot::InFlight(f) => Some(f),
            _ => None,
        }
    }

    /// What a submission that follows the work of slot `i` must wait for:
    /// `None` stands for work that is already complete (the slot never held
    /// a fence), `Some` for the slot's fence.
    pub fn previous_future(&self, i: usize) -> (r: Option<&F>)
        requires
            i < self@.len(),
        ensures
            r is None <==> self@[i as int] == SlotState::Empty,
            r matches Some(f) ==> self.handle(i as int) == Some(*f),
    {
        match &self.slots[i] {
            FenceSlot::Empty => None,
            FenceSlot::InFlight(f) => Some(f),
            FenceSlot::Observed(f) => Some(f),
        }
    }

    /// Notes that the fence in slot `i` was seen signalled.
    pub fn mark_observed(&mut self, i: usize)
        requires
            i < old(self)@.len(),
            old(self)@[i as int] == SlotState::InFlight,
        ensures
            final(self)@ == old(self)@.update(i as int, SlotState::Observed),
            forall|j: int| 0 <= j < old(self)@.len() ==> final(self).handle(j) == old(self).handle(j),
    {
        let mut slot = FenceSlot::Empty;
        self.slots.set_and_swap(i, &mut slot);
        assert(slot.state() == old(self)@[i as int]);
        if let FenceSlot::InFlight(f) = slot {
            let mut observed = FenceSlot::Observed(f);
            self.slots.set_and_swap(i, &mut observed);
        }
        assert(self@ =~= old(self)@.update(i as int, SlotState::Observed));
    }

    /// Stores the outcome of the latest submission for image `i`: its fence,
    /// or `None` when the submission reported a stale swap chain. A slot
    /// whose fence is still in flight is never overwritten.
    pub fn record(&mut self, i: usize, fence: Option<F>)
        requires
            i < old(self)@.len(),
            old(self)@[i as int] != SlotState::InFlight,
        ensures
            final(self)@ == old(self)@.update(
                i as int,
                if fence is Some {
                    SlotState::InFlight
                } else {
                    SlotState::Empty
                },
            ),
            final(self).handle(i as int) == fence,
            forall|j: int|
                0 <= j < old(self)@.len() && j != i ==> final(self).handle(j) == old(self).handle(j),
    {
        let mut slot = match fence {
            Some(f) => FenceSlot::InFlight(f),
            None => FenceSlot::Empty,
        };
        self.slots.set_and_swap(i, &mut slot);
        assert(self@ =~= old(self)@.update(
            i as int,
            if fence is Some {
                SlotState::InFlight
            } else {
                SlotState::Empty
            },
        ));
    }

    /// The slot in flight with the highest index, if any.
    pub fn last_in_flight(&self) -> (r: Option<usize>)
        ensures
            r matches Some(i) ==> last_in_flight(self@) == Some(i as int),
            r is None ==> last_in_flight(self@) is None,
    {
        let mut k: usize = self.slots.len();
        assert(self@.take(k as int) =~= self@);
        while k > 0
            invariant
                k <= self@.len(),
                last_in_flight(self@) == last_in_flight(self@.take(k as int)),
            decreases k,
        {
            let s = self.state(k - 1);
            if s == SlotState::InFlight {
                assert(self@.take(k as int).last() == self@[k - 1]);
                return Some(k - 1);
            }
            assert(self@.take(k as int).drop_last() =~= self@.take(k - 1));
            k = k - 1;
        }
        None
    }
}

} // verus!
