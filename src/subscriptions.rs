use vstd::prelude::*;

verus! {

/// How many clients may be subscribed at once.
pub const MAX_SUBSCRIPTIONS: usize = 10;

/// How a client names a subscription.
#[derive(Debug, Clone, PartialEq, Eq)]
pub enum SubscriptionId {
    Number(u64),
    String(String),
}

/// Why a subscription could not be made or removed.
#[derive(Debug, Clone, Copy, PartialEq, Eq, Structural)]
pub enum SubscriptionError {
    /// Every slot is taken.
    LimitReached,
    /// Subscription ids are numbers.
    IdNotANumber,
    /// No slot has this id.
    IdNotFound,
}

/// A fixed number of subscription slots; each holds the handle of a client's sink, if any.
/// A subscription's id is the index of its slot.
#[derive(Debug)]
pub struct Subscriptions {
    pub slots: Vec<Option<u64>>,
}

impl Subscriptions {
    /// There are exactly as many slots as subscriptions allowed.
    pub open spec fn wf(&self) -> bool {
        self.slots@.len() == MAX_SUBSCRIPTIONS
    }

    /// All slots free.
    pub fn new() -> (r: Subscriptions)
        ensures
            r.wf(),
            forall|i: int| 0 <= i < MAX_SUBSCRIPTIONS ==> (#[trigger] r.slots@[i]) is None,
    {
        let mut slots: Vec<Option<u64>> = Vec::new();
        let mut i: usize = 0;
        while i < MAX_SUBSCRIPTIONS
            invariant
                i <= MAX_SUBSCRIPTIONS,
                slots@.len() == i,
                forall|j: int| 0 <= j < i ==> (#[trigger] slots@[j]) is None,
            decreases MAX_SUBSCRIPTIONS - i,
        {
            slots.push(None);
            i = i + 1;
        }
        Subscriptions { slots }
    }

    /// Puts the sink in the first free slot and returns that slot's index as the id.
    pub fn subscribe(&mut self, sink: u64) -> (r: Result<usize, SubscriptionError>)
        requires
            old(self).wf(),
        ensures
            final(self).wf(),
            match r {
                Ok(id) => {
                    &&& id < MAX_SUBSCRIPTIONS
                    &&& old(self).slots@[id as int] is None
                    &&& forall|j: int| 0 <= j < id ==> (#[trigger] old(self).slots@[j]) is Some
                    &&& final(self).slots@ == old(self).slots@.update(id as int, Some(sink))
                },
                Err(e) => {
                    &&& e == SubscriptionError::LimitReached
                    &&& forall|j: int|
                        0 <= j < MAX_SUBSCRIPTIONS ==> (#[trigger] old(self).slots@[j]) is Some
                    &&& final(self).slots@ == old(self).slots@
                },
            },
    {
        let mut i: usize = 0;
        while i < self.slots.len()
            invariant
                self.wf(),
                self.slots@ == old(self).slots@,
                i <= MAX_SUBSCRIPTIONS,
                forall|j: int| 0 <= j < i ==> (#[trigger] self.slots@[j]) is Some,
            decreases MAX_SUBSCRIPTIONS - i,
        {
            if self.slots[i].is_none() {
                self.slots.set(i, Some(sink));
                return Ok(i);
            }
            i = i + 1;
        }
        Err(SubscriptionError::LimitReached)
    }

    /// Frees the slot of a subscription.
    pub fn unsubscribe(&mut self, id: &SubscriptionId) -> (r: Result<(), SubscriptionError>)
        requires
            old(self).wf(),
        ensures
            final(self).wf(),
            match *id {
                SubscriptionId::Number(n) => if n < MAX_SUBSCRIPTIONS {
                    &&& r is Ok
                    &&& final(self).slots@ == old(self).slots@.update(n as int, None)
                } else {
                    &&& r == Err::<(), SubscriptionError>(SubscriptionError::IdNotFound)
                    &&& final(self).slots@ == old(self).slots@
                },
                SubscriptionId::String(_) => {
                    &&& r == Err::<(), SubscriptionError>(SubscriptionError::IdNotANumber)
                    &&& final(self).slots@ == old(self).slots@
                },
            },
    {
        match id {
            SubscriptionId::Number(n) => {
                if *n < MAX_SUBSCRIPTIONS as u64 {
                    self.slots.set(*n as usize, None);
                    Ok(())
                } else {
                    Err(SubscriptionError::IdNotFound)
                }
            },
            SubscriptionId::String(_) => Err(SubscriptionError::IdNotANumber),
        }
    }
}

} // verus!
