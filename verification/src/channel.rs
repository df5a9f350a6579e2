//! A very simple publish and subscribe channel.
//!
//! Subscribers occupy numbered slots.  A new subscriber takes the first free
//! slot (or a new one at the end); removing a subscriber frees its slot and
//! drops any free slots left at the end, so the slot list never ends in a
//! free slot.
use vstd::prelude::*;

verus! {

/// The index of the first free slot at or after `i`, or the length when there is none.
pub open spec fn first_free_from<C>(s: Seq<Option<C>>, i: int) -> int
    decreases s.len() - i,
{
    if i < 0 || i >= s.len() {
        s.len() as int
    } else if s[i] is None {
        i
    } else {
        first_free_from(s, i + 1)
    }
}

/// The index of the first free slot, or the length when every slot is taken.
pub open spec fn first_free<C>(s: Seq<Option<C>>) -> int {
    first_free_from(s, 0)
}

/// The slots after `callback` subscribes: it takes the first free slot.
pub open spec fn subscribed<C>(s: Seq<Option<C>>, callback: C) -> Seq<Option<C>> {
    let id = first_free(s);
    if id < s.len() {
        s.update(id, Some(callback))
    } else {
        s.push(Some(callback))
    }
}

/// The slots with the free slots at the end dropped.
pub open spec fn trim_free<C>(s: Seq<Option<C>>) -> Seq<Option<C>>
    decreases s.len(),
{
    if s.len() > 0 && s.last() is None {
        trim_free(s.drop_last())
    } else {
        s
    }
}

/// The slots after the subscriber in slot `id` leaves.
pub open spec fn unsubscribed<C>(s: Seq<Option<C>>, id: int) -> Seq<Option<C>> {
    trim_free(s.update(id, None))
}

/// Slot lists that the channel can hold: none ends in a free slot.
pub open spec fn slots_wf<C>(s: Seq<Option<C>>) -> bool {
    s.len() == 0 || s.last() is Some
}

/// A publish and subscribe channel whose subscribers are callbacks of type `C`.
pub struct Channel<C> {
    subscribers: Vec<Option<C>>,
}

proof fn lemma_first_free_from<C>(s: Seq<Option<C>>, i: int)
    requires
        0 <= i <= s.len(),
    ensures
        i <= first_free_from(s, i) <= s.len(),
        first_free_from(s, i) < s.len() ==> s[first_free_from(s, i)] is None,
        forall|k: int| i <= k < first_free_from(s, i) ==> s[k] is Some,
    decreases s.len() - i,
{
    if i < s.len() && s[i] is Some {
        lemma_first_free_from(s, i + 1);
    }
}

proof fn lemma_trim_free<C>(s: Seq<Option<C>>)
    ensures
        slots_wf(trim_free(s)),
        trim_free(s).len() <= s.len(),
        trim_free(s) =~= s.take(trim_free(s).len() as int),
        forall|k: int| trim_free(s).len() <= k < s.len() ==> s[k] is None,
    decreases s.len(),
{
    if s.len() > 0 && s.last() is None {
        lemma_trim_free(s.drop_last());
        let t = trim_free(s.drop_last());
        assert(s.drop_last().take(t.len() as int) =~= s.take(t.len() as int));
        assert forall|k: int| t.len() <= k < s.len() implies s[k] is None by {
            if k < s.len() - 1 {
                assert(s.drop_last()[k] == s[k]);
            }
        }
    }
}

proof fn lemma_trim_free_wf<C>(s: Seq<Option<C>>)
    requires
        slots_wf(s),
    ensures
        trim_free(s) == s,
{
}

impl<C> Channel<C> {
    /// The subscriber slots, in order; `None` marks a free slot.
    pub closed spec fn slots(&self) -> Seq<Option<C>> {
        self.subscribers@
    }

    /// The channel's invariant: its slot list never ends in a free slot.
    pub open spec fn wf(&self) -> bool {
        slots_wf(self.slots())
    }

    /// A channel without subscribers.
    pub fn new() -> (r: Self)
        ensures
            r.wf(),
            r.slots() == Seq::<Option<C>>::empty(),
    {
        Channel { subscribers: Vec::new() }
    }

    /// Adds `callback` as a subscriber and returns the number of its slot: the first
    /// free slot, or a new one at the end.
    pub fn subscribe(&mut self, callback: C) -> (id: usize)
        requires
            old(self).wf(),
        ensures
            final(self).wf(),
            id == first_free(old(self).slots()),
            final(self).slots() == subscribed(old(self).slots(), callback),
            final(self).slots()[id as int] == Some(callback),
    {
        proof {
            lemma_first_free_from(self.slots(), 0);
        }
        let mut i: usize = 0;
        while i < self.subscribers.len()
            invariant
                i <= self.subscribers.len(),
                i <= first_free(self.slots()),
                first_free(self.slots()) <= self.slots().len(),
                first_free(self.slots()) < self.slots().len() ==> self.slots()[first_free(
                    self.slots(),
                )] is None,
                forall|k: int| 0 <= k < first_free(self.slots()) ==> self.slots()[k] is Some,
            ensures
                i == first_free(self.slots()),
            decreases self.subscribers.len() - i,
        {
            if self.subscribers[i].is_none() {
                break;
            }
            i = i + 1;
        }
        let ghost s = self.slots();
        assert(i == first_free(s));
        if i < self.subscribers.len() {
            self.subscribers.set(i, Some(callback));
        } else {
            self.subscribers.push(Some(callback));
        }
        i
    }

    /// Removes the subscriber in slot `id`, then drops the free slots at the end.
    pub fn unsubscribe(&mut self, id: usize)
        requires
            old(self).wf(),
            id < old(self).slots().len(),
        ensures
            final(self).wf(),
            final(self).slots() == unsubscribed(old(self).slots(), id as int),
    {
        self.subscribers.set(id, None);
        let ghost cleared = self.slots();
        proof {
            lemma_trim_free(cleared);
        }
        while self.subscribers.len() > 0 && self.subscribers[self.subscribers.len() - 1].is_none()
            invariant
                trim_free(self.slots()) == trim_free(cleared),
                trim_free(cleared).len() <= self.slots().len(),
            decreases self.subscribers.len(),
        {
            let ghost before = self.slots();
            proof {
                lemma_trim_free(before);
            }
            self.subscribers.pop();
            assert(self.slots() =~= before.drop_last());
        }
    }

    /// Calls each subscriber with `obj`, in slot order: every subscriber in a slot has
    /// been called with `obj` once the call returns.
    pub fn publish<T>(&self, obj: &T) where C: Fn(&T)
        requires
            forall|k: int|
                0 <= k < self.slots().len() && #[trigger] self.slots()[k] is Some ==> call_requires(
                    self.slots()[k]->0,
                    (obj,),
                ),
        ensures
            forall|k: int|
                0 <= k < self.slots().len() && #[trigger] self.slots()[k] is Some ==> call_ensures(
                    self.slots()[k]->0,
                    (obj,),
                    (),
                ),
    {
        let n = self.subscribers.len();
        for i in 0..n
            invariant
                n == self.slots().len(),
                forall|k: int|
                    0 <= k < self.slots().len() && #[trigger] self.slots()[k] is Some
                        ==> call_requires(self.slots()[k]->0, (obj,)),
                forall|k: int|
                    0 <= k < i && #[trigger] self.slots()[k] is Some ==> call_ensures(
                        self.slots()[k]->0,
                        (obj,),
                        (),
                    ),
        {
            match &self.subscribers[i] {
                Some(callback) => {
                    assert(self.slots()[i as int] is Some);
                    callback(obj);
                },
                None => {},
            }
        }
    }
}

/// Unsubscribing the subscriber that `subscribe` just added gives back the slots as
/// they were before it subscribed.
pub proof fn lemma_unsubscribe_undoes_subscribe<C>(s: Seq<Option<C>>, callback: C)
    requires
        slots_wf(s),
    ensures
        unsubscribed(subscribed(s, callback), first_free(s)) == s,
{
    lemma_first_free_from(s, 0);
    let id = first_free(s);
    if id < s.len() {
        assert(id != s.len() - 1);
        assert(subscribed(s, callback).update(id, None) =~= s);
    } else {
        let t = subscribed(s, callback).update(id, None);
        assert(t.drop_last() =~= s);
        lemma_trim_free_wf(s);
    }
}

/// Subscribing keeps every other subscriber in its slot, and the new subscriber's
/// slot was free before.
pub proof fn lemma_subscribe_keeps_others<C>(s: Seq<Option<C>>, callback: C, k: int)
    requires
        slots_wf(s),
        0 <= k < s.len(),
        k != first_free(s),
    ensures
        subscribed(s, callback)[k] == s[k],
        first_free(s) < s.len() ==> s[first_free(s)] is None,
{
    lemma_first_free_from(s, 0);
}

} // verus!
