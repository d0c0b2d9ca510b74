//! The contact event tracker: it remembers the last status seen of each
//! pair of bodies, and so tells a change of status from a repetition.

use vstd::prelude::*;
use crate::body::BodyId;
use crate::event::{ContactEvent, ContactStatus};

verus! {

/// The last status seen of one pair of bodies.
#[derive(Clone, Copy, Debug, PartialEq, Eq, Structural)]
pub struct TrackedContact {
    pub character: BodyId,
    pub other_body: BodyId,
    pub last_status: ContactStatus,
}

impl TrackedContact {
    pub open spec fn pair(self) -> (BodyId, BodyId) {
        (self.character, self.other_body)
    }
}

/// The pairs that a tracker knows, each with its last status.
pub type TrackedPairs = Map<(BodyId, BodyId), ContactStatus>;

/// Whether an event with this status is a change for a pair, given what
/// was recorded before: it is one when nothing was recorded of the pair, or
/// another status was.
pub open spec fn is_transition(
    pairs: TrackedPairs,
    pair: (BodyId, BodyId),
    status: ContactStatus,
) -> bool {
    !pairs.contains_key(pair) || pairs[pair] != status
}

/// The record after an event: the pair now has the event's status.
pub open spec fn record(pairs: TrackedPairs, event: ContactEvent) -> TrackedPairs {
    pairs.insert(event.pair(), event.spec_status())
}

/// The record after the first `n` events of a list, taken in their order.
pub open spec fn recorded(pairs: TrackedPairs, events: Seq<ContactEvent>, n: nat) -> TrackedPairs
    decreases n,
{
    if n == 0 {
        pairs
    } else {
        record(recorded(pairs, events, (n - 1) as nat), events[n - 1])
    }
}

/// Whether the tracker reports the event at index `i` of a list as a change,
/// the events before it being recorded first.
pub open spec fn reported(pairs: TrackedPairs, events: Seq<ContactEvent>, i: int) -> bool {
    is_transition(recorded(pairs, events, i as nat), events[i].pair(), events[i].spec_status())
}

/// The record after the consumer has acknowledged a pair: a pair that has
/// stopped is dropped, any other record stays.
pub open spec fn acknowledged(pairs: TrackedPairs, pair: (BodyId, BodyId)) -> TrackedPairs {
    if pairs.contains_key(pair) && pairs[pair] == ContactStatus::Stopped {
        pairs.remove(pair)
    } else {
        pairs
    }
}

/// The contact event tracker.
///
/// A record stays until the consumer acknowledges a stopped pair; then it
/// is dropped, so that the history does not grow without bound.
pub struct ContactTracker {
    entries: Vec<TrackedContact>,
}

impl View for ContactTracker {
    type V = TrackedPairs;

    closed spec fn view(&self) -> TrackedPairs {
        Self::pairs_of(self.entries@)
    }
}

impl ContactTracker {
    spec fn has_pair(entries: Seq<TrackedContact>, pair: (BodyId, BodyId), i: int) -> bool {
        0 <= i < entries.len() && entries[i].pair() == pair
    }

    spec fn index_of(entries: Seq<TrackedContact>, pair: (BodyId, BodyId)) -> int {
        choose|i: int| Self::has_pair(entries, pair, i)
    }

    spec fn pairs_of(entries: Seq<TrackedContact>) -> TrackedPairs {
        Map::new(
            |pair: (BodyId, BodyId)| exists|i: int| Self::has_pair(entries, pair, i),
            |pair: (BodyId, BodyId)| entries[Self::index_of(entries, pair)].last_status,
        )
    }

    spec fn distinct(entries: Seq<TrackedContact>) -> bool {
        forall|i: int, j: int|
            0 <= i < entries.len() && 0 <= j < entries.len() && i != j ==> (
            #[trigger] entries[i]).pair() != (#[trigger] entries[j]).pair()
    }

    /// The invariant of a tracker: no pair is recorded twice.
    pub closed spec fn wf(&self) -> bool {
        Self::distinct(self.entries@)
    }

    proof fn lemma_lookup(entries: Seq<TrackedContact>, i: int)
        requires
            Self::distinct(entries),
            0 <= i < entries.len(),
        ensures
            Self::pairs_of(entries).contains_key(entries[i].pair()),
            Self::pairs_of(entries)[entries[i].pair()] == entries[i].last_status,
    {
        let pair = entries[i].pair();
        assert(Self::has_pair(entries, pair, i));
        let k = Self::index_of(entries, pair);
        assert(Self::has_pair(entries, pair, k));
        assert(k == i);
    }

    proof fn lemma_absent(entries: Seq<TrackedContact>, pair: (BodyId, BodyId))
        requires
            forall|j: int| 0 <= j < entries.len() ==> (#[trigger] entries[j]).pair() != pair,
        ensures
            !Self::pairs_of(entries).contains_key(pair),
    {
        assert forall|i: int| !Self::has_pair(entries, pair, i) by {
            if 0 <= i < entries.len() {
                assert(entries[i].pair() != pair);
            }
        }
    }

    /// A tracker that knows no pair.
    pub fn new() -> (tracker: ContactTracker)
        ensures
            tracker.wf(),
            tracker@ == TrackedPairs::empty(),
    {
        let tracker = ContactTracker { entries: Vec::new() };
        proof {
            assert forall|pair: (BodyId, BodyId)| !tracker@.contains_key(pair) by {
                Self::lemma_absent(tracker.entries@, pair);
            }
            assert(tracker@ =~= TrackedPairs::empty());
        }
        tracker
    }

    fn find(&self, character: BodyId, other_body: BodyId) -> (found: Option<usize>)
        ensures
            match found {
                Some(i) => i < self.entries@.len() && self.entries@[i as int].pair() == (
                    character,
                    other_body,
                ),
                None => forall|j: int|
                    0 <= j < self.entries@.len() ==> (#[trigger] self.entries@[j]).pair() != (
                        character,
                        other_body,
                    ),
            },
    {
        let mut i: usize = 0;
        while i < self.entries.len()
            invariant
                i <= self.entries@.len(),
                forall|j: int|
                    0 <= j < i ==> (#[trigger] self.entries@[j]).pair() != (character, other_body),
            decreases self.entries@.len() - i,
        {
            if self.entries[i].character == character && self.entries[i].other_body == other_body {
                return Some(i);
            }
            i = i + 1;
        }
        None
    }

    /// The last status recorded of a pair, if any.
    pub fn status_of(&self, character: BodyId, other_body: BodyId) -> (status: Option<
        ContactStatus,
    >)
        requires
            self.wf(),
        ensures
            match status {
                Some(s) => self@.contains_key((character, other_body)) && self@[(
                    character,
                    other_body,
                )] == s,
                None => !self@.contains_key((character, other_body)),
            },
    {
        match self.find(character, other_body) {
            Some(i) => {
                proof {
                    Self::lemma_lookup(self.entries@, i as int);
                }
                Some(self.entries[i].last_status)
            },
            None => {
                proof {
                    Self::lemma_absent(self.entries@, (character, other_body));
                }
                None
            },
        }
    }

    /// Tells whether the event is a change of status for its pair, and
    /// records the event's status. The first event of a pair is a change;
    /// an event that repeats the last status of its pair is not.
    pub fn has_transitioned(&mut self, event: ContactEvent) -> (changed: bool)
        requires
            old(self).wf(),
        ensures
            final(self).wf(),
            changed == is_transition(old(self)@, event.pair(), event.spec_status()),
            final(self)@ == record(old(self)@, event),
    {
        let character = event.first();
        let other_body = event.second();
        let status = event.status();
        let ghost pair = (character, other_body);
        let ghost before = self.entries@;
        match self.find(character, other_body) {
            Some(i) => {
                proof {
                    Self::lemma_lookup(before, i as int);
                }
                let changed = self.entries[i].last_status != status;
                self.entries[i].last_status = status;
                proof {
                    let after = self.entries@;
                    assert(after.len() == before.len());
                    assert forall|j: int| 0 <= j < after.len() implies (#[trigger] after[j]).pair()
                        == before[j].pair() by {}
                    assert(Self::distinct(after));
                    assert forall|p: (BodyId, BodyId)|
                        Self::pairs_of(after).contains_key(p) == record(
                            Self::pairs_of(before),
                            event,
                        ).contains_key(p) by {
                        if Self::pairs_of(after).contains_key(p) {
                            let k = choose|k: int| Self::has_pair(after, p, k);
                            assert(Self::has_pair(before, p, k));
                        }
                        if Self::pairs_of(before).contains_key(p) {
                            let k = choose|k: int| Self::has_pair(before, p, k);
                            assert(Self::has_pair(after, p, k));
                        }
                        if p == pair {
                            assert(Self::has_pair(after, p, i as int));
                        }
                    }
                    assert forall|p: (BodyId, BodyId)|
                        Self::pairs_of(after).contains_key(p) implies Self::pairs_of(after)[p]
                        == record(Self::pairs_of(before), event)[p] by {
                        let k = choose|k: int| Self::has_pair(after, p, k);
                        Self::lemma_lookup(after, k);
                        if p != pair {
                            Self::lemma_lookup(before, k);
                        } else {
                            assert(k == i);
                        }
                    }
                    assert(Self::pairs_of(after) =~= record(Self::pairs_of(before), event));
                }
                changed
            },
            None => {
                proof {
                    Self::lemma_absent(before, pair);
                }
                self.entries.push(
                    TrackedContact { character: character, other_body: other_body, last_status: status },
                );
                proof {
                    let after = self.entries@;
                    let last = before.len() as int;
                    assert(after[last].pair() == pair);
                    assert forall|j: int| 0 <= j < last implies (#[trigger] after[j]) == before[j] by {}
                    assert(Self::distinct(after));
                    assert forall|p: (BodyId, BodyId)|
                        Self::pairs_of(after).contains_key(p) == record(
                            Self::pairs_of(before),
                            event,
                        ).contains_key(p) by {
                        if Self::pairs_of(after).contains_key(p) {
                            let k = choose|k: int| Self::has_pair(after, p, k);
                            if k < last {
                                assert(Self::has_pair(before, p, k));
                            }
                        }
                        if Self::pairs_of(before).contains_key(p) {
                            let k = choose|k: int| Self::has_pair(before, p, k);
                            assert(Self::has_pair(after, p, k));
                        }
                        if p == pair {
                            assert(Self::has_pair(after, p, last));
                        }
                    }
                    assert forall|p: (BodyId, BodyId)|
                        Self::pairs_of(after).contains_key(p) implies Self::pairs_of(after)[p]
                        == record(Self::pairs_of(before), event)[p] by {
                        let k = choose|k: int| Self::has_pair(after, p, k);
                        Self::lemma_lookup(after, k);
                        if p != pair {
                            assert(k < last);
                            Self::lemma_lookup(before, k);
                        } else {
                            assert(k == last);
                        }
                    }
                    assert(Self::pairs_of(after) =~= record(Self::pairs_of(before), event));
                }
                true
            },
        }
    }

    /// Acknowledges a pair: if its record says that it has stopped, the
    /// record is dropped. Tells whether a record was dropped.
    pub fn acknowledge(&mut self, character: BodyId, other_body: BodyId) -> (dropped: bool)
        requires
            old(self).wf(),
        ensures
            final(self).wf(),
            final(self)@ == acknowledged(old(self)@, (character, other_body)),
            dropped == (old(self)@.contains_key((character, other_body)) && old(self)@[(
                character,
                other_body,
            )] == ContactStatus::Stopped),
    {
        let ghost pair = (character, other_body);
        let ghost before = self.entries@;
        match self.find(character, other_body) {
            Some(i) => {
                proof {
                    Self::lemma_lookup(before, i as int);
                }
                if self.entries[i].last_status == ContactStatus::Stopped {
                    self.entries.remove(i);
                    proof {
                        let after = self.entries@;
                        assert(after =~= before.remove(i as int));
                        assert forall|j: int| 0 <= j < after.len() implies #[trigger] after[j] == (
                        if j < i {
                            before[j]
                        } else {
                            before[j + 1]
                        }) by {}
                        assert(Self::distinct(after));
                        assert forall|p: (BodyId, BodyId)|
                            Self::pairs_of(after).contains_key(p) == Self::pairs_of(before).remove(
                                pair,
                            ).contains_key(p) by {
                            if Self::pairs_of(after).contains_key(p) {
                                let k = choose|k: int| Self::has_pair(after, p, k);
                                if k < i {
                                    assert(Self::has_pair(before, p, k));
                                } else {
                                    assert(Self::has_pair(before, p, k + 1));
                                }
                            }
                            if Self::pairs_of(before).contains_key(p) && p != pair {
                                let k = choose|k: int| Self::has_pair(before, p, k);
                                if k < i {
                                    assert(Self::has_pair(after, p, k));
                                } else {
                                    assert(Self::has_pair(after, p, k - 1));
                                }
                            }
                        }
                        assert forall|p: (BodyId, BodyId)|
                            Self::pairs_of(after).contains_key(p) implies Self::pairs_of(after)[p]
                            == Self::pairs_of(before).remove(pair)[p] by {
                            let k = choose|k: int| Self::has_pair(after, p, k);
                            Self::lemma_lookup(after, k);
                            if k < i {
                                Self::lemma_lookup(before, k);
                            } else {
                                Self::lemma_lookup(before, k + 1);
                            }
                        }
                        assert(Self::pairs_of(after) =~= Self::pairs_of(before).remove(pair));
                    }
                    true
                } else {
                    false
                }
            },
            None => {
                proof {
                    Self::lemma_absent(before, pair);
                }
                false
            },
        }
    }

    /// The number of pairs on record.
    pub fn len(&self) -> (n: usize)
        requires
            self.wf(),
        ensures
            n == self@.dom().len(),
            self@.dom().finite(),
    {
        proof {
            Self::lemma_domain_size(self.entries@);
        }
        self.entries.len()
    }

    proof fn lemma_domain_size(entries: Seq<TrackedContact>)
        requires
            Self::distinct(entries),
        ensures
            Self::pairs_of(entries).dom().finite(),
            Self::pairs_of(entries).dom().len() == entries.len(),
        decreases entries.len(),
    {
        if entries.len() == 0 {
            assert forall|pair: (BodyId, BodyId)| !Self::pairs_of(entries).contains_key(pair) by {
                Self::lemma_absent(entries, pair);
            }
            assert(Self::pairs_of(entries).dom() =~= Set::empty());
        } else {
            let rest = entries.drop_last();
            let last = entries.last();
            assert forall|i: int, j: int|
                0 <= i < rest.len() && 0 <= j < rest.len() && i != j implies (#[trigger] rest[i]).pair()
                != (#[trigger] rest[j]).pair() by {
                assert(rest[i] == entries[i]);
                assert(rest[j] == entries[j]);
            }
            Self::lemma_domain_size(rest);
            assert forall|pair: (BodyId, BodyId)|
                Self::pairs_of(entries).dom().contains(pair) == Self::pairs_of(rest).dom().insert(
                    last.pair(),
                ).contains(pair) by {
                if Self::pairs_of(entries).contains_key(pair) {
                    let k = choose|k: int| Self::has_pair(entries, pair, k);
                    if k < rest.len() {
                        assert(rest[k] == entries[k]);
                        assert(Self::has_pair(rest, pair, k));
                    }
                }
                if Self::pairs_of(rest).contains_key(pair) {
                    let k = choose|k: int| Self::has_pair(rest, pair, k);
                    assert(rest[k] == entries[k]);
                    assert(Self::has_pair(entries, pair, k));
                }
                if pair == last.pair() {
                    assert(Self::has_pair(entries, pair, entries.len() - 1));
                }
            }
            assert(Self::pairs_of(entries).dom() =~= Self::pairs_of(rest).dom().insert(last.pair()));
            assert(!Self::pairs_of(rest).dom().contains(last.pair())) by {
                if Self::pairs_of(rest).contains_key(last.pair()) {
                    let k = choose|k: int| Self::has_pair(rest, last.pair(), k);
                    assert(rest[k] == entries[k]);
                    assert(entries[k].pair() != entries[entries.len() - 1].pair());
                }
            }
        }
    }
}

} // verus!
