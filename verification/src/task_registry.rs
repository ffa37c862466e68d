//! Which gestures have a task running, by identifier.
//!
//! Every started task gets a ticket that stands for its cancellation handle.
//! Whoever runs the tasks keeps the handles by ticket; the registry keeps
//! the tickets by gesture identifier, at most one per identifier.

use vstd::prelude::*;

verus! {

/// One running task: the gesture it plays and the ticket of its handle.
struct Entry {
    identifier: String,
    ticket: u64,
}

/// The tickets of the running tasks, by gesture identifier.
pub struct TaskRegistry {
    entries: Vec<Entry>,
    next_ticket: u64,
}

/// What registering a task gave: its ticket, and the ticket that the
/// identifier held before, whose task now runs on unowned.
#[derive(Clone, Copy, Debug, PartialEq, Eq, Structural)]
pub struct Registered {
    pub ticket: u64,
    pub replaced: Option<u64>,
}

spec fn has_key(es: Seq<Entry>, k: Seq<char>) -> bool {
    exists|i: int| 0 <= i < es.len() && #[trigger] es[i].identifier@ == k
}

spec fn position(es: Seq<Entry>, k: Seq<char>) -> int {
    choose|i: int| 0 <= i < es.len() && #[trigger] es[i].identifier@ == k
}

spec fn distinct(es: Seq<Entry>) -> bool {
    forall|i: int, j: int|
        0 <= i < j < es.len() ==> #[trigger] es[i].identifier@ != #[trigger] es[j].identifier@
}

spec fn as_map(es: Seq<Entry>) -> Map<Seq<char>, u64> {
    Map::new(|k: Seq<char>| has_key(es, k), |k: Seq<char>| es[position(es, k)].ticket)
}

proof fn lemma_entry_is_mapped(es: Seq<Entry>, i: int)
    requires
        distinct(es),
        0 <= i < es.len(),
    ensures
        as_map(es).contains_key(es[i].identifier@),
        as_map(es)[es[i].identifier@] == es[i].ticket,
{
    let k = es[i].identifier@;
    assert(has_key(es, k));
    let p = position(es, k);
    assert(0 <= p < es.len() && es[p].identifier@ == k);
    if p < i {
        assert(es[p].identifier@ != es[i].identifier@);
    } else if i < p {
        assert(es[i].identifier@ != es[p].identifier@);
    }
}

proof fn lemma_keys_are_finite(es: Seq<Entry>)
    requires
        distinct(es),
    ensures
        as_map(es).dom().finite(),
        as_map(es).dom().len() == es.len(),
    decreases es.len(),
{
    if es.len() == 0 {
        assert(as_map(es).dom() =~= Set::<Seq<char>>::empty());
    } else {
        let front = es.drop_last();
        let k = es.last().identifier@;
        assert(distinct(front)) by {
            assert forall|i: int, j: int| 0 <= i < j < front.len() implies #[trigger] front[i].identifier@
                != #[trigger] front[j].identifier@ by {
                assert(es[i].identifier@ != es[j].identifier@);
            }
        }
        lemma_keys_are_finite(front);
        assert(!has_key(front, k)) by {
            if has_key(front, k) {
                let p = position(front, k);
                assert(es[p].identifier@ != es[es.len() - 1].identifier@);
            }
        }
        assert(as_map(es).dom() =~= as_map(front).dom().insert(k)) by {
            assert forall|q: Seq<char>| as_map(es).dom().contains(q) == as_map(front).dom().insert(
                k,
            ).contains(q) by {
                if has_key(es, q) {
                    let p = position(es, q);
                    if p < front.len() {
                        assert(front[p].identifier@ == q);
                    }
                }
                if has_key(front, q) {
                    let p = position(front, q);
                    assert(es[p].identifier@ == q);
                }
                if q == k {
                    assert(es[es.len() - 1].identifier@ == q);
                }
            }
        }
    }
}

proof fn lemma_entry_removed(es: Seq<Entry>, i: int)
    requires
        distinct(es),
        0 <= i < es.len(),
    ensures
        distinct(es.remove(i)),
        as_map(es.remove(i)) == as_map(es).remove(es[i].identifier@),
{
    let after = es.remove(i);
    let key = es[i].identifier@;
    assert forall|a: int, b: int| 0 <= a < b < after.len() implies #[trigger] after[a].identifier@
        != #[trigger] after[b].identifier@ by {
        let first = if a < i { a } else { a + 1 };
        let second = if b < i { b } else { b + 1 };
        assert(es[first].identifier@ != es[second].identifier@);
    }
    let lhs = as_map(after);
    let rhs = as_map(es).remove(key);
    assert forall|q: Seq<char>| lhs.dom().contains(q) == rhs.dom().contains(q) by {
        if has_key(after, q) {
            let p = position(after, q);
            let earlier = if p < i { p } else { p + 1 };
            assert(es[earlier].identifier@ == q);
            if earlier < i {
                assert(es[earlier].identifier@ != es[i].identifier@);
            } else {
                assert(es[i].identifier@ != es[earlier].identifier@);
            }
        }
        if q != key && has_key(es, q) {
            let p = position(es, q);
            let later = if p < i { p } else { p - 1 };
            assert(after[later].identifier@ == q);
        }
    }
    assert(lhs.dom() =~= rhs.dom());
    assert forall|q: Seq<char>| lhs.dom().contains(q) implies lhs[q] == rhs[q] by {
        let p = position(es, q);
        let later = if p < i { p } else { p - 1 };
        assert(has_key(es, q));
        assert(after[later].identifier@ == q);
        lemma_entry_is_mapped(after, later);
        lemma_entry_is_mapped(es, p);
    }
    assert(lhs =~= rhs);
}

impl View for TaskRegistry {
    type V = Map<Seq<char>, u64>;

    /// The ticket of each gesture that has a task.
    closed spec fn view(&self) -> Map<Seq<char>, u64> {
        as_map(self.entries@)
    }
}

impl TaskRegistry {
    #[verifier::type_invariant]
    spec fn inv(self) -> bool {
        &&& distinct(self.entries@)
        &&& forall|i: int| 0 <= i < self.entries@.len() ==> (#[trigger] self.entries@[i]).ticket
            < self.next_ticket
    }

    /// How many tickets have been given out; the next ticket has this
    /// number.
    pub closed spec fn issued(self) -> u64 {
        self.next_ticket
    }

    /// A registry without tasks.
    pub fn new() -> (r: TaskRegistry)
        ensures
            r@ == Map::<Seq<char>, u64>::empty(),
            r.issued() == 0,
    {
        let r = TaskRegistry { entries: Vec::new(), next_ticket: 0 };
        assert(r@ =~= Map::<Seq<char>, u64>::empty());
        r
    }

    /// Whether every ticket has been given out.
    pub fn issued_all(&self) -> (b: bool)
        ensures
            b == (self.issued() == u64::MAX),
    {
        self.next_ticket == u64::MAX
    }

    /// How many gestures have a task.
    pub fn len(&self) -> (n: usize)
        ensures
            self@.dom().finite(),
            n == self@.dom().len(),
    {
        proof {
            use_type_invariant(self);
            lemma_keys_are_finite(self.entries@);
        }
        self.entries.len()
    }

    fn find(&self, identifier: &String) -> (r: Option<usize>)
        ensures
            match r {
                Some(i) => i < self.entries@.len() && self.entries@[i as int].identifier@
                    == identifier@,
                None => !has_key(self.entries@, identifier@),
            },
    {
        let mut i: usize = 0;
        while i < self.entries.len()
            invariant
                i <= self.entries@.len(),
                forall|k: int| 0 <= k < i ==> self.entries@[k].identifier@ != identifier@,
            decreases self.entries@.len() - i,
        {
            if self.entries[i].identifier == *identifier {
                return Some(i);
            }
            i += 1;
        }
        None
    }

    /// The ticket that `identifier` holds, if it has a task.
    pub fn get(&self, identifier: &String) -> (r: Option<u64>)
        ensures
            r == if self@.contains_key(identifier@) {
                Some(self@[identifier@])
            } else {
                None
            },
    {
        proof {
            use_type_invariant(self);
        }
        match self.find(identifier) {
            Some(i) => {
                proof {
                    lemma_entry_is_mapped(self.entries@, i as int);
                }
                Some(self.entries[i].ticket)
            },
            None => None,
        }
    }

    /// Records a new task for `identifier` under a ticket never given out
    /// before. A task that the identifier already had is not stopped: its
    /// ticket is handed back and the entry is overwritten, so that the
    /// identifier keeps exactly one entry. Nothing is recorded once every
    /// ticket a `u64` can number has been given out.
    pub fn register(&mut self, identifier: String) -> (r: Option<Registered>)
        ensures
            old(self).issued() == u64::MAX ==> r is None && final(self)@ == old(self)@
                && final(self).issued() == old(self).issued(),
            old(self).issued() < u64::MAX ==> {
                &&& r == Some(
                    Registered {
                        ticket: old(self).issued(),
                        replaced: if old(self)@.contains_key(identifier@) {
                            Some(old(self)@[identifier@])
                        } else {
                            None
                        },
                    },
                )
                &&& final(self)@ == old(self)@.insert(identifier@, old(self).issued())
                &&& final(self).issued() == old(self).issued() + 1
            },
            forall|k: Seq<char>| old(self)@.contains_key(k) ==> old(self)@[k] < old(self).issued(),
    {
        proof {
            use_type_invariant(&*self);
        }
        let ghost before = self.entries@;
        let ghost key = identifier@;
        assert forall|k: Seq<char>| as_map(before).contains_key(k) implies as_map(before)[k]
            < self.next_ticket by {
            let p = position(before, k);
            assert(before[p].ticket < self.next_ticket);
        }
        if self.next_ticket == u64::MAX {
            return None;
        }
        let ticket = self.next_ticket;
        let found = self.find(&identifier);
        let mut entries: Vec<Entry> = Vec::new();
        std::mem::swap(&mut entries, &mut self.entries);
        let replaced = match found {
            Some(i) => {
                proof {
                    lemma_entry_is_mapped(before, i as int);
                }
                let previous = entries[i].ticket;
                entries.set(i, Entry { identifier, ticket });
                Some(previous)
            },
            None => {
                entries.push(Entry { identifier, ticket });
                None
            },
        };
        let ghost after = entries@;
        assert(distinct(after)) by {
            assert forall|i: int, j: int| 0 <= i < j < after.len() implies #[trigger] after[i].identifier@
                != #[trigger] after[j].identifier@ by {
                if i < before.len() && j < before.len() {
                    assert(before[i].identifier@ != before[j].identifier@);
                } else {
                    assert(before[i].identifier@ != key);
                }
            }
        }
        assert(as_map(after) =~= as_map(before).insert(key, ticket)) by {
            let w: int = match found {
                Some(i) => i as int,
                None => before.len() as int,
            };
            assert(after[w].identifier@ == key && after[w].ticket == ticket);
            lemma_entry_is_mapped(after, w);
            assert forall|q: Seq<char>| q != key implies (as_map(after).contains_key(q)
                == as_map(before).contains_key(q)) && (as_map(before).contains_key(q)
                ==> as_map(after)[q] == as_map(before)[q]) by {
                if has_key(after, q) {
                    let p = position(after, q);
                    assert(before[p].identifier@ == q);
                }
                if has_key(before, q) {
                    let p = position(before, q);
                    assert(after[p].identifier@ == q);
                    lemma_entry_is_mapped(after, p);
                    lemma_entry_is_mapped(before, p);
                }
            }
        }
        *self = TaskRegistry { entries, next_ticket: ticket + 1 };
        Some(Registered { ticket, replaced })
    }

    /// Forgets the task of `identifier` and hands back its ticket, for the
    /// task to be told to stop. An identifier without a task changes
    /// nothing.
    pub fn remove(&mut self, identifier: &String) -> (r: Option<u64>)
        ensures
            r == if old(self)@.contains_key(identifier@) {
                Some(old(self)@[identifier@])
            } else {
                None
            },
            final(self)@ == old(self)@.remove(identifier@),
            final(self).issued() == old(self).issued(),
    {
        proof {
            use_type_invariant(&*self);
        }
        let ghost before = self.entries@;
        let ghost key = identifier@;
        match self.find(identifier) {
            None => {
                assert(as_map(before) =~= as_map(before).remove(key));
                None
            },
            Some(i) => {
                proof {
                    lemma_entry_is_mapped(before, i as int);
                }
                let next_ticket = self.next_ticket;
                let mut entries: Vec<Entry> = Vec::new();
                std::mem::swap(&mut entries, &mut self.entries);
                let gone = entries.remove(i);
                proof {
                    lemma_entry_removed(before, i as int);
                }
                *self = TaskRegistry { entries, next_ticket };
                Some(gone.ticket)
            },
        }
    }
}

/// Starting a second task under an identifier that still has one leaves the
/// identifier with exactly one entry, that of the second task: the registry
/// has the same gestures as after the first start, and no more.
pub proof fn lemma_second_start_overwrites(
    tasks: Map<Seq<char>, u64>,
    identifier: Seq<char>,
    first: u64,
    second: u64,
)
    requires
        tasks.dom().finite(),
    ensures
        tasks.insert(identifier, first).insert(identifier, second) == tasks.insert(
            identifier,
            second,
        ),
        tasks.insert(identifier, first).insert(identifier, second).dom() == tasks.insert(
            identifier,
            first,
        ).dom(),
        tasks.insert(identifier, first).insert(identifier, second).dom().len() == tasks.insert(
            identifier,
            first,
        ).dom().len(),
        tasks.insert(identifier, first).insert(identifier, second)[identifier] == second,
{
    assert(tasks.insert(identifier, first).insert(identifier, second) =~= tasks.insert(
        identifier,
        second,
    ));
    assert(tasks.insert(identifier, first).insert(identifier, second).dom() =~= tasks.insert(
        identifier,
        first,
    ).dom());
}

} // verus!
