//! The event store: a key-addressed record collection with existence-check,
//! bulk-purge and bulk-insert operations. Its invariant is that `event_id`
//! is unique in the store at any instant; its model is the sequence of
//! record models in insertion order.

use vstd::prelude::*;
use vstd::seq_lib::to_multiset_insert;
use crate::datetime::{spec_datetime_le, datetime_le, lemma_datetime_le_total,
    lemma_datetime_le_trans};
use crate::event::{Event, EventModel, models};
use crate::text::{chars_to_string, split_char, split_char_exec, str_to_chars, lines_view};

verus! {

/// Some record in `s` carries this id.
pub open spec fn contains_id(s: Seq<EventModel>, id: u64) -> bool {
    exists|i: int| 0 <= i < s.len() && s[i].event_id == id
}

/// No two records in `s` share an id.
pub open spec fn unique_ids(s: Seq<EventModel>) -> bool {
    forall|i: int, j: int| 0 <= i < j < s.len() ==> s[i].event_id != s[j].event_id
}

/// `s` with `e` appended, unless a record with its id is already present;
/// what one defensive insert leaves behind.
pub open spec fn insert_new(s: Seq<EventModel>, e: EventModel) -> Seq<EventModel> {
    if contains_id(s, e.event_id) {
        s
    } else {
        s.push(e)
    }
}

/// `s` after defensively inserting each record of `evs` in order.
pub open spec fn insert_all(s: Seq<EventModel>, evs: Seq<EventModel>) -> Seq<EventModel>
    decreases evs.len(),
{
    if evs.len() == 0 {
        s
    } else {
        insert_all(insert_new(s, evs[0]), evs.skip(1))
    }
}

/// The records are ordered by their start timestamp, earliest first.
pub open spec fn sorted_by_start(s: Seq<EventModel>) -> bool {
    forall|i: int, j: int|
        0 <= i < j < s.len() ==> spec_datetime_le(s[i].from_datetime, s[j].from_datetime)
}

/// An in-memory event store keyed by `event_id`.
pub struct Store {
    events: Vec<Event>,
}

impl View for Store {
    type V = Seq<EventModel>;

    closed spec fn view(&self) -> Seq<EventModel> {
        models(self.events@)
    }
}

impl Store {
    /// The store's invariant: ids are unique.
    pub open spec fn inv(&self) -> bool {
        unique_ids(self@)
    }

    /// An empty store.
    pub fn new() -> (s: Store)
        ensures
            s@ == Seq::<EventModel>::empty(),
            s.inv(),
    {
        let s = Store { events: Vec::new() };
        proof {
            assert(s@ =~= Seq::<EventModel>::empty());
        }
        s
    }

    /// How many records the store holds.
    pub fn count_events(&self) -> (n: usize)
        ensures
            n == self@.len(),
    {
        self.events.len()
    }

    /// Looks a record up by id; `None` when no record carries the id.
    pub fn get_event(&self, id: u64) -> (r: Option<Event>)
        ensures
            r is Some <==> contains_id(self@, id),
            r matches Some(e) ==> e@.event_id == id && self@.contains(e@),
    {
        let mut i: usize = 0;
        while i < self.events.len()
            invariant
                i <= self@.len(),
                forall|k: int| 0 <= k < i ==> self@[k].event_id != id,
            decreases self@.len() - i,
        {
            if self.events[i].event_id == id {
                let found = self.events[i].clone();
                assert(self@[i as int] == self.events@[i as int]@);
                return Some(found);
            }
            i = i + 1;
        }
        None
    }

    /// Creates a record under its id, unless one with that id already
    /// exists; returns the created record, or `None` for "already exists".
    pub fn create_event(&mut self, event: Event) -> (r: Option<Event>)
        requires
            old(self).inv(),
        ensures
            final(self).inv(),
            final(self)@ == insert_new(old(self)@, event@),
            r is Some <==> !contains_id(old(self)@, event@.event_id),
            r matches Some(e) ==> e@ == event@,
    {
        let existing = self.get_event(event.event_id);
        match existing {
            Some(_) => None,
            None => {
                let created = event.clone();
                proof {
                    assert(models(self.events@.push(event)) =~= self@.push(event@));
                }
                self.events.push(event);
                Some(created)
            }
        }
    }

    /// Defensively inserts each record of `events` in order: a record whose
    /// id is already present is skipped, the rest are created.
    pub fn create_many_events(&mut self, events: &Vec<Event>)
        requires
            old(self).inv(),
        ensures
            final(self).inv(),
            final(self)@ == insert_all(old(self)@, models(events@)),
    {
        let ghost ms = models(events@);
        let mut i: usize = 0;
        proof {
            assert(ms.skip(0) =~= ms);
        }
        while i < events.len()
            invariant
                i <= events@.len(),
                ms == models(events@),
                self.inv(),
                insert_all(old(self)@, ms) == insert_all(self@, ms.skip(i as int)),
            decreases events@.len() - i,
        {
            proof {
                assert(ms.skip(i as int)[0] == ms[i as int]);
                assert(ms.skip(i as int).skip(1) =~= ms.skip(i + 1));
                assert(ms[i as int] == events@[i as int]@);
            }
            let e = events[i].clone();
            self.create_event(e);
            i = i + 1;
        }
        proof {
            assert(ms.skip(ms.len() as int) =~= Seq::<EventModel>::empty());
        }
    }

    /// Deletes every record, returning what was removed in store order.
    pub fn purge_events(&mut self) -> (r: Vec<Event>)
        ensures
            models(r@) == old(self)@,
            final(self)@ == Seq::<EventModel>::empty(),
            final(self).inv(),
    {
        let mut drained: Vec<Event> = Vec::new();
        core::mem::swap(&mut self.events, &mut drained);
        proof {
            assert(self@ =~= Seq::<EventModel>::empty());
        }
        drained
    }

    /// Removes the record with this id, if any, and returns it.
    pub fn delete_event(&mut self, id: u64) -> (r: Option<Event>)
        requires
            old(self).inv(),
        ensures
            final(self).inv(),
            r is Some <==> contains_id(old(self)@, id),
            r is None ==> final(self)@ == old(self)@,
            r matches Some(e) ==> e@.event_id == id && exists|i: int|
                0 <= i < old(self)@.len() && old(self)@[i] == e@ && final(self)@ == old(
                    self,
                )@.remove(i),
    {
        let mut i: usize = 0;
        while i < self.events.len()
            invariant
                *self == *old(self),
                old(self).inv(),
                i <= self@.len(),
                forall|k: int| 0 <= k < i ==> self@[k].event_id != id,
            decreases self@.len() - i,
        {
            if self.events[i].event_id == id {
                assert(self@[i as int] == self.events@[i as int]@);
                let ghost pre = self.events@;
                let removed = self.events.remove(i);
                proof {
                    let m = models(pre);
                    let n = m.remove(i as int);
                    assert(models(pre.remove(i as int)) =~= n);
                    m.remove_ensures(i as int);
                    assert(unique_ids(m));
                    assert forall|a: int, b: int| 0 <= a < b < n.len() implies n[a].event_id
                        != n[b].event_id by {
                        if a < i {
                            assert(n[a] == m[a]);
                        } else {
                            assert(n[a] == m[a + 1]);
                        }
                        if b < i {
                            assert(n[b] == m[b]);
                        } else {
                            assert(n[b] == m[b + 1]);
                        }
                        if a < i && b < i {
                            assert(m[a].event_id != m[b].event_id);
                        } else if a < i {
                            assert(m[a].event_id != m[b + 1].event_id);
                        } else {
                            assert(m[a + 1].event_id != m[b + 1].event_id);
                        }
                    }
                }
                return Some(removed);
            }
            i = i + 1;
        }
        None
    }

    /// All records, as a fresh list sorted by start timestamp ascending.
    pub fn get_all_events(&self) -> (r: Vec<Event>)
        ensures
            sorted_by_start(models(r@)),
            models(r@).to_multiset() == self@.to_multiset(),
    {
        let mut out: Vec<Event> = Vec::new();
        let mut i: usize = 0;
        proof {
            assert(models(self.events@.take(0)) =~= Seq::<EventModel>::empty());
            assert(models(out@) =~= Seq::<EventModel>::empty());
            assert(models(out@).to_multiset() =~= models(self.events@.take(0)).to_multiset());
        }
        while i < self.events.len()
            invariant
                i <= self@.len(),
                sorted_by_start(models(out@)),
                models(out@).to_multiset() == models(self.events@.take(i as int)).to_multiset(),
            decreases self@.len() - i,
        {
            let e = self.events[i].clone();
            let pos = sorted_position(&out, e.from_datetime);
            proof {
                broadcast use vstd::seq_lib::to_multiset_build;

                let m = models(out@);
                let em = e@;
                let p = pos as int;
                to_multiset_insert(m, p, em);
                assert(models(out@.insert(p, e)) =~= m.insert(p, em));
                assert(self.events@.take(i + 1).drop_last() =~= self.events@.take(i as int));
                assert(models(self.events@.take(i + 1)) =~= models(
                    self.events@.take(i as int),
                ).push(self.events@[i as int]@));
                assert forall|a: int, b: int| 0 <= a < b < m.insert(p, em).len() implies
                    spec_datetime_le(
                        m.insert(p, em)[a].from_datetime,
                        m.insert(p, em)[b].from_datetime,
                    ) by {
                    lemma_sorted_insert_pair(m, p, em, a, b);
                }
            }
            out.insert(pos, e);
            i = i + 1;
        }
        proof {
            assert(self.events@.take(self.events@.len() as int) =~= self.events@);
        }
        out
    }
}

/// The record part of a store reference like `rooms:d4my4k`: the second
/// colon-separated segment, or empty when there is none.
pub open spec fn spec_room_record_id(s: Seq<char>) -> Seq<char> {
    let parts = split_char(s, ':');
    if parts.len() >= 2 {
        parts[1]
    } else {
        Seq::empty()
    }
}

/// Extracts the record id from a `table:id` store reference.
pub fn room_record_id(room: &str) -> (r: String)
    ensures
        r@ == spec_room_record_id(room@),
{
    let chars = str_to_chars(room);
    let parts = split_char_exec(&chars, ':');
    proof {
        assert(lines_view(parts@).len() == parts@.len());
    }
    if parts.len() >= 2 {
        proof {
            assert(lines_view(parts@)[1] == parts@[1]@);
        }
        chars_to_string(&parts[1])
    } else {
        String::new()
    }
}

/// The first position whose record starts strictly after `t`; inserting at
/// that position keeps the list sorted.
fn sorted_position(out: &Vec<Event>, t: crate::datetime::DateTime) -> (pos: usize)
    requires
        sorted_by_start(models(out@)),
    ensures
        pos <= out@.len(),
        forall|k: int| 0 <= k < pos ==> spec_datetime_le(models(out@)[k].from_datetime, t),
        forall|k: int|
            pos <= k < out@.len() ==> spec_datetime_le(t, models(out@)[k].from_datetime),
{
    let ghost m = models(out@);
    let mut j: usize = 0;
    while j < out.len()
        invariant
            j <= out@.len(),
            m == models(out@),
            sorted_by_start(m),
            forall|k: int| 0 <= k < j ==> spec_datetime_le(m[k].from_datetime, t),
        decreases out@.len() - j,
    {
        if !datetime_le(out[j].from_datetime, t) {
            proof {
                assert(m[j as int] == out@[j as int]@);
                lemma_datetime_le_total(t, out@[j as int]@.from_datetime);
                assert forall|k: int| j <= k < out@.len() implies spec_datetime_le(
                    t,
                    m[k].from_datetime,
                ) by {
                    if k > j {
                        assert(spec_datetime_le(m[j as int].from_datetime, m[k].from_datetime));
                    }
                    lemma_datetime_le_trans(
                        t,
                        m[j as int].from_datetime,
                        m[k].from_datetime,
                    );
                }
            }
            return j;
        }
        assert(m[j as int] == out@[j as int]@);
        j = j + 1;
    }
    j
}

/// Any two positions of a sorted list stay ordered after inserting a record
/// at the position `sorted_position` picks.
proof fn lemma_sorted_insert_pair(m: Seq<EventModel>, p: int, em: EventModel, a: int, b: int)
    requires
        sorted_by_start(m),
        0 <= p <= m.len(),
        forall|k: int| 0 <= k < p ==> spec_datetime_le(m[k].from_datetime, em.from_datetime),
        forall|k: int| p <= k < m.len() ==> spec_datetime_le(em.from_datetime, m[k].from_datetime),
        0 <= a < b < m.insert(p, em).len(),
    ensures
        spec_datetime_le(m.insert(p, em)[a].from_datetime, m.insert(p, em)[b].from_datetime),
{
    let n = m.insert(p, em);
    if a == p && b == p {
    } else if a < p && b == p {
        assert(n[a] == m[a]);
    } else if a == p && b > p {
        assert(n[b] == m[b - 1]);
    } else if a < p && b > p {
        assert(n[a] == m[a]);
        assert(n[b] == m[b - 1]);
        lemma_datetime_le_trans(
            m[a].from_datetime,
            em.from_datetime,
            m[b - 1].from_datetime,
        );
    } else if b < p {
        assert(n[a] == m[a] && n[b] == m[b]);
    } else {
        assert(a > p);
        assert(n[a] == m[a - 1] && n[b] == m[b - 1]);
    }
}

} // verus!
