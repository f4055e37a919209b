//! Who is inside which shared space, and since when.
//!
//! A ledger keeps, for each space of one kind, the people inside in the order
//! in which they came. Nothing is computed while people stay: when somebody
//! leaves, the time shared with each person who is still inside is worked out
//! from the two times of entry.

use std::collections::BTreeMap;
use std::marker::PhantomData;
use vstd::prelude::*;
use crate::ids::{PersonID, SpaceId};
use crate::time::{Duration, Time};

verus! {

broadcast use vstd::std_specs::btree::group_btree_axioms;

/// The entries of `occ` that are not `person`'s, in their order.
pub open spec fn spec_without(occ: Seq<(PersonID, Time)>, person: PersonID) -> Seq<(PersonID, Time)> {
    occ.filter(|e: (PersonID, Time)| e.0 != person)
}

/// The time of `person`'s entry in `occ`: that of the last one, should there
/// be several.
pub open spec fn spec_entered(occ: Seq<(PersonID, Time)>, person: PersonID) -> Option<Time>
    decreases occ.len(),
{
    if occ.len() == 0 {
        None
    } else if occ.last().0 == person {
        Some(occ.last().1)
    } else {
        spec_entered(occ.drop_last(), person)
    }
}

/// For each of `rest`, the time shared up to `now` with somebody who came at
/// `since`: it runs from the later of the two entries.
pub open spec fn spec_overlaps(rest: Seq<(PersonID, Time)>, since: Time, now: Time) -> Seq<
    (PersonID, Duration),
> {
    rest.map_values(|e: (PersonID, Time)| (e.0, now.spec_since(e.1.spec_max(since))))
}

/// The ledger of the spaces of one kind.
pub struct SharedSpace<T: SpaceId> {
    occupants: BTreeMap<usize, Vec<(PersonID, Time)>>,
    kind: PhantomData<T>,
}

impl<T: SpaceId> SharedSpace<T> {
    /// The people inside the space filed under `key`, with their times of
    /// entry, in the order in which they came.
    pub closed spec fn at(&self, key: usize) -> Seq<(PersonID, Time)> {
        if self.occupants@.contains_key(key) {
            self.occupants@[key]@
        } else {
            Seq::empty()
        }
    }

    /// The people inside `space`.
    pub open spec fn inside(&self, space: T) -> Seq<(PersonID, Time)> {
        self.at(space.spec_index())
    }

    /// A ledger in which every space is empty.
    pub fn new() -> (ledger: SharedSpace<T>)
        ensures
            forall|key: usize| #[trigger] ledger.at(key) == Seq::<(PersonID, Time)>::empty(),
    {
        SharedSpace { occupants: BTreeMap::new(), kind: PhantomData }
    }

    /// Records that `person` came into `space` at `now`.
    pub fn person_enters_space(&mut self, now: Time, person: PersonID, space: T)
        ensures
            final(self).inside(space) == old(self).inside(space).push((person, now)),
            forall|key: usize|
                key != space.spec_index() ==> #[trigger] final(self).at(key) == old(self).at(key),
    {
        let key = space.index();
        let mut list = match self.occupants.remove(&key) {
            Some(list) => list,
            None => Vec::new(),
        };
        list.push((person, now));
        self.occupants.insert(key, list);
    }

    /// Records that `person` left `space` at `now`, and returns the time
    /// shared with each person who stays, in the order in which they came.
    ///
    /// Returns `None`, and changes nothing, if `person` was not inside.
    pub fn person_leaves_space(&mut self, now: Time, person: PersonID, space: T) -> (others: Option<
        Vec<(PersonID, Duration)>,
    >)
        ensures
            final(self).inside(space) == spec_without(old(self).inside(space), person),
            forall|key: usize|
                key != space.spec_index() ==> #[trigger] final(self).at(key) == old(self).at(key),
            others is Some <==> spec_entered(old(self).inside(space), person) is Some,
            others is Some ==> others->Some_0@ == spec_overlaps(
                final(self).inside(space),
                spec_entered(old(self).inside(space), person)->Some_0,
                now,
            ),
    {
        let key = space.index();
        let list = match self.occupants.remove(&key) {
            Some(list) => list,
            None => Vec::new(),
        };
        let ghost occ = list@;
        assert(occ == old(self).inside(space));
        let mut kept: Vec<(PersonID, Time)> = Vec::new();
        let mut inside_since: Option<Time> = None;
        let mut i: usize = 0;
        while i < list.len()
            invariant
                i <= list.len(),
                occ == list@,
                kept@ == spec_without(occ.take(i as int), person),
                inside_since == spec_entered(occ.take(i as int), person),
            decreases list.len() - i,
        {
            let entry = list[i];
            proof {
                let upto = occ.take(i as int + 1);
                assert(upto.drop_last() == occ.take(i as int));
                assert(upto.last() == entry);
                reveal(Seq::filter);
            }
            if entry.0.0 == person.0 {
                inside_since = Some(entry.1);
            } else {
                kept.push(entry);
            }
            i += 1;
        }
        assert(occ.take(list.len() as int) == occ);
        let result = match inside_since {
            None => None,
            Some(since) => {
                let mut others: Vec<(PersonID, Duration)> = Vec::new();
                let mut j: usize = 0;
                while j < kept.len()
                    invariant
                        j <= kept.len(),
                        others.len() == j,
                        forall|k: int|
                            0 <= k < j ==> others[k] == (
                                kept[k].0,
                                now.spec_since(kept[k].1.spec_max(since)),
                            ),
                    decreases kept.len() - j,
                {
                    let entry = kept[j];
                    others.push((entry.0, now.since(entry.1.max(since))));
                    j += 1;
                }
                assert(others@ == spec_overlaps(kept@, since, now));
                Some(others)
            },
        };
        self.occupants.insert(key, kept);
        result
    }
}

impl<T: SpaceId> SharedSpace<T> {
    /// The people inside `space`, with their times of entry, in the order
    /// in which they came.
    pub fn occupants(&self, space: T) -> (list: Vec<(PersonID, Time)>)
        ensures
            list@ == self.inside(space),
    {
        let key = space.index();
        let mut list: Vec<(PersonID, Time)> = Vec::new();
        match self.occupants.get(&key) {
            None => {},
            Some(inside) => {
                let mut i: usize = 0;
                while i < inside.len()
                    invariant
                        i <= inside.len(),
                        list@ == inside@.take(i as int),
                    decreases inside.len() - i,
                {
                    list.push(inside[i]);
                    assert(inside@.take(i as int + 1) == inside@.take(i as int).push(inside@[i as int]));
                    i += 1;
                }
                assert(inside@.take(inside.len() as int) == inside@);
            },
        }
        list
    }

    /// Whether `person` is inside `space`.
    pub fn holds(&self, person: PersonID, space: T) -> (b: bool)
        ensures
            b == spec_entered(self.inside(space), person) is Some,
    {
        let key = space.index();
        match self.occupants.get(&key) {
            None => false,
            Some(list) => {
                let mut found = false;
                let mut i: usize = 0;
                while i < list.len()
                    invariant
                        i <= list.len(),
                        found == spec_entered(list@.take(i as int), person) is Some,
                    decreases list.len() - i,
                {
                    proof {
                        let upto = list@.take(i as int + 1);
                        assert(upto.drop_last() == list@.take(i as int));
                        assert(upto.last() == list@[i as int]);
                    }
                    if list[i].0.0 == person.0 {
                        found = true;
                    }
                    i += 1;
                }
                assert(list@.take(list.len() as int) == list@);
                found
            },
        }
    }
}

/// Whoever is left after `person` has gone was there before.
pub proof fn lemma_without_is_part(occ: Seq<(PersonID, Time)>, person: PersonID)
    ensures
        forall|i: int|
            0 <= i < spec_without(occ, person).len() ==> occ.contains(#[trigger] spec_without(occ, person)[i]),
    decreases occ.len(),
{
    reveal(Seq::filter);
    if occ.len() > 0 {
        let front = occ.drop_last();
        lemma_without_is_part(front, person);
        assert forall|i: int| 0 <= i < spec_without(occ, person).len() implies occ.contains(
            #[trigger] spec_without(occ, person)[i],
        ) by {
            let rest = spec_without(occ, person);
            if i < spec_without(front, person).len() {
                assert(rest[i] == spec_without(front, person)[i]);
                let j = choose|j: int| 0 <= j < front.len() && front[j] == rest[i];
                assert(occ[j] == rest[i]);
            } else {
                assert(rest[i] == occ[occ.len() - 1]);
            }
        }
    }
}

/// Somebody with a time of entry is among the occupants.
pub proof fn lemma_entered_is_inside(occ: Seq<(PersonID, Time)>, person: PersonID)
    requires
        spec_entered(occ, person) is Some,
    ensures
        exists|i: int| 0 <= i < occ.len() && (#[trigger] occ[i]).0 == person,
    decreases occ.len(),
{
    if occ.last().0 == person {
        assert(occ[occ.len() - 1].0 == person);
    } else {
        lemma_entered_is_inside(occ.drop_last(), person);
        let i = choose|i: int| 0 <= i < occ.drop_last().len() && (#[trigger] occ.drop_last()[i]).0 == person;
        assert(occ[i].0 == person);
    }
}

/// Somebody who has just come in has a time of entry.
pub proof fn lemma_entered_after_push(occ: Seq<(PersonID, Time)>, person: PersonID, now: Time)
    ensures
        spec_entered(occ.push((person, now)), person) == Some(now),
{
    assert(occ.push((person, now)).last() == (person, now));
}

/// Nobody is inside a space right after leaving it.
pub proof fn lemma_gone_after_leaving(occ: Seq<(PersonID, Time)>, person: PersonID)
    ensures
        spec_entered(spec_without(occ, person), person) is None,
    decreases occ.len(),
{
    reveal(Seq::filter);
    if occ.len() > 0 {
        lemma_gone_after_leaving(occ.drop_last(), person);
        let rest = spec_without(occ, person);
        if occ.last().0 != person {
            assert(rest.last() == occ.last());
            assert(rest.drop_last() == spec_without(occ.drop_last(), person));
        }
    }
}

/// Somebody else's coming or going leaves a person's time of entry as it was.
pub proof fn lemma_entered_of_another(occ: Seq<(PersonID, Time)>, person: PersonID, other: PersonID, now: Time)
    requires
        other != person,
    ensures
        spec_entered(occ.push((other, now)), person) == spec_entered(occ, person),
        spec_entered(spec_without(occ, other), person) == spec_entered(occ, person),
    decreases occ.len(),
{
    reveal(Seq::filter);
    let longer = occ.push((other, now));
    assert(longer.last() == (other, now));
    assert(longer.drop_last() == occ);
    if occ.len() > 0 {
        lemma_entered_of_another(occ.drop_last(), person, other, now);
        let rest = spec_without(occ, other);
        if occ.last().0 != other {
            assert(rest.last() == occ.last());
            assert(rest.drop_last() == spec_without(occ.drop_last(), other));
        }
    }
}

/// Somebody who comes into an empty space and leaves it has shared it with
/// nobody.
pub proof fn lemma_alone_means_no_overlap(person: PersonID, came: Time, left: Time)
    ensures
        spec_entered(seq![(person, came)], person) == Some(came),
        spec_without(seq![(person, came)], person) == Seq::<(PersonID, Time)>::empty(),
        spec_overlaps(spec_without(seq![(person, came)], person), came, left) == Seq::<
            (PersonID, Duration),
        >::empty(),
{
    reveal_with_fuel(Seq::filter, 3);
    let occ = seq![(person, came)];
    assert(occ.last() == (person, came));
    assert(occ.drop_last() == Seq::<(PersonID, Time)>::empty());
    assert(spec_without(occ.drop_last(), person) == Seq::<(PersonID, Time)>::empty());
    assert(spec_without(occ, person) == Seq::<(PersonID, Time)>::empty());
}

/// Somebody who is not among the occupants has no time of entry, so that
/// their leaving is reported as a fault.
pub proof fn lemma_never_entered(occ: Seq<(PersonID, Time)>, person: PersonID)
    requires
        forall|i: int| 0 <= i < occ.len() ==> (#[trigger] occ[i]).0 != person,
    ensures
        spec_entered(occ, person) is None,
        spec_without(occ, person) == occ,
    decreases occ.len(),
{
    reveal(Seq::filter);
    if occ.len() > 0 {
        let front = occ.drop_last();
        assert forall|i: int| 0 <= i < front.len() implies (#[trigger] front[i]).0 != person by {
            assert(front[i] == occ[i]);
        }
        lemma_never_entered(front, person);
        assert(occ.last() == occ[occ.len() - 1]);
        assert(spec_without(occ, person) == front.push(occ.last()));
        assert(front.push(occ.last()) == occ);
    }
}

} // verus!
