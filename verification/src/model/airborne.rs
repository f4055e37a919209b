//! Transmission through the air: the step of the concentration field, and
//! the exposure of the pedestrians who breathe it.

use vstd::prelude::*;
use crate::chance::{bernoulli, Probability, WaitSampler};
use crate::events::{Cmd, Walker};
use crate::geom::{Bounds, cell_index, Distance, Pt2D};
use crate::grid::{
    lemma_index_in_range,
    spec_center,
    spec_den,
    spec_diffused,
    spec_dose,
    spec_place,
    spec_side,
    spec_with_sources,
};
use crate::ids::PersonID;
use crate::model::{ABSORB_FLOOR, DECAY, FULL_EXPOSURE, KAPPA, PandemicModel, SOURCE_PER_SECOND};
use crate::model::outcome::{lemma_outcome_keeps_others, lemma_outcome_step, spec_exposed_from, spec_outcome};
use crate::state::State;
use crate::time::{AnyTime, Duration, Time};

verus! {

broadcast use vstd::std_specs::btree::group_btree_axioms;

/// Where the contagious among `walkers` stand, in the order of `walkers`.
pub open spec fn spec_infectious_positions(walkers: Seq<Walker>, pop: Map<usize, State>) -> Seq<Pt2D>
    decreases walkers.len(),
{
    if walkers.len() == 0 {
        Seq::empty()
    } else {
        let front = spec_infectious_positions(walkers.drop_last(), pop);
        match walkers.last().person {
            Some(p) => if pop.contains_key(p.0) && pop[p.0].is_infectious() {
                front.push(walkers.last().pos)
            } else {
                front
            },
            None => front,
        }
    }
}

/// The susceptible among `walkers`, with where they stand, in the order of
/// `walkers`.
pub open spec fn spec_susceptible(walkers: Seq<Walker>, pop: Map<usize, State>) -> Seq<(PersonID, Pt2D)>
    decreases walkers.len(),
{
    if walkers.len() == 0 {
        Seq::empty()
    } else {
        let front = spec_susceptible(walkers.drop_last(), pop);
        match walkers.last().person {
            Some(p) => if pop.contains_key(p.0) && pop[p.0].is_sane() {
                front.push((p, walkers.last().pos))
            } else {
                front
            },
            None => front,
        }
    }
}

/// The pedestrians of `walkers` who have a name, with where they stand.
pub open spec fn spec_named(walkers: Seq<Walker>) -> Seq<(PersonID, Pt2D)>
    decreases walkers.len(),
{
    if walkers.len() == 0 {
        Seq::empty()
    } else {
        let front = spec_named(walkers.drop_last());
        match walkers.last().person {
            Some(p) => front.push((p, walkers.last().pos)),
            None => front,
        }
    }
}

/// Where everybody among `walkers` who has a name has a state in `pop`,
/// so has everybody in the list of the named.
pub proof fn lemma_named_are_known(walkers: Seq<Walker>, pop: Map<usize, State>, i: int)
    requires
        forall|j: int|
            0 <= j < walkers.len() && (#[trigger] walkers[j]).person is Some ==> pop.contains_key(
                walkers[j].person->Some_0.0,
            ),
        0 <= i < spec_named(walkers).len(),
    ensures
        pop.contains_key(spec_named(walkers)[i].0.0),
    decreases walkers.len(),
{
    if walkers.len() > 0 {
        let front = walkers.drop_last();
        assert forall|j: int| 0 <= j < front.len() && (#[trigger] front[j]).person is Some implies pop.contains_key(
            front[j].person->Some_0.0,
        ) by {
            assert(front[j] == walkers[j]);
        }
        if i < spec_named(front).len() {
            lemma_named_are_known(front, pop, i);
        } else {
            assert(walkers.last() == walkers[walkers.len() - 1]);
        }
    }
}

/// The content of the cell at place `i` at the end of a step, given the
/// cells `sourced` as they are once the sources of the step are in: the
/// cell's content after diffusion, or nothing where that is below the floor.
pub open spec fn spec_polled_cell(sourced: Seq<u64>, w: int, h: int, i: int, spacing: Distance, delta_t: Duration) -> int {
    let mixed = spec_diffused(
        sourced,
        w,
        h,
        i,
        spec_center(KAPPA, DECAY, spacing, delta_t),
        spec_side(KAPPA, delta_t),
        spec_den(spacing),
    );
    if mixed < ABSORB_FLOOR {
        0
    } else {
        mixed
    }
}

/// The chance that a pedestrian in a cell that holds `c` is exposed within
/// one step: `c` in a hundred units, and certain beyond that.
pub fn exposure_chance(c: u64) -> (p: Probability)
    ensures
        p.den() == FULL_EXPOSURE,
        p.num() == if c >= FULL_EXPOSURE {
            FULL_EXPOSURE as int
        } else {
            c as int
        },
{
    let num: u32 = if c >= 100000000 {
        100000000
    } else {
        c as u32
    };
    Probability::new(num, 100000000).unwrap()
}

/// A yes-or-no draw with the chance of a cell that holds `c` can come out
/// as `hit`: thick air always hits and clean air never does.
pub open spec fn spec_hit_admitted(c: u64, hit: bool) -> bool {
    (c >= FULL_EXPOSURE ==> hit) && (c == 0 ==> !hit)
}

/// Each draw of `draws` is one that the air around the walker of its place
/// in `walkers` admits.
pub open spec fn spec_hits_admitted(
    cells: Seq<u64>,
    w: int,
    h: int,
    bounds: Bounds,
    spacing: Distance,
    walkers: Seq<(PersonID, Pt2D)>,
    draws: Seq<(bool, Duration)>,
) -> bool {
    forall|i: int|
        0 <= i < walkers.len() ==> spec_hit_admitted(
            cells[spec_place((#[trigger] walkers[i]).1, bounds, spacing, w, h)],
            draws[i].0,
        )
}

/// The population and the schedule after the person numbered `k` has
/// breathed the air at `now`, when the draw came out as `hit` and the wait
/// drawn, if one was drawn, was `wait`: a hit exposes somebody who is still
/// susceptible, and adds the command of their next step to the schedule.
pub open spec fn spec_breath(
    pop: Map<usize, State>,
    schedule: Seq<(Time, Cmd)>,
    now: Time,
    k: usize,
    hit: bool,
    wait: Duration,
) -> (Map<usize, State>, Seq<(Time, Cmd)>) {
    if hit && pop[k].is_sane() {
        match pop[k].spec_start_now(now, true, wait) {
            Ok((next, Some(due))) => (pop.insert(k, next), schedule.push((due, Cmd::Transition(PersonID(k))))),
            _ => (pop, schedule),
        }
    } else {
        (pop, schedule)
    }
}

/// The population and the schedule after each of `walkers` has breathed
/// the air of the field `cells` at `now`, in their order, given the draw and
/// the wait of each.
pub open spec fn spec_pedestrians(
    pop: Map<usize, State>,
    schedule: Seq<(Time, Cmd)>,
    now: Time,
    walkers: Seq<(PersonID, Pt2D)>,
    draws: Seq<(bool, Duration)>,
) -> (Map<usize, State>, Seq<(Time, Cmd)>)
    decreases walkers.len(),
{
    if walkers.len() == 0 {
        (pop, schedule)
    } else {
        let (before, listed) = spec_pedestrians(pop, schedule, now, walkers.drop_last(), draws.drop_last());
        spec_breath(before, listed, now, walkers.last().0.0, draws.last().0, draws.last().1)
    }
}

/// One of `walkers` is the person numbered `k`, and stands in a cell of
/// the field `cells` that is not empty.
pub open spec fn spec_breathed(
    cells: Seq<u64>,
    w: int,
    h: int,
    bounds: Bounds,
    spacing: Distance,
    walkers: Seq<(PersonID, Pt2D)>,
    k: usize,
) -> bool {
    exists|i: int|
        0 <= i < walkers.len() && (#[trigger] walkers[i]).0.0 == k && cells[spec_place(
            walkers[i].1,
            bounds,
            spacing,
            w,
            h,
        )] > 0
}

/// Everybody among `walkers` who stands in a cell of the field `cells`
/// that makes exposure certain is no longer susceptible in `pop`.
pub open spec fn spec_thick_air_exposes(
    cells: Seq<u64>,
    w: int,
    h: int,
    bounds: Bounds,
    spacing: Distance,
    walkers: Seq<(PersonID, Pt2D)>,
    pop: Map<usize, State>,
) -> bool {
    forall|i: int|
        0 <= i < walkers.len() && cells[spec_place((#[trigger] walkers[i]).1, bounds, spacing, w, h)]
            >= FULL_EXPOSURE ==> !pop[walkers[i].0.0].is_sane()
}

impl<W: WaitSampler> PandemicModel<W> {
    /// What a step of the field at `now` with `walkers` on the map makes of
    /// the model `old`: the contagious pedestrians have left their dose, the
    /// field has diffused and settled, some susceptible people are exposed,
    /// and the schedule ends with the next step of the field.
    pub open spec fn spec_polled(&self, old: &Self, schedule: Seq<(Time, Cmd)>, now: Time, walkers: Seq<Walker>) -> bool {
        let w = old.field().spec_width() as int;
        let h = old.field().spec_height() as int;
        let sourced = spec_with_sources(
            old.field()@,
            w,
            h,
            spec_infectious_positions(walkers, old.population()),
            old.spec_bounds(),
            old.spec_spacing(),
            spec_dose(old.spec_delta_t(), SOURCE_PER_SECOND),
        );
        &&& self.field().spec_width() == w
        &&& self.field().spec_height() == h
        &&& self.field()@.len() == old.field()@.len()
        &&& forall|i: int|
            0 <= i < old.field()@.len() ==> #[trigger] self.field()@[i] == spec_polled_cell(
                sourced,
                w,
                h,
                i,
                old.spec_spacing(),
                old.spec_delta_t(),
            )
        &&& schedule.len() > 0
        &&& schedule.last() == (now.spec_add(old.spec_delta_t()), Cmd::Poll)
        &&& if w > 0 && h > 0 {
            exists|draws: Seq<(bool, Duration)>|
                {
                    &&& draws.len() == spec_susceptible(walkers, old.population()).len()
                    &&& spec_hits_admitted(
                        self.field()@,
                        w,
                        h,
                        old.spec_bounds(),
                        old.spec_spacing(),
                        spec_susceptible(walkers, old.population()),
                        draws,
                    )
                    &&& (self.population(), schedule.drop_last()) == #[trigger] spec_pedestrians(
                        old.population(),
                        Seq::<(Time, Cmd)>::empty(),
                        now,
                        spec_susceptible(walkers, old.population()),
                        draws,
                    )
                }
        } else {
            self.population() == old.population() && schedule.len() == 1
        }
        &&& spec_outcome(old.population(), self.population(), schedule.drop_last(), now)
        &&& forall|q: usize|
            old.population().contains_key(q) && #[trigger] self.population()[q] != old.population()[q]
                ==> spec_breathed(
                self.field()@,
                w,
                h,
                old.spec_bounds(),
                old.spec_spacing(),
                spec_named(walkers),
                q,
            )
        &&& w > 0 && h > 0 ==> spec_thick_air_exposes(
            self.field()@,
            w,
            h,
            old.spec_bounds(),
            old.spec_spacing(),
            spec_named(walkers),
            self.population(),
        )
    }

    /// Exposes the susceptible `person` at `now` without a trial, appends
    /// the command of their next step to `schedule`, and returns their new
    /// state with the time at which that step is due.
    fn become_exposed_now(&mut self, now: Time, person: PersonID, schedule: &mut Vec<(Time, Cmd)>) -> (r: (
        State,
        Time,
        Ghost<Duration>,
    ))
        requires
            old(self).wf(),
            old(self).knows(person),
            old(self).state_of(person).is_sane(),
        ensures
            final(self).wf(),
            final(self).same_but_population(old(self)),
            spec_exposed_from(old(self).state_of(person), r.0, now),
            r.0.spec_get_event_time() == Some(AnyTime::Finite(r.1)),
            final(self).population() == old(self).population().insert(person.0, r.0),
            final(schedule)@ == old(schedule)@.push((r.1, Cmd::Transition(person))),
            (final(self).population(), final(schedule)@) == spec_breath(
                old(self).population(),
                old(schedule)@,
                now,
                person.0,
                true,
                r.2@,
            ),
    {
        let state = self.lookup(person);
        let out = state.start_now(now, &mut self.rng, &self.waits);
        let ghost drawn = choose|branch: bool, wait: Duration|
            state.admits(branch) && out == #[trigger] state.spec_start_now(now, branch, wait);
        proof {
            let (branch, wait) = drawn;
            let ev = state.event().unwrap();
            assert(state.wf());
            assert(ev.spec_next(now, branch, wait) == ev.spec_next(now, true, wait));
            assert(out == state.spec_start_now(now, true, wait));
            assert(PersonID(person.0) == person);
        }
        match out {
            Ok((next, Some(due))) => {
                let cmd = Cmd::from(&next, person);
                schedule.push((due, cmd));
                self.pop.insert(person.0, next);
                proof {
                    assert(spec_exposed_from(state, next, now));
                    assert(self.pop@.dom() == old(self).pop@.dom());
                }
                (next, due, Ghost(drawn.1))
            },
            _ => vstd::pervasive::unreached(),
        }
    }

    /// Lets each of the susceptible `sane_walkers` catch the disease from
    /// the air around them: the chance is that of the cell in which they
    /// stand. Appends the commands to schedule to `schedule`.
    pub fn pedestrian_transmission(
        &mut self,
        now: Time,
        sane_walkers: &Vec<(PersonID, Pt2D)>,
        schedule: &mut Vec<(Time, Cmd)>,
    )
        requires
            old(self).wf(),
            old(schedule)@.len() == 0,
            forall|i: int| 0 <= i < sane_walkers@.len() ==> old(self).knows((#[trigger] sane_walkers@[i]).0),
        ensures
            final(self).wf(),
            final(self).same_but_population(old(self)),
            if old(self).field().spec_width() > 0 && old(self).field().spec_height() > 0 {
                exists|draws: Seq<(bool, Duration)>|
                    {
                        &&& draws.len() == sane_walkers@.len()
                        &&& spec_hits_admitted(
                            old(self).field()@,
                            old(self).field().spec_width() as int,
                            old(self).field().spec_height() as int,
                            old(self).spec_bounds(),
                            old(self).spec_spacing(),
                            sane_walkers@,
                            draws,
                        )
                        &&& (final(self).population(), final(schedule)@) == #[trigger] spec_pedestrians(
                            old(self).population(),
                            Seq::<(Time, Cmd)>::empty(),
                            now,
                            sane_walkers@,
                            draws,
                        )
                    }
            } else {
                final(self).population() == old(self).population() && final(schedule)@.len() == 0
            },
            spec_outcome(old(self).population(), final(self).population(), final(schedule)@, now),
            forall|q: usize|
                old(self).population().contains_key(q) && #[trigger] final(self).population()[q] != old(
                    self,
                ).population()[q] ==> spec_breathed(
                    old(self).field()@,
                    old(self).field().spec_width() as int,
                    old(self).field().spec_height() as int,
                    old(self).spec_bounds(),
                    old(self).spec_spacing(),
                    sane_walkers@,
                    q,
                ),
            old(self).field().spec_width() > 0 && old(self).field().spec_height() > 0
                ==> spec_thick_air_exposes(
                old(self).field()@,
                old(self).field().spec_width() as int,
                old(self).field().spec_height() as int,
                old(self).spec_bounds(),
                old(self).spec_spacing(),
                sane_walkers@,
                final(self).population(),
            ),
    {
        let w = self.concentration.width();
        let h = self.concentration.height();
        if w == 0 || h == 0 {
            return ;
        }
        let mut k: usize = 0;
        let ghost mut draws: Seq<(bool, Duration)> = Seq::empty();
        let ghost first = self.population();
        let ghost nothing = Seq::<(Time, Cmd)>::empty();
        assert(schedule@ == nothing);
        while k < sane_walkers.len()
            invariant
                k <= sane_walkers.len(),
                self.wf(),
                first == old(self).population(),
                nothing == Seq::<(Time, Cmd)>::empty(),
                draws.len() == k,
                spec_hits_admitted(
                    old(self).field()@,
                    w as int,
                    h as int,
                    old(self).spec_bounds(),
                    old(self).spec_spacing(),
                    sane_walkers@.take(k as int),
                    draws,
                ),
                (self.population(), schedule@) == spec_pedestrians(
                    first,
                    nothing,
                    now,
                    sane_walkers@.take(k as int),
                    draws,
                ),
                self.same_but_population(old(self)),
                w == self.concentration.spec_width(),
                h == self.concentration.spec_height(),
                0 < w,
                0 < h,
                forall|i: int|
                    0 <= i < sane_walkers@.len() ==> old(self).knows((#[trigger] sane_walkers@[i]).0),
                spec_outcome(old(self).population(), self.population(), schedule@, now),
                forall|q: usize|
                    old(self).population().contains_key(q) && #[trigger] self.population()[q] != old(
                        self,
                    ).population()[q] ==> spec_breathed(
                        old(self).field()@,
                        w as int,
                        h as int,
                        old(self).spec_bounds(),
                        old(self).spec_spacing(),
                        sane_walkers@,
                        q,
                    ),
                spec_thick_air_exposes(
                    old(self).field()@,
                    w as int,
                    h as int,
                    old(self).spec_bounds(),
                    old(self).spec_spacing(),
                    sane_walkers@.take(k as int),
                    self.population(),
                ),
            decreases sane_walkers.len() - k,
        {
            let (p, pos) = sane_walkers[k];
            assert(old(self).knows(sane_walkers@[k as int].0));
            let ix = cell_index(pos.x, self.bounds.min_x, self.spacing.mm, w);
            let iy = cell_index(pos.y, self.bounds.min_y, self.spacing.mm, h);
            let c = self.concentration.index(ix, iy);
            proof {
                lemma_index_in_range(ix as int, iy as int, w as int, h as int);
                self.concentration.lemma_len();
            }
            let hit = bernoulli(&mut self.rng, exposure_chance(c));
            let ghost earlier = self.population();
            let ghost mut wait = Duration { ms: 0 };
            if hit && self.is_sane(p) {
                let ghost mid = self.population();
                let ghost before = schedule@;
                let r = self.become_exposed_now(now, p, schedule);
                proof {
                    wait = r.2@;
                    lemma_outcome_step(old(self).population(), mid, before, now, p.0, r.0, r.1);
                    assert(PersonID(p.0) == p);
                    assert(c > 0);
                    assert(sane_walkers@[k as int].0.0 == p.0);
                    assert(spec_breathed(
                        old(self).field()@,
                        w as int,
                        h as int,
                        old(self).spec_bounds(),
                        old(self).spec_spacing(),
                        sane_walkers@,
                        p.0,
                    ));
                }
            }
            proof {
                let upto = sane_walkers@.take(k as int + 1);
                let longer = draws.push((hit, wait));
                assert(upto.drop_last() == sane_walkers@.take(k as int));
                assert(upto.last() == (p, pos));
                assert(longer.drop_last() == draws);
                assert(longer.last() == (hit, wait));
                assert forall|i: int| 0 <= i < upto.len() implies spec_hit_admitted(
                    old(self).field()@[spec_place(
                        (#[trigger] upto[i]).1,
                        old(self).spec_bounds(),
                        old(self).spec_spacing(),
                        w as int,
                        h as int,
                    )],
                    longer[i].0,
                ) by {
                    if i < k {
                        assert(upto[i] == sane_walkers@.take(k as int)[i]);
                        assert(longer[i] == draws[i]);
                    }
                }
                draws = longer;
                let now_pop = self.population();
                assert forall|i: int|
                    0 <= i < upto.len() && old(self).field()@[spec_place(
                        (#[trigger] upto[i]).1,
                        old(self).spec_bounds(),
                        old(self).spec_spacing(),
                        w as int,
                        h as int,
                    )] >= FULL_EXPOSURE implies !now_pop[upto[i].0.0].is_sane() by {
                    if i < k {
                        assert(upto[i] == sane_walkers@.take(k as int)[i]);
                        assert(!earlier[upto[i].0.0].is_sane());
                    } else {
                        assert(upto[i] == sane_walkers@[k as int]);
                    }
                }
            }
            k += 1;
        }
        assert(sane_walkers@.take(sane_walkers.len() as int) == sane_walkers@);
    }

    /// Advances the field by one step at `now`, with `walkers` on the map,
    /// and returns the commands to schedule, of which the last is the next
    /// step of the field.
    ///
    /// Every contagious pedestrian leaves a dose in the cell in which they
    /// stand; the field diffuses and decays, and what is left below the floor
    /// settles; then every susceptible pedestrian may catch the disease from
    /// the cell in which they stand. Pedestrians without a name are passed over.
    pub fn poll(&mut self, now: Time, walkers: &Vec<Walker>) -> (schedule: Vec<(Time, Cmd)>)
        requires
            old(self).wf(),
            old(self).spec_accepts_cmd(Cmd::Poll, walkers@),
        ensures
            final(self).wf(),
            final(self).same_places(old(self)),
            final(self).spec_polled(old(self), schedule@, now, walkers@),
    {
        let mut infectious_ped: Vec<Pt2D> = Vec::new();
        let mut sane_ped: Vec<(PersonID, Pt2D)> = Vec::new();
        let mut i: usize = 0;
        while i < walkers.len()
            invariant
                i <= walkers.len(),
                forall|j: int|
                    0 <= j < walkers@.len() && (#[trigger] walkers@[j]).person is Some ==> self.knows(
                        walkers@[j].person->Some_0,
                    ),
                infectious_ped@ == spec_infectious_positions(walkers@.take(i as int), self.population()),
                sane_ped@ == spec_susceptible(walkers@.take(i as int), self.population()),
                forall|j: int| 0 <= j < sane_ped@.len() ==> self.knows((#[trigger] sane_ped@[j]).0),
                forall|j: int|
                    0 <= j < sane_ped@.len() ==> spec_named(walkers@.take(i as int)).contains(
                        #[trigger] sane_ped@[j],
                    ),
                forall|j: int|
                    0 <= j < spec_named(walkers@.take(i as int)).len() && self.population()[(
                    #[trigger] spec_named(walkers@.take(i as int))[j]).0.0].is_sane()
                        ==> sane_ped@.contains(spec_named(walkers@.take(i as int))[j]),
            decreases walkers.len() - i,
        {
            let walker = walkers[i];
            proof {
                let upto = walkers@.take(i as int + 1);
                assert(upto.drop_last() == walkers@.take(i as int));
                assert(upto.last() == walker);
                assert(walker == walkers@[i as int]);
                let named = spec_named(walkers@.take(i as int));
                let longer = spec_named(upto);
                assert forall|j: int| 0 <= j < sane_ped@.len() implies longer.contains(#[trigger] sane_ped@[j]) by {
                    let at = choose|at: int| 0 <= at < named.len() && named[at] == sane_ped@[j];
                    assert(longer[at] == named[at]);
                }
                if let Some(p) = walker.person {
                    assert(longer[named.len() as int] == (p, walker.pos));
                }
            }
            let ghost listed = sane_ped@;
            if let Some(p) = walker.person {
                if self.is_infectious(p) {
                    infectious_ped.push(walker.pos);
                }
                if self.is_sane(p) {
                    sane_ped.push((p, walker.pos));
                }
            }
            proof {
                let named = spec_named(walkers@.take(i as int));
                let longer = spec_named(walkers@.take(i as int + 1));
                assert forall|j: int|
                    0 <= j < longer.len() && self.population()[(#[trigger] longer[j]).0.0].is_sane() implies sane_ped@.contains(
                    longer[j],
                ) by {
                    if j < named.len() {
                        assert(longer[j] == named[j]);
                        assert(listed.contains(named[j]));
                        let at = choose|at: int| 0 <= at < listed.len() && listed[at] == named[j];
                        assert(sane_ped@[at] == listed[at]);
                    } else {
                        assert(sane_ped@[sane_ped@.len() - 1] == longer[j]);
                    }
                }
            }
            i += 1;
        }
        assert(walkers@.take(walkers.len() as int) == walkers@);
        let bounds = self.bounds;
        if infectious_ped.len() > 0 {
            self.concentration.add_sources(&infectious_ped, &bounds, self.spacing, self.delta_t, SOURCE_PER_SECOND);
        }
        let ghost sourced = self.concentration@;
        let stepped = self.concentration.diffuse(KAPPA, DECAY, self.spacing, self.delta_t);
        assert(stepped is Ok);
        self.concentration.absorb(ABSORB_FLOOR);
        let mut schedule: Vec<(Time, Cmd)> = Vec::new();
        let ghost settled = *self;
        self.pedestrian_transmission(now, &sane_ped, &mut schedule);
        let ghost exposures = schedule@;
        schedule.push((now.add(self.delta_t), Cmd::Poll));
        proof {
            assert(schedule@.drop_last() == exposures);
            assert(self.field() == settled.field());
            let named = spec_named(walkers@);
            assert forall|q: usize|
                old(self).population().contains_key(q) && #[trigger] self.population()[q] != old(
                    self,
                ).population()[q] implies spec_breathed(
                self.field()@,
                self.field().spec_width() as int,
                self.field().spec_height() as int,
                old(self).spec_bounds(),
                old(self).spec_spacing(),
                named,
                q,
            ) by {
                let j = choose|j: int|
                    0 <= j < sane_ped@.len() && (#[trigger] sane_ped@[j]).0.0 == q && self.field()@[spec_place(
                        sane_ped@[j].1,
                        old(self).spec_bounds(),
                        old(self).spec_spacing(),
                        self.field().spec_width() as int,
                        self.field().spec_height() as int,
                    )] > 0;
                assert(named.contains(sane_ped@[j]));
                let at = choose|at: int| 0 <= at < named.len() && named[at] == sane_ped@[j];
                assert(named[at].0.0 == q);
            }
            if self.field().spec_width() > 0 && self.field().spec_height() > 0 {
                assert forall|i: int|
                    0 <= i < named.len() && self.field()@[spec_place(
                        (#[trigger] named[i]).1,
                        old(self).spec_bounds(),
                        old(self).spec_spacing(),
                        self.field().spec_width() as int,
                        self.field().spec_height() as int,
                    )] >= FULL_EXPOSURE implies !self.population()[named[i].0.0].is_sane() by {
                    let q = named[i].0.0;
                    if old(self).population()[q].is_sane() {
                        assert(sane_ped@.contains(named[i]));
                        let j = choose|j: int| 0 <= j < sane_ped@.len() && sane_ped@[j] == named[i];
                        assert(sane_ped@[j].0.0 == q);
                    } else {
                        lemma_named_are_known(walkers@, old(self).population(), i);
                        lemma_outcome_keeps_others(old(self).population(), self.population(), exposures, now, q);
                    }
                }
            }
        }
        schedule
    }
}

} // verus!
