//! The cache of drawn agents: when the per-lane lists and the unzoomed drawing of all
//! agents are rebuilt, and which agents the unzoomed drawing shows.
use vstd::prelude::*;
use instant::Instant;

verus! {

/// The `instant` crate's `Instant` (on native targets std's), carried through opaquely.
#[verifier::external_type_specification]
#[verifier::external_body]
pub struct ExInstant(instant::Instant);

/// `instant::Instant::now`: the current moment. Nothing is promised of it.
#[verifier::external_body]
fn instant_now() -> Instant {
    Instant::now()
}

/// `instant::Instant::elapsed`, as whole nanoseconds (`Duration::as_nanos`): the real time
/// since `since`. It depends on the clock, so nothing is promised of it.
#[verifier::external_body]
fn nanos_since(since: &Instant) -> u128 {
    since.elapsed().as_nanos()
}

/// The least real time, in nanoseconds, between two refreshes of the unzoomed agents that
/// a change of simulation time alone causes: two seconds.
pub open spec fn refresh_interval_nanos() -> nat {
    2_000_000_000
}

/// Whether the unzoomed agents should be refreshed this frame: always, except while the
/// map is actively dragged and a cached drawing already exists.
pub fn should_refresh_unzoomed_agents(is_dragging: bool, has_cached_agents: bool) -> (r: bool)
    ensures
        r == (!is_dragging || !has_cached_agents),
{
    !is_dragging || !has_cached_agents
}

/// When the unzoomed drawing is rebuilt: right away when there is none or the filters
/// changed; never when the simulation time did not change; else when forced, when it was
/// never refreshed, or when the last refresh is at least two seconds old.
pub open spec fn recalculation_needed(
    cache_is_missing: bool,
    sim_time_changed: bool,
    filters_changed: bool,
    force_refresh: bool,
    elapsed_since_refresh: Option<u128>,
) -> bool {
    if cache_is_missing || filters_changed {
        true
    } else if !sim_time_changed {
        false
    } else {
        force_refresh || match elapsed_since_refresh {
            Some(e) => e >= refresh_interval_nanos(),
            None => true,
        }
    }
}

/// Whether to rebuild the unzoomed drawing (see `recalculation_needed`); the time since
/// the last refresh is given in nanoseconds.
pub fn should_recalculate_unzoomed_agents(
    cache_is_missing: bool,
    sim_time_changed: bool,
    filters_changed: bool,
    force_refresh: bool,
    elapsed_since_refresh: Option<u128>,
) -> (r: bool)
    ensures
        r == recalculation_needed(
            cache_is_missing,
            sim_time_changed,
            filters_changed,
            force_refresh,
            elapsed_since_refresh,
        ),
{
    if cache_is_missing || filters_changed {
        return true;
    }
    if !sim_time_changed {
        return false;
    }
    force_refresh || match elapsed_since_refresh {
        Some(elapsed) => elapsed >= 2_000_000_000,
        None => true,
    }
}

/// A missing drawing and a change of filters cause a rebuild at once, whatever the time.
pub proof fn lemma_initial_and_filter_refreshes_are_immediate(
    cache_is_missing: bool,
    sim_time_changed: bool,
    filters_changed: bool,
    force_refresh: bool,
    elapsed_since_refresh: Option<u128>,
)
    requires
        cache_is_missing || filters_changed,
    ensures
        recalculation_needed(
            cache_is_missing,
            sim_time_changed,
            filters_changed,
            force_refresh,
            elapsed_since_refresh,
        ),
{
}

/// A forced refresh after the simulation time changed causes a rebuild at once.
pub proof fn lemma_forced_refresh_is_immediate(
    cache_is_missing: bool,
    filters_changed: bool,
    elapsed_since_refresh: Option<u128>,
)
    ensures
        recalculation_needed(cache_is_missing, true, filters_changed, true, elapsed_since_refresh),
{
}

/// A change of simulation time alone rebuilds the drawing only when the last refresh is
/// unknown or at least two real seconds old.
pub proof fn lemma_sim_time_refreshes_are_throttled(elapsed_since_refresh: Option<u128>)
    ensures
        recalculation_needed(false, true, false, false, elapsed_since_refresh) <==> match elapsed_since_refresh {
            Some(e) => e >= refresh_interval_nanos(),
            None => true,
        },
{
}

/// A change of simulation time alone rebuilds the drawing only once the last refresh is
/// two real seconds (2,000,000,000 nanoseconds) old, or unknown.
pub proof fn lemma_sim_time_refresh_waits_two_real_seconds(e: u128)
    ensures
        recalculation_needed(false, true, false, false, Some(e)) <==> e >= 2_000_000_000,
        recalculation_needed(false, true, false, false, None),
{
}

/// Without a change of simulation time or filters, an existing drawing is kept, even
/// when the refresh is forced.
pub proof fn lemma_unchanged_drawing_is_kept(force_refresh: bool, elapsed_since_refresh: Option<u128>)
    ensures
        !recalculation_needed(false, false, false, force_refresh, elapsed_since_refresh),
{
}

/// The kinds of vehicle that the simulation knows.
#[derive(Clone, Copy, Debug, PartialEq, Eq, Structural)]
pub enum VehicleType {
    Car,
    Bike,
    Bus,
    Train,
}

/// The colour of the colour scheme that an unzoomed agent is drawn in.
#[derive(Clone, Copy, Debug, PartialEq, Eq, Structural)]
pub enum UnzoomedColor {
    Car,
    Bike,
    Bus,
    Pedestrian,
}

/// Which kinds of agents the unzoomed drawing shows.
#[derive(Clone, Copy, Debug, PartialEq, Eq, Structural)]
pub struct UnzoomedAgents {
    cars: bool,
    bikes: bool,
    buses_and_trains: bool,
    peds: bool,
}

impl UnzoomedAgents {
    /// Whether cars are shown.
    pub closed spec fn shows_cars(self) -> bool {
        self.cars
    }

    /// Whether bikes are shown.
    pub closed spec fn shows_bikes(self) -> bool {
        self.bikes
    }

    /// Whether buses and trains are shown.
    pub closed spec fn shows_buses_and_trains(self) -> bool {
        self.buses_and_trains
    }

    /// Whether pedestrians are shown.
    pub closed spec fn shows_peds(self) -> bool {
        self.peds
    }

    /// The filters that show every kind.
    pub closed spec fn all_shown() -> Self {
        UnzoomedAgents { cars: true, bikes: true, buses_and_trains: true, peds: true }
    }

    /// Every kind shown.
    pub fn new() -> (u: Self)
        ensures
            u == Self::all_shown(),
            u.shows_cars(),
            u.shows_bikes(),
            u.shows_buses_and_trains(),
            u.shows_peds(),
    {
        UnzoomedAgents { cars: true, bikes: true, buses_and_trains: true, peds: true }
    }

    pub fn cars(&self) -> (r: bool)
        ensures
            r == self.shows_cars(),
    {
        self.cars
    }

    pub fn bikes(&self) -> (r: bool)
        ensures
            r == self.shows_bikes(),
    {
        self.bikes
    }

    pub fn buses_and_trains(&self) -> (r: bool)
        ensures
            r == self.shows_buses_and_trains(),
    {
        self.buses_and_trains
    }

    pub fn peds(&self) -> (r: bool)
        ensures
            r == self.shows_peds(),
    {
        self.peds
    }

    /// The colour an agent is drawn in (`vehicle` is its vehicle type, `None` for a
    /// pedestrian), or `None` when its kind is hidden.
    pub open spec fn color_of(self, vehicle: Option<VehicleType>) -> Option<UnzoomedColor> {
        match vehicle {
            Some(VehicleType::Car) => if self.shows_cars() {
                Some(UnzoomedColor::Car)
            } else {
                None
            },
            Some(VehicleType::Bike) => if self.shows_bikes() {
                Some(UnzoomedColor::Bike)
            } else {
                None
            },
            Some(VehicleType::Bus) | Some(VehicleType::Train) => if self.shows_buses_and_trains() {
                Some(UnzoomedColor::Bus)
            } else {
                None
            },
            None => if self.shows_peds() {
                Some(UnzoomedColor::Pedestrian)
            } else {
                None
            },
        }
    }

    /// The colour an agent is drawn in (`vehicle` is its vehicle type, `None` for a
    /// pedestrian), or `None` when its kind is hidden.
    pub fn color(&self, vehicle: Option<VehicleType>) -> (c: Option<UnzoomedColor>)
        ensures
            c == self.color_of(vehicle),
    {
        match vehicle {
            Some(VehicleType::Car) => {
                if self.cars {
                    Some(UnzoomedColor::Car)
                } else {
                    None
                }
            },
            Some(VehicleType::Bike) => {
                if self.bikes {
                    Some(UnzoomedColor::Bike)
                } else {
                    None
                }
            },
            Some(VehicleType::Bus) | Some(VehicleType::Train) => {
                if self.buses_and_trains {
                    Some(UnzoomedColor::Bus)
                } else {
                    None
                }
            },
            None => {
                if self.peds {
                    Some(UnzoomedColor::Pedestrian)
                } else {
                    None
                }
            },
        }
    }

    /// Takes the filters from the panel's checkboxes "Car", "Bike", "Bus" and "Walk".
    pub fn update(&mut self, car: bool, bike: bool, bus: bool, walk: bool)
        ensures
            final(self).shows_cars() == car,
            final(self).shows_bikes() == bike,
            final(self).shows_buses_and_trains() == bus,
            final(self).shows_peds() == walk,
    {
        self.cars = car;
        self.bikes = bike;
        self.buses_and_trains = bus;
        self.peds = walk;
    }
}

/// The agents that `filters` show, in their order, each with the colour it is drawn in;
/// an agent is given by its id and its vehicle type (`None` for a pedestrian).
pub open spec fn visible_of<I>(filters: UnzoomedAgents, agents: Seq<(I, Option<VehicleType>)>) -> Seq<
    (I, UnzoomedColor),
>
    decreases agents.len(),
{
    if agents.len() == 0 {
        Seq::empty()
    } else {
        let rest = visible_of(filters, agents.drop_last());
        match filters.color_of(agents.last().1) {
            Some(c) => rest.push((agents.last().0, c)),
            None => rest,
        }
    }
}

/// Each kind of agent has its own switch and its own colour: cars are shown by the car
/// switch in the car colour, bikes by the bike switch in the bike colour, buses and trains
/// by the bus switch in the bus colour, pedestrians by the walking switch in the
/// pedestrian colour. An agent's colour does not depend on the other switches.
pub proof fn lemma_each_kind_has_its_switch_and_colour(
    f: UnzoomedAgents,
    g: UnzoomedAgents,
    v: Option<VehicleType>,
)
    ensures
        (f.color_of(v) is Some) <==> match v {
            Some(VehicleType::Car) => f.shows_cars(),
            Some(VehicleType::Bike) => f.shows_bikes(),
            Some(VehicleType::Bus) | Some(VehicleType::Train) => f.shows_buses_and_trains(),
            None => f.shows_peds(),
        },
        f.color_of(v) is Some ==> f.color_of(v) == Some(
            match v {
                Some(VehicleType::Car) => UnzoomedColor::Car,
                Some(VehicleType::Bike) => UnzoomedColor::Bike,
                Some(VehicleType::Bus) | Some(VehicleType::Train) => UnzoomedColor::Bus,
                None => UnzoomedColor::Pedestrian,
            },
        ),
        f.color_of(v) is Some && g.color_of(v) is Some ==> f.color_of(v) == g.color_of(v),
{
}

/// Every agent that the drawing holds is shown by the filters, in its kind's colour; the
/// drawing holds no more agents than were listed.
pub proof fn lemma_visible_agents_are_shown<I>(filters: UnzoomedAgents, agents: Seq<(I, Option<VehicleType>)>)
    ensures
        visible_of(filters, agents).len() <= agents.len(),
        forall|k: int|
            0 <= k < visible_of(filters, agents).len() ==> exists|j: int|
                0 <= j < agents.len() && #[trigger] visible_of(filters, agents)[k].0 == agents[j].0
                    && filters.color_of(agents[j].1) == Some(visible_of(filters, agents)[k].1),
    decreases agents.len(),
{
    if agents.len() > 0 {
        let rest = agents.drop_last();
        lemma_visible_agents_are_shown(filters, rest);
        let v = visible_of(filters, agents);
        let vr = visible_of(filters, rest);
        assert forall|k: int| 0 <= k < v.len() implies exists|j: int|
            0 <= j < agents.len() && #[trigger] v[k].0 == agents[j].0 && filters.color_of(agents[j].1)
                == Some(v[k].1) by {
            if k < vr.len() {
                assert(v[k] == vr[k]);
                let j = choose|j: int|
                    0 <= j < rest.len() && #[trigger] vr[k].0 == rest[j].0 && filters.color_of(rest[j].1)
                        == Some(vr[k].1);
                assert(rest[j] == agents[j]);
            } else {
                assert(v[k].0 == agents[agents.len() - 1].0);
            }
        }
    }
}

/// The agents that `filters` show, in their order, each with the colour it is drawn in:
/// what the unzoomed drawing and its index hold.
pub fn visible_agents<I: Copy>(filters: &UnzoomedAgents, agents: &Vec<(I, Option<VehicleType>)>) -> (shown:
    Vec<(I, UnzoomedColor)>)
    ensures
        shown@ == visible_of(*filters, agents@),
{
    let mut shown: Vec<(I, UnzoomedColor)> = Vec::new();
    let mut i: usize = 0;
    while i < agents.len()
        invariant
            i <= agents.len(),
            shown@ == visible_of(*filters, agents@.take(i as int)),
        decreases agents.len() - i,
    {
        let agent = agents[i];
        assert(agents@.take(i + 1).drop_last() =~= agents@.take(i as int));
        assert(agents@.take(i + 1).last() == agent);
        match filters.color(agent.1) {
            Some(c) => shown.push((agent.0, c)),
            None => {},
        }
        i = i + 1;
    }
    assert(agents@.take(agents.len() as int) =~= agents@);
    shown
}

fn contains_person(people: &Vec<usize>, person: usize) -> (r: bool)
    ensures
        r == people@.contains(person),
{
    let mut i: usize = 0;
    while i < people.len()
        invariant
            i <= people.len(),
            forall|k: int| 0 <= k < i ==> people@[k] != person,
        decreases people.len() - i,
    {
        if people[i] == person {
            assert(people@[i as int] == person);
            return true;
        }
        i = i + 1;
    }
    false
}

/// Whether an agent is drawn faded: when the simulation highlights some people and the
/// agent is a person who is not among them (people are named by their numbers).
pub fn is_faded(highlighted: &Option<Vec<usize>>, person: Option<usize>) -> (r: bool)
    ensures
        r == match (*highlighted, person) {
            (Some(h), Some(p)) => !h@.contains(p),
            _ => false,
        },
{
    match (highlighted, person) {
        (Some(h), Some(p)) => !contains_person(h, p),
        _ => false,
    }
}

/// A lane or a turn: what agents are drawn on. Lanes and turns are named by the numbers
/// that the map gives them.
#[derive(Clone, Copy, Debug, PartialEq, Eq, Structural)]
pub enum Traversable {
    Lane(usize),
    Turn { parent: usize, src: usize, dst: usize },
}

/// The key of entry `i`.
pub open spec fn key_at<L>(entries: Seq<(Traversable, L)>, i: int) -> Traversable {
    entries[i].0
}

/// No two entries have the same key.
pub open spec fn keys_distinct<L>(entries: Seq<(Traversable, L)>) -> bool {
    forall|i: int, j: int|
        0 <= i < j < entries.len() ==> #[trigger] key_at(entries, i) != #[trigger] key_at(entries, j)
}

/// Some entry has the key `on`.
pub open spec fn has_key<L>(entries: Seq<(Traversable, L)>, on: Traversable) -> bool {
    exists|i: int| 0 <= i < entries.len() && #[trigger] key_at(entries, i) == on
}

/// The value of the entry with key `on`.
pub open spec fn value_of<L>(entries: Seq<(Traversable, L)>, on: Traversable) -> L {
    entries[choose|i: int| 0 <= i < entries.len() && #[trigger] key_at(entries, i) == on].1
}

/// With distinct keys, the value of the entry with key `on` is that of the entry at `i`
/// when `i` has key `on`.
pub proof fn lemma_value_at<L>(entries: Seq<(Traversable, L)>, on: Traversable, i: int)
    requires
        keys_distinct(entries),
        0 <= i < entries.len(),
        key_at(entries, i) == on,
    ensures
        has_key(entries, on),
        value_of(entries, on) == entries[i].1,
{
    let w = choose|j: int| 0 <= j < entries.len() && #[trigger] key_at(entries, j) == on;
    if w != i {
        if w < i {
            assert(key_at(entries, w) != key_at(entries, i));
        } else {
            assert(key_at(entries, i) != key_at(entries, w));
        }
    }
}

/// The drawn agents, cached: a list of drawn agents (`L`) per lane or turn, valid for one
/// simulation time, and the unzoomed drawing of all agents (`U`), with the simulation time
/// and the filters it was made for. Simulation times are counted in tenths of a
/// millisecond.
pub struct AgentCache<L, U> {
    unzoomed_agents: UnzoomedAgents,
    time: Option<u64>,
    agents_per_on: Vec<(Traversable, L)>,
    unzoomed: Option<(u64, UnzoomedAgents, U)>,
    unzoomed_last_refresh: Option<Instant>,
}

impl<L, U> AgentCache<L, U> {
    #[verifier::type_invariant]
    spec fn entries_distinct(self) -> bool {
        keys_distinct(self.agents_per_on@)
    }

    /// Which agents the unzoomed drawing shows.
    pub closed spec fn filters(self) -> UnzoomedAgents {
        self.unzoomed_agents
    }

    /// The simulation time that the lists are valid for.
    pub closed spec fn time_view(self) -> Option<u64> {
        self.time
    }

    /// The cached lists, keyed by lane or turn.
    pub closed spec fn entries(self) -> Seq<(Traversable, L)> {
        self.agents_per_on@
    }

    /// The simulation time and filters of the unzoomed drawing, if there is one.
    pub closed spec fn unzoomed_view(self) -> Option<(u64, UnzoomedAgents)> {
        match self.unzoomed {
            Some(u) => Some((u.0, u.1)),
            None => None,
        }
    }

    /// The unzoomed drawing, if there is one.
    pub closed spec fn unzoomed_payload(self) -> Option<U> {
        match self.unzoomed {
            Some(u) => Some(u.2),
            None => None,
        }
    }

    /// Whether the moment of the last refresh of the unzoomed drawing is known.
    pub closed spec fn refresh_moment_known(self) -> bool {
        self.unzoomed_last_refresh is Some
    }

    /// An empty cache that shows every kind of agent.
    pub fn new() -> (c: Self)
        ensures
            c.filters() == UnzoomedAgents::all_shown(),
            c.time_view() is None,
            c.entries() == Seq::<(Traversable, L)>::empty(),
            c.unzoomed_view() is None,
            !c.refresh_moment_known(),
    {
        AgentCache {
            unzoomed_agents: UnzoomedAgents::new(),
            time: None,
            agents_per_on: Vec::new(),
            unzoomed: None,
            unzoomed_last_refresh: None,
        }
    }

    fn find(&self, on: Traversable) -> (r: Option<usize>)
        ensures
            match r {
                Some(i) => i < self.entries().len() && key_at(self.entries(), i as int) == on,
                None => !has_key(self.entries(), on),
            },
    {
        let mut i: usize = 0;
        while i < self.agents_per_on.len()
            invariant
                i <= self.agents_per_on.len(),
                forall|j: int| 0 <= j < i ==> #[trigger] key_at(self.agents_per_on@, j) != on,
            decreases self.agents_per_on.len() - i,
        {
            if self.agents_per_on[i].0 == on {
                return Some(i);
            }
            i = i + 1;
        }
        None
    }

    /// Whether a list of agents is cached for `on`.
    pub fn is_cached(&self, on: Traversable) -> (r: bool)
        ensures
            r == has_key(self.entries(), on),
    {
        self.find(on).is_some()
    }

    /// The list of agents cached for `on`.
    pub fn get(&self, on: Traversable) -> (l: &L)
        requires
            has_key(self.entries(), on),
        ensures
            *l == value_of(self.entries(), on),
    {
        proof {
            use_type_invariant(self);
        }
        match self.find(on) {
            Some(i) => {
                let ghost w = choose|j: int| 0 <= j < self.entries().len() && #[trigger] key_at(self.entries(), j) == on;
                assert(w == i as int) by {
                    if w != i {
                        if w < i {
                            assert(key_at(self.entries(), w) != key_at(self.entries(), i as int));
                        } else {
                            assert(key_at(self.entries(), i as int) != key_at(self.entries(), w));
                        }
                    }
                }
                &self.agents_per_on[i].1
            },
            None => {
                assert(false);
                &self.agents_per_on[0].1
            },
        }
    }

    /// Whether `populate_if_needed` would build the list for `on` at time `now`: unless
    /// the cache holds a list for `on` made at `now`.
    pub open spec fn population_needed(self, on: Traversable, now: u64) -> bool {
        !(self.time_view() == Some(now) && has_key(self.entries(), on))
    }

    /// Makes sure the cache holds a list for `on` at simulation time `now`, calling `build`
    /// only when it does not. When the time changed, the lists of the old time are dropped.
    pub fn populate_if_needed<F: FnOnce() -> L>(&mut self, on: Traversable, now: u64, build: F)
        requires
            build.requires(()),
        ensures
            !old(self).population_needed(on, now) ==> *final(self) == *old(self),
            old(self).population_needed(on, now) ==> {
                &&& final(self).time_view() == Some(now)
                &&& has_key(final(self).entries(), on)
                &&& build.ensures((), value_of(final(self).entries(), on))
                &&& forall|other: Traversable|
                    other != on ==> (has_key(final(self).entries(), other) <==> (old(self).time_view()
                        == Some(now) && has_key(old(self).entries(), other)))
                &&& forall|other: Traversable|
                    other != on && has_key(final(self).entries(), other) ==> value_of(
                        final(self).entries(),
                        other,
                    ) == value_of(old(self).entries(), other)
                &&& final(self).unzoomed_view() == old(self).unzoomed_view()
                &&& final(self).unzoomed_payload() == old(self).unzoomed_payload()
                &&& final(self).refresh_moment_known() == old(self).refresh_moment_known()
                &&& final(self).filters() == old(self).filters()
            },
    {
        proof {
            use_type_invariant(&*self);
        }
        let same_time = match self.time {
            Some(t) => t == now,
            None => false,
        };
        let found = self.find(on);
        if same_time && found.is_some() {
            return;
        }
        let list = build();
        if !same_time {
            self.agents_per_on = Vec::new();
            self.time = Some(now);
        }
        let ghost before = self.agents_per_on@;
        assert(!has_key(before, on));
        let mut entries: Vec<(Traversable, L)> = Vec::new();
        std::mem::swap(&mut entries, &mut self.agents_per_on);
        entries.push((on, list));
        assert(entries@ == before.push((on, list)));
        assert(keys_distinct(entries@)) by {
            assert forall|i: int, j: int| 0 <= i < j < entries@.len() implies #[trigger] key_at(
                entries@,
                i,
            ) != #[trigger] key_at(entries@, j) by {
                if j == before.len() {
                    assert(key_at(before, i) == key_at(entries@, i));
                } else {
                    assert(key_at(before, i) == key_at(entries@, i));
                    assert(key_at(before, j) == key_at(entries@, j));
                }
            }
        }
        self.agents_per_on = entries;
        proof {
            let after = self.agents_per_on@;
            assert(key_at(after, before.len() as int) == on);
            lemma_value_at(after, on, before.len() as int);
            assert forall|other: Traversable| other != on && has_key(after, other) implies has_key(
                before,
                other,
            ) && value_of(after, other) == value_of(before, other) by {
                let k = choose|k: int| 0 <= k < after.len() && #[trigger] key_at(after, k) == other;
                assert(key_at(before, k) == other);
                lemma_value_at(after, other, k);
                lemma_value_at(before, other, k);
            }
            assert forall|other: Traversable| other != on && has_key(before, other) implies has_key(
                after,
                other,
            ) by {
                let k = choose|k: int| 0 <= k < before.len() && #[trigger] key_at(before, k) == other;
                assert(key_at(after, k) == other);
            }
        }
    }

    /// Whether the unzoomed drawing would be rebuilt at simulation time `now`, given the
    /// real time since its last refresh (when that moment is known).
    pub open spec fn unzoomed_recalculation_needed(
        self,
        now: u64,
        force_refresh: bool,
        elapsed: Option<u128>,
    ) -> bool {
        let u = self.unzoomed_view();
        recalculation_needed(
            u is None,
            u matches Some(v) && v.0 != now,
            u matches Some(v) && v.1 != self.filters(),
            force_refresh,
            elapsed,
        )
    }

    /// `payload` was built by `build` from the agents that the filters show, out of a
    /// list that `agents` handed out.
    pub open spec fn drawn_from<I, G: FnOnce() -> Vec<(I, Option<VehicleType>)>, F: FnOnce(
        Vec<(I, UnzoomedColor)>,
    ) -> U>(self, agents: G, build: F, payload: U) -> bool {
        exists|listed: Vec<(I, Option<VehicleType>)>, shown: Vec<(I, UnzoomedColor)>|
            #![trigger agents.ensures((), listed), build.ensures((shown,), payload)]
            agents.ensures((), listed) && shown@ == visible_of(self.filters(), listed@)
                && build.ensures((shown,), payload)
    }

    /// `next` is what a calculation at simulation time `now` leaves, when the real time
    /// since the last refresh is `elapsed` (`None` when that moment is not known): when a
    /// rebuild is needed, the drawing rebuilt by `build` from the agents that the current
    /// filters show, for time `now` and those filters, with the moment of refresh
    /// recorded; else the cache unchanged.
    pub open spec fn is_calculation<I, G: FnOnce() -> Vec<(I, Option<VehicleType>)>, F: FnOnce(
        Vec<(I, UnzoomedColor)>,
    ) -> U>(
        self,
        next: Self,
        now: u64,
        force_refresh: bool,
        elapsed: Option<u128>,
        agents: G,
        build: F,
    ) -> bool {
        if self.unzoomed_recalculation_needed(now, force_refresh, elapsed) {
            &&& next.unzoomed_view() == Some((now, self.filters()))
            &&& next.unzoomed_payload() is Some
            &&& self.drawn_from(agents, build, next.unzoomed_payload()->0)
            &&& next.refresh_moment_known()
            &&& next.time_view() == self.time_view()
            &&& next.entries() == self.entries()
            &&& next.filters() == self.filters()
        } else {
            next == self
        }
    }

    /// `next` is what a calculation leaves for some real time since the last refresh, known
    /// exactly when the moment of the last refresh is (see `is_calculation`).
    pub open spec fn was_calculated<I, G: FnOnce() -> Vec<(I, Option<VehicleType>)>, F: FnOnce(
        Vec<(I, UnzoomedColor)>,
    ) -> U>(self, next: Self, now: u64, force_refresh: bool, agents: G, build: F) -> bool {
        exists|elapsed: Option<u128>|
            (elapsed is Some) == self.refresh_moment_known() && #[trigger] self.is_calculation(
                next,
                now,
                force_refresh,
                elapsed,
                agents,
                build,
            )
    }

    /// Rebuilds the unzoomed drawing when it is missing, when the filters changed, or when
    /// the simulation time changed and the refresh is forced or the last one is unknown or
    /// at least two real seconds old (`elapsed` nanoseconds, given exactly when the moment
    /// of the last refresh is known). A rebuild takes the agents from `agents`, keeps those
    /// that the filters show, and hands them with their colours to `build`. Returns the
    /// drawing.
    pub fn calculate_unzoomed_agents_after<I: Copy, G: FnOnce() -> Vec<(I, Option<VehicleType>)>, F: FnOnce(
        Vec<(I, UnzoomedColor)>,
    ) -> U>(
        &mut self,
        now: u64,
        force_refresh: bool,
        elapsed: Option<u128>,
        agents: G,
        build: F,
    ) -> (drawing: &U)
        requires
            (elapsed is Some) == old(self).refresh_moment_known(),
            agents.requires(()),
            forall|shown: Vec<(I, UnzoomedColor)>| #[trigger] build.requires((shown,)),
        ensures
            old(self).is_calculation(*final(self), now, force_refresh, elapsed, agents, build),
            final(self).unzoomed_payload() == Some(*drawing),
    {
        proof {
            use_type_invariant(&*self);
        }
        let (missing, time_changed, filters_changed) = match &self.unzoomed {
            Some(u) => (false, u.0 != now, u.1 != self.unzoomed_agents),
            None => (true, false, false),
        };
        let recalc = should_recalculate_unzoomed_agents(
            missing,
            time_changed,
            filters_changed,
            force_refresh,
            elapsed,
        );
        if recalc {
            let filters = self.unzoomed_agents;
            let listed = agents();
            let shown = visible_agents(&filters, &listed);
            let ghost shown_given = shown;
            let drawing = build(shown);
            assert(old(self).drawn_from(agents, build, drawing)) by {
                assert(agents.ensures((), listed) && build.ensures((shown_given,), drawing));
            }
            self.unzoomed = Some((now, filters, drawing));
            self.unzoomed_last_refresh = Some(instant_now());
        }
        &self.unzoomed.as_ref().unwrap().2
    }

    /// `calculate_unzoomed_agents_after`, with the real time since the last refresh read
    /// from the clock.
    pub fn calculate_unzoomed_agents<I: Copy, G: FnOnce() -> Vec<(I, Option<VehicleType>)>, F: FnOnce(
        Vec<(I, UnzoomedColor)>,
    ) -> U>(&mut self, now: u64, force_refresh: bool, agents: G, build: F) -> (drawing: &U)
        requires
            agents.requires(()),
            forall|shown: Vec<(I, UnzoomedColor)>| #[trigger] build.requires((shown,)),
        ensures
            old(self).was_calculated(*final(self), now, force_refresh, agents, build),
            final(self).unzoomed_payload() == Some(*drawing),
    {
        let elapsed = match &self.unzoomed_last_refresh {
            Some(moment) => Some(nanos_since(moment)),
            None => None,
        };
        self.calculate_unzoomed_agents_after(now, force_refresh, elapsed, agents, build);
        &self.unzoomed.as_ref().unwrap().2
    }

    /// Draws the unzoomed agents, `elapsed` being the real time since the last refresh
    /// (given exactly when that moment is known): while the map is actively dragged and a
    /// drawing exists, that drawing is kept; otherwise the drawing is calculated, forced
    /// when a drag has just ended. Returns the drawing to show.
    pub fn draw_unzoomed_agents_after<I: Copy, G: FnOnce() -> Vec<(I, Option<VehicleType>)>, F: FnOnce(
        Vec<(I, UnzoomedColor)>,
    ) -> U>(
        &mut self,
        active_drag: bool,
        is_dragging: bool,
        now: u64,
        elapsed: Option<u128>,
        agents: G,
        build: F,
    ) -> (drawing: &U)
        requires
            (elapsed is Some) == old(self).refresh_moment_known(),
            agents.requires(()),
            forall|shown: Vec<(I, UnzoomedColor)>| #[trigger] build.requires((shown,)),
        ensures
            if !active_drag || old(self).unzoomed_view() is None {
                old(self).is_calculation(
                    *final(self),
                    now,
                    is_dragging && !active_drag,
                    elapsed,
                    agents,
                    build,
                )
            } else {
                *final(self) == *old(self)
            },
            final(self).unzoomed_payload() == Some(*drawing),
    {
        if should_refresh_unzoomed_agents(active_drag, self.unzoomed.is_some()) {
            let force_refresh = is_dragging && !active_drag;
            self.calculate_unzoomed_agents_after(now, force_refresh, elapsed, agents, build);
        }
        &self.unzoomed.as_ref().unwrap().2
    }

    /// `draw_unzoomed_agents_after`, with the real time since the last refresh read from
    /// the clock when a calculation is due.
    pub fn draw_unzoomed_agents<I: Copy, G: FnOnce() -> Vec<(I, Option<VehicleType>)>, F: FnOnce(
        Vec<(I, UnzoomedColor)>,
    ) -> U>(
        &mut self,
        active_drag: bool,
        is_dragging: bool,
        now: u64,
        agents: G,
        build: F,
    ) -> (drawing: &U)
        requires
            agents.requires(()),
            forall|shown: Vec<(I, UnzoomedColor)>| #[trigger] build.requires((shown,)),
        ensures
            if !active_drag || old(self).unzoomed_view() is None {
                old(self).was_calculated(
                    *final(self),
                    now,
                    is_dragging && !active_drag,
                    agents,
                    build,
                )
            } else {
                *final(self) == *old(self)
            },
            final(self).unzoomed_payload() == Some(*drawing),
    {
        if should_refresh_unzoomed_agents(active_drag, self.unzoomed.is_some()) {
            let force_refresh = is_dragging && !active_drag;
            self.calculate_unzoomed_agents(now, force_refresh, agents, build);
        }
        &self.unzoomed.as_ref().unwrap().2
    }
    /// Forgets the moment of the last refresh, so that the next change of simulation time
    /// rebuilds the unzoomed drawing.
    pub fn refresh_unzoomed_agents_next_time(&mut self)
        ensures
            !final(self).refresh_moment_known(),
            final(self).time_view() == old(self).time_view(),
            final(self).entries() == old(self).entries(),
            final(self).unzoomed_view() == old(self).unzoomed_view(),
            final(self).unzoomed_payload() == old(self).unzoomed_payload(),
            final(self).filters() == old(self).filters(),
    {
        proof {
            use_type_invariant(&*self);
        }
        self.unzoomed_last_refresh = None;
    }

    /// Which agents the unzoomed drawing shows.
    pub fn unzoomed_agents(&self) -> (u: UnzoomedAgents)
        ensures
            u == self.filters(),
    {
        self.unzoomed_agents
    }

    /// Sets which agents the unzoomed drawing shows; the drawing itself is rebuilt by the
    /// next `calculate_unzoomed_agents`.
    pub fn set_unzoomed_agents(&mut self, u: UnzoomedAgents)
        ensures
            final(self).filters() == u,
            final(self).time_view() == old(self).time_view(),
            final(self).entries() == old(self).entries(),
            final(self).unzoomed_view() == old(self).unzoomed_view(),
            final(self).unzoomed_payload() == old(self).unzoomed_payload(),
            final(self).refresh_moment_known() == old(self).refresh_moment_known(),
    {
        proof {
            use_type_invariant(&*self);
        }
        self.unzoomed_agents = u;
    }

    /// Whether the moment of the last refresh of the unzoomed drawing is known.
    pub fn has_refresh_moment(&self) -> (r: bool)
        ensures
            r == self.refresh_moment_known(),
    {
        self.unzoomed_last_refresh.is_some()
    }
}

/// After `refresh_unzoomed_agents_next_time`, the next calculation at a new simulation
/// time rebuilds the drawing, however little real time has passed.
pub proof fn lemma_invalidated_cache_refreshes_on_new_time<
    L,
    U,
    I,
    G: FnOnce() -> Vec<(I, Option<VehicleType>)>,
    F: FnOnce(Vec<(I, UnzoomedColor)>) -> U,
>(cache: AgentCache<L, U>, next: AgentCache<L, U>, now: u64, force_refresh: bool, agents: G, build: F)
    requires
        !cache.refresh_moment_known(),
        cache.unzoomed_view() matches Some(v) && v.0 != now,
        cache.was_calculated(next, now, force_refresh, agents, build),
    ensures
        next.unzoomed_view() == Some((now, cache.filters())),
        next.refresh_moment_known(),
        cache.drawn_from(agents, build, next.unzoomed_payload()->0),
{
    let e = choose|e: Option<u128>|
        (e is Some) == cache.refresh_moment_known() && #[trigger] cache.is_calculation(
            next,
            now,
            force_refresh,
            e,
            agents,
            build,
        );
    assert(cache.is_calculation(next, now, force_refresh, e, agents, build));
}

/// A calculation at the time and with the filters of the current drawing leaves the cache
/// as it is: a drawing just made is reused until something changes.
pub proof fn lemma_fresh_drawing_is_reused<
    L,
    U,
    I,
    G: FnOnce() -> Vec<(I, Option<VehicleType>)>,
    F: FnOnce(Vec<(I, UnzoomedColor)>) -> U,
>(cache: AgentCache<L, U>, next: AgentCache<L, U>, now: u64, force_refresh: bool, agents: G, build: F)
    requires
        cache.unzoomed_view() == Some((now, cache.filters())),
        cache.was_calculated(next, now, force_refresh, agents, build),
    ensures
        next == cache,
{
    let e = choose|e: Option<u128>|
        (e is Some) == cache.refresh_moment_known() && #[trigger] cache.is_calculation(
            next,
            now,
            force_refresh,
            e,
            agents,
            build,
        );
    assert(cache.is_calculation(next, now, force_refresh, e, agents, build));
}

/// The throttle: when only the simulation time changed since the drawing was made and the
/// refresh is not forced, a calculation `e` nanoseconds after the last refresh rebuilds
/// the drawing exactly when `e` is at least two seconds, and keeps the cache otherwise.
pub proof fn lemma_sim_time_changes_refresh_at_most_every_two_seconds<
    L,
    U,
    I,
    G: FnOnce() -> Vec<(I, Option<VehicleType>)>,
    F: FnOnce(Vec<(I, UnzoomedColor)>) -> U,
>(cache: AgentCache<L, U>, next: AgentCache<L, U>, now: u64, e: u128, agents: G, build: F)
    requires
        cache.unzoomed_view() matches Some(v) && v.0 != now && v.1 == cache.filters(),
        cache.is_calculation(next, now, false, Some(e), agents, build),
    ensures
        e < refresh_interval_nanos() ==> next == cache,
        e >= refresh_interval_nanos() ==> next.unzoomed_view() == Some((now, cache.filters()))
            && next.refresh_moment_known() && cache.drawn_from(agents, build, next.unzoomed_payload()->0),
{
}

/// Whatever the real time, a rebuilt drawing is made from exactly the agents that the
/// filters show: a calculation that changes the drawing hands `build` the visible agents.
pub proof fn lemma_rebuilt_drawing_shows_the_filtered_agents<
    L,
    U,
    I,
    G: FnOnce() -> Vec<(I, Option<VehicleType>)>,
    F: FnOnce(Vec<(I, UnzoomedColor)>) -> U,
>(cache: AgentCache<L, U>, next: AgentCache<L, U>, now: u64, force_refresh: bool, agents: G, build: F)
    requires
        cache.was_calculated(next, now, force_refresh, agents, build),
        next != cache,
    ensures
        next.unzoomed_view() == Some((now, cache.filters())),
        cache.drawn_from(agents, build, next.unzoomed_payload()->0),
{
    let e = choose|e: Option<u128>|
        (e is Some) == cache.refresh_moment_known() && #[trigger] cache.is_calculation(
            next,
            now,
            force_refresh,
            e,
            agents,
            build,
        );
    assert(cache.is_calculation(next, now, force_refresh, e, agents, build));
}

} // verus!
