//! Bounded, volatile replay transitions for isolated research runs.
//!
//! This module grants no verifier capability and does not implement the
//! durable replay-store contract. Callers supply validated inputs and modeled
//! time. Every slot the cache will ever use is reserved when the run starts.
use vstd::prelude::*;

use crate::freshness::{KeyView, RegistrationView, ReplayKey, ReplayRegistration};
use crate::model::{
    AccountScope, FreshnessError, FreshnessLimits, PublisherId, UnixTime, spec_evaluate,
};

verus! {

/// The number of items of `s` that satisfy `p`.
pub open spec fn count<T>(s: Seq<T>, p: spec_fn(T) -> bool) -> nat
    decreases s.len(),
{
    if s.len() == 0 {
        0
    } else {
        count(s.drop_last(), p) + if p(s.last()) {
            1nat
        } else {
            0nat
        }
    }
}

/// The index of the first item of `s` that satisfies `p`, or the length of
/// `s` when none does.
pub open spec fn first_where<T>(s: Seq<T>, p: spec_fn(T) -> bool) -> int
    decreases s.len(),
{
    if s.len() == 0 {
        0
    } else if p(s[0]) {
        0
    } else {
        1 + first_where(s.subrange(1, s.len() as int), p)
    }
}

/// Slots that are empty.
pub open spec fn free_slot<T>() -> spec_fn(Option<T>) -> bool {
    |s: Option<T>| s is None
}

/// Slots that are occupied.
pub open spec fn taken_slot<T>() -> spec_fn(Option<T>) -> bool {
    |s: Option<T>| s is Some
}

/// `s` with every item that satisfies `p` emptied.
pub open spec fn swept<T>(s: Seq<Option<T>>, p: spec_fn(Option<T>) -> bool) -> Seq<Option<T>> {
    s.map_values(|x: Option<T>| if p(x) { None } else { x })
}

proof fn lemma_count_step<T>(s: Seq<T>, p: spec_fn(T) -> bool, i: int)
    requires
        0 <= i < s.len(),
    ensures
        count(s.take(i + 1), p) == count(s.take(i), p) + if p(s[i]) {
            1nat
        } else {
            0nat
        },
{
    assert(s.take(i + 1).drop_last() =~= s.take(i));
}

proof fn lemma_count_bound<T>(s: Seq<T>, p: spec_fn(T) -> bool)
    ensures
        count(s, p) <= s.len(),
    decreases s.len(),
{
    if s.len() > 0 {
        lemma_count_bound(s.drop_last(), p);
    }
}

proof fn lemma_count_update<T>(s: Seq<T>, p: spec_fn(T) -> bool, i: int, v: T)
    requires
        0 <= i < s.len(),
    ensures
        count(s.update(i, v), p) + (if p(s[i]) {
            1nat
        } else {
            0nat
        }) == count(s, p) + (if p(v) {
            1nat
        } else {
            0nat
        }),
    decreases s.len(),
{
    let t = s.update(i, v);
    if i == s.len() - 1 {
        assert(t.drop_last() =~= s.drop_last());
    } else {
        assert(t.drop_last() =~= s.drop_last().update(i, v));
        lemma_count_update(s.drop_last(), p, i, v);
    }
}

proof fn lemma_full_count<T>(s: Seq<T>, p: spec_fn(T) -> bool)
    requires
        forall|i: int| 0 <= i < s.len() ==> #[trigger] p(s[i]),
    ensures
        count(s, p) == s.len(),
    decreases s.len(),
{
    if s.len() > 0 {
        lemma_full_count(s.drop_last(), p);
    }
}

proof fn lemma_none_count<T>(s: Seq<T>, p: spec_fn(T) -> bool)
    requires
        forall|i: int| 0 <= i < s.len() ==> !#[trigger] p(s[i]),
    ensures
        count(s, p) == 0,
    decreases s.len(),
{
    if s.len() > 0 {
        lemma_none_count(s.drop_last(), p);
    }
}

proof fn lemma_first_where<T>(s: Seq<T>, p: spec_fn(T) -> bool)
    ensures
        0 <= first_where(s, p) <= s.len(),
        forall|j: int| 0 <= j < first_where(s, p) ==> !#[trigger] p(s[j]),
        first_where(s, p) < s.len() ==> p(s[first_where(s, p)]),
    decreases s.len(),
{
    if s.len() > 0 && !p(s[0]) {
        let rest = s.subrange(1, s.len() as int);
        lemma_first_where(rest, p);
        assert forall|j: int| 0 <= j < first_where(s, p) implies !#[trigger] p(s[j]) by {
            if j > 0 {
                assert(s[j] == rest[j - 1]);
            }
        }
    }
}

proof fn lemma_first_where_is<T>(s: Seq<T>, p: spec_fn(T) -> bool, k: int)
    requires
        0 <= k < s.len(),
        p(s[k]),
        forall|j: int| 0 <= j < k ==> !#[trigger] p(s[j]),
    ensures
        first_where(s, p) == k,
{
    lemma_first_where(s, p);
    if first_where(s, p) < k {
        assert(p(s[first_where(s, p)]));
    }
}

/// A retained registration and whether it was consumed.
pub struct RecordView {
    pub registration: RegistrationView,
    pub consumed: bool,
}

/// A retained issuance event: its publisher and when it was observed.
pub struct EventView {
    pub publisher: Seq<char>,
    pub observed_at: u64,
}

/// The state of a run that has not been lost: the time floor, once time has
/// been observed, and every record and event slot.
pub struct ActiveView {
    pub floor: Option<u64>,
    pub records: Seq<Option<RecordView>>,
    pub events: Seq<Option<EventView>>,
}

/// The state of a research run.
pub enum CacheView {
    Available(ActiveView),
    Lost,
}

/// Record slots that hold a registration.
pub open spec fn live_record() -> spec_fn(Option<RecordView>) -> bool {
    taken_slot()
}

/// Record slots that hold the replay key `key`.
pub open spec fn key_record(key: KeyView) -> spec_fn(Option<RecordView>) -> bool {
    |s: Option<RecordView>| s is Some && s->0.registration.key == key
}

/// Record slots that hold a registration of `publisher`.
pub open spec fn publisher_record(publisher: Seq<char>) -> spec_fn(Option<RecordView>) -> bool {
    |s: Option<RecordView>| s is Some && s->0.registration.key.publisher == publisher
}

/// Record slots that hold a registration of `publisher` for `account`.
pub open spec fn account_record(publisher: Seq<char>, account: Seq<char>) -> spec_fn(
    Option<RecordView>,
) -> bool {
    |s: Option<RecordView>|
        s is Some && s->0.registration.key.publisher == publisher
            && s->0.registration.binding.account == account
}

/// Record slots whose registration window has closed at `floor`.
pub open spec fn expired_record(floor: u64) -> spec_fn(Option<RecordView>) -> bool {
    |s: Option<RecordView>| s is Some && s->0.registration.window.expires_at.seconds <= floor
}

/// Event slots that hold an event.
pub open spec fn live_event() -> spec_fn(Option<EventView>) -> bool {
    taken_slot()
}

/// Event slots that hold an event of `publisher`.
pub open spec fn publisher_event(publisher: Seq<char>) -> spec_fn(Option<EventView>) -> bool {
    |s: Option<EventView>| s is Some && s->0.publisher == publisher
}

/// Event slots whose rate window of `rate` seconds has passed at `floor`.
pub open spec fn stale_event(floor: u64, rate: u64) -> spec_fn(Option<EventView>) -> bool {
    |s: Option<EventView>|
        s is Some && s->0.observed_at <= floor && floor - s->0.observed_at >= rate
}

/// Whether `now` is behind the run's time floor.
pub open spec fn rolled_back(a: ActiveView, now: u64) -> bool {
    a.floor matches Some(floor) && now < floor
}

/// The run with its time floor set to `now`.
pub open spec fn at_floor(a: ActiveView, now: u64) -> ActiveView {
    ActiveView { floor: Some(now), records: a.records, events: a.events }
}

/// The run after collection at its floor: records whose window closed and
/// events whose rate window passed are emptied.
pub open spec fn collected(a: ActiveView, rate: u64) -> ActiveView {
    ActiveView {
        floor: a.floor,
        records: swept(a.records, expired_record(a.floor->0)),
        events: swept(a.events, stale_event(a.floor->0, rate)),
    }
}

/// The number of registrations collection removes.
pub open spec fn expiring(a: ActiveView) -> nat {
    count(a.records, expired_record(a.floor->0))
}

/// Immutable policy for one research run, without implicit defaults.
#[derive(Clone, Copy)]
pub struct MockReplayLimits {
    freshness: FreshnessLimits,
    max_retained_issuances: usize,
}

impl MockReplayLimits {
    #[verifier::type_invariant]
    spec fn positive(self) -> bool {
        self.max_retained_issuances > 0
    }

    /// The freshness policy.
    pub closed spec fn policy(self) -> FreshnessLimits {
        self.freshness
    }

    /// The global retained issuance-event bound.
    pub closed spec fn event_bound(self) -> usize {
        self.max_retained_issuances
    }

    /// Selects all freshness limits and the global retained-event bound.
    pub fn new(freshness: FreshnessLimits, max_retained_issuances: usize) -> (r: MockReplayLimits)
        requires
            max_retained_issuances > 0,
        ensures
            r.policy() == freshness,
            r.event_bound() == max_retained_issuances,
    {
        MockReplayLimits { freshness, max_retained_issuances }
    }

    /// Returns the immutable freshness policy.
    pub fn freshness(&self) -> (r: FreshnessLimits)
        ensures
            r == self.policy(),
    {
        self.freshness
    }

    /// Returns the global retained issuance-event bound.
    pub fn max_retained_issuances(&self) -> (r: usize)
        ensures
            r == self.event_bound(),
            r > 0,
    {
        proof {
            use_type_invariant(self);
        }
        self.max_retained_issuances
    }

    /// The redacted diagnostic text.
    pub fn diagnostic(&self) -> (r: &'static str)
        ensures
            r@ == "MockReplayLimits([REDACTED])"@,
    {
        "MockReplayLimits([REDACTED])"
    }
}

/// Aggregate occupied-slot counts, including entries awaiting cleanup.
#[derive(Clone, Copy, PartialEq, Eq, Structural)]
pub struct MockReplayStats {
    retained_records: usize,
    retained_issuances: usize,
}

impl MockReplayStats {
    /// The number of retained issued and consumed registrations.
    pub closed spec fn records(self) -> usize {
        self.retained_records
    }

    /// The number of retained issuance events.
    pub closed spec fn issuances(self) -> usize {
        self.retained_issuances
    }

    /// Returns the number of retained issued and consumed registrations.
    pub fn retained_records(&self) -> (r: usize)
        ensures
            r == self.records(),
    {
        self.retained_records
    }

    /// Returns the number of retained issuance events.
    pub fn retained_issuances(&self) -> (r: usize)
        ensures
            r == self.issuances(),
    {
        self.retained_issuances
    }

    /// The redacted diagnostic text.
    pub fn diagnostic(&self) -> (r: &'static str)
        ensures
            r@ == "MockReplayStats([REDACTED])"@,
    {
        "MockReplayStats([REDACTED])"
    }
}

struct Record {
    registration: ReplayRegistration,
    consumed: bool,
}

struct Event {
    publisher: PublisherId,
    observed_at: UnixTime,
}

struct Active {
    floor: Option<UnixTime>,
    records: Vec<Option<Record>>,
    events: Vec<Option<Event>>,
}

enum State {
    Available(Active),
    Lost,
}

spec fn record_slot(s: Option<Record>) -> Option<RecordView> {
    match s {
        Some(r) => Some(RecordView { registration: r.registration@, consumed: r.consumed }),
        None => None,
    }
}

spec fn event_slot(s: Option<Event>) -> Option<EventView> {
    match s {
        Some(e) => Some(EventView { publisher: e.publisher@, observed_at: e.observed_at.seconds }),
        None => None,
    }
}

spec fn record_slots(v: Seq<Option<Record>>) -> Seq<Option<RecordView>> {
    v.map_values(|s: Option<Record>| record_slot(s))
}

spec fn event_slots(v: Seq<Option<Event>>) -> Seq<Option<EventView>> {
    v.map_values(|s: Option<Event>| event_slot(s))
}

spec fn active_view(a: Active) -> ActiveView {
    ActiveView {
        floor: match a.floor {
            Some(t) => Some(t.seconds),
            None => None,
        },
        records: record_slots(a.records@),
        events: event_slots(a.events@),
    }
}

/// Whether a run's slots fit its limits: one record slot per outstanding
/// challenge, one event slot per retained issuance, and no event observed
/// after the time floor.
pub open spec fn fits(limits: MockReplayLimits, a: ActiveView) -> bool {
    &&& a.records.len() == limits.policy().spec_max_outstanding_total()
    &&& a.events.len() == limits.event_bound()
    &&& forall|i: int|
        0 <= i < a.events.len() && #[trigger] a.events[i] is Some ==> a.floor is Some
            && a.events[i]->0.observed_at <= a.floor->0
}

/// Observing `now`: refused when it is behind the floor, else the floor moves
/// to `now`.
pub open spec fn observe_step(a: ActiveView, now: u64) -> (ActiveView, Result<(), FreshnessError>) {
    if rolled_back(a, now) {
        (a, Err(FreshnessError::ClockRollback))
    } else {
        (at_floor(a, now), Ok(()))
    }
}

/// Purging at `now`: time is observed, then expired state is collected and
/// the number of removed registrations returned.
pub open spec fn purge_step(limits: MockReplayLimits, a: ActiveView, now: u64) -> (
    ActiveView,
    Result<usize, FreshnessError>,
) {
    if rolled_back(a, now) {
        (a, Err(FreshnessError::ClockRollback))
    } else {
        let b = at_floor(a, now);
        (
            collected(b, limits.policy().spec_issuance_rate_window_seconds()),
            Ok(expiring(b) as usize),
        )
    }
}

/// Registering `reg` at `now`. Time is observed first; then the window must
/// be well formed, within the lifetime bound and open at `now`; then expired
/// state is collected and stays collected; then a key already retained is a
/// replay, and each outstanding or issuance bound that is reached refuses
/// the registration; otherwise the registration takes the first free record
/// slot and its issuance the first free event slot.
pub open spec fn register_step(
    limits: MockReplayLimits,
    a: ActiveView,
    now: u64,
    reg: RegistrationView,
) -> (ActiveView, Result<(), FreshnessError>) {
    let policy = limits.policy();
    let window = reg.window;
    let publisher = reg.key.publisher;
    if rolled_back(a, now) {
        (a, Err(FreshnessError::ClockRollback))
    } else {
        let b = at_floor(a, now);
        if window.expires_at.seconds <= window.issued_at.seconds {
            (b, Err(FreshnessError::InvalidWindow))
        } else if window.expires_at.seconds - window.issued_at.seconds > policy.spec_max_lifetime() {
            (b, Err(FreshnessError::LifetimeExceeded))
        } else if spec_evaluate(window, now) is Err {
            (b, spec_evaluate(window, now))
        } else {
            let c = collected(b, policy.spec_issuance_rate_window_seconds());
            if count(c.records, key_record(reg.key)) > 0 {
                (c, Err(FreshnessError::ReplayDetected))
            } else if count(c.records, live_record()) >= policy.spec_max_outstanding_total() {
                (c, Err(FreshnessError::CapacityExceeded))
            } else if count(c.records, publisher_record(publisher))
                >= policy.spec_max_outstanding_per_publisher() {
                (c, Err(FreshnessError::CapacityExceeded))
            } else if count(c.records, account_record(publisher, reg.binding.account))
                >= policy.spec_max_outstanding_per_account() {
                (c, Err(FreshnessError::CapacityExceeded))
            } else if count(c.events, publisher_event(publisher))
                >= policy.spec_max_issuances_per_publisher() {
                (c, Err(FreshnessError::CapacityExceeded))
            } else if count(c.events, live_event()) >= limits.event_bound() {
                (c, Err(FreshnessError::CapacityExceeded))
            } else {
                (
                    ActiveView {
                        floor: c.floor,
                        records: c.records.update(
                            first_where(c.records, free_slot()),
                            Some(RecordView { registration: reg, consumed: false }),
                        ),
                        events: c.events.update(
                            first_where(c.events, free_slot()),
                            Some(EventView { publisher, observed_at: now }),
                        ),
                    },
                    Ok(()),
                )
            }
        }
    }
}

/// Claiming `reg` at `now`. Time is observed first and the window must be
/// open; without a retained registration under its key the state is
/// unavailable; the first one found must carry the same binding and window
/// and be unconsumed, else the claim is a replay; a successful claim marks
/// it consumed for good. Nothing is collected.
pub open spec fn claim_step(a: ActiveView, now: u64, reg: RegistrationView) -> (
    ActiveView,
    Result<(), FreshnessError>,
) {
    if rolled_back(a, now) {
        (a, Err(FreshnessError::ClockRollback))
    } else {
        let b = at_floor(a, now);
        if spec_evaluate(reg.window, now) is Err {
            (b, spec_evaluate(reg.window, now))
        } else if count(b.records, key_record(reg.key)) == 0 {
            (b, Err(FreshnessError::StateUnavailable))
        } else {
            let k = first_where(b.records, key_record(reg.key));
            let held = b.records[k]->0;
            if held.registration.binding != reg.binding || held.registration.window != reg.window
                || held.consumed {
                (b, Err(FreshnessError::ReplayDetected))
            } else {
                (
                    ActiveView {
                        floor: b.floor,
                        records: b.records.update(
                            k,
                            Some(RecordView { registration: held.registration, consumed: true }),
                        ),
                        events: b.events,
                    },
                    Ok(()),
                )
            }
        }
    }
}

/// A step of a run: a lost run answers every step with `StateUnavailable`
/// and stays lost; an available run takes the step.
pub open spec fn on_run<R>(
    before: CacheView,
    step: spec_fn(ActiveView) -> (ActiveView, Result<R, FreshnessError>),
) -> (CacheView, Result<R, FreshnessError>) {
    match before {
        CacheView::Lost => (CacheView::Lost, Err(FreshnessError::StateUnavailable)),
        CacheView::Available(a) => (CacheView::Available(step(a).0), step(a).1),
    }
}

/// Shared in-process model of one research run.
pub struct MockReplayCache {
    limits: MockReplayLimits,
    state: State,
}

enum RecordQuery<'a> {
    Live,
    Key(&'a ReplayKey),
    Publisher(&'a PublisherId),
    Account(&'a PublisherId, &'a AccountScope),
}

spec fn record_query(q: RecordQuery) -> spec_fn(Option<RecordView>) -> bool {
    match q {
        RecordQuery::Live => live_record(),
        RecordQuery::Key(key) => key_record(key@),
        RecordQuery::Publisher(publisher) => publisher_record(publisher@),
        RecordQuery::Account(publisher, account) => account_record(publisher@, account@),
    }
}

fn record_hit(slot: &Option<Record>, q: &RecordQuery) -> (r: bool)
    ensures
        r == record_query(*q)(record_slot(*slot)),
{
    match slot {
        None => false,
        Some(record) => match q {
            RecordQuery::Live => true,
            RecordQuery::Key(key) => record.registration.key().same(key),
            RecordQuery::Publisher(publisher) => record.registration.key().publisher_id().same(
                publisher,
            ),
            RecordQuery::Account(publisher, account) => record.registration.key().publisher_id().same(
                publisher,
            ) && record.registration.binding().account_scope().same(account),
        },
    }
}

fn count_records(records: &Vec<Option<Record>>, q: &RecordQuery) -> (n: usize)
    ensures
        n == count(record_slots(records@), record_query(*q)),
{
    let ghost view = record_slots(records@);
    let mut n: usize = 0;
    let mut i: usize = 0;
    while i < records.len()
        invariant
            i <= records.len(),
            view == record_slots(records@),
            n == count(view.take(i as int), record_query(*q)),
        decreases records.len() - i,
    {
        proof {
            lemma_count_step(view, record_query(*q), i as int);
            lemma_count_bound(view.take(i as int + 1), record_query(*q));
        }
        if record_hit(&records[i], q) {
            n = n + 1;
        }
        i = i + 1;
    }
    proof {
        assert(view.take(i as int) =~= view);
    }
    n
}

enum EventQuery<'a> {
    Live,
    Publisher(&'a PublisherId),
}

spec fn event_query(q: EventQuery) -> spec_fn(Option<EventView>) -> bool {
    match q {
        EventQuery::Live => live_event(),
        EventQuery::Publisher(publisher) => publisher_event(publisher@),
    }
}

fn count_events(events: &Vec<Option<Event>>, q: &EventQuery) -> (n: usize)
    ensures
        n == count(event_slots(events@), event_query(*q)),
{
    let ghost view = event_slots(events@);
    let mut n: usize = 0;
    let mut i: usize = 0;
    while i < events.len()
        invariant
            i <= events.len(),
            view == event_slots(events@),
            n == count(view.take(i as int), event_query(*q)),
        decreases events.len() - i,
    {
        proof {
            lemma_count_step(view, event_query(*q), i as int);
            lemma_count_bound(view.take(i as int + 1), event_query(*q));
        }
        let hit = match &events[i] {
            None => false,
            Some(event) => match q {
                EventQuery::Live => true,
                EventQuery::Publisher(publisher) => event.publisher.same(publisher),
            },
        };
        if hit {
            n = n + 1;
        }
        i = i + 1;
    }
    proof {
        assert(view.take(i as int) =~= view);
    }
    n
}

/// The first record slot that satisfies `q`.
fn find_record(records: &Vec<Option<Record>>, q: &RecordQuery) -> (r: Option<usize>)
    ensures
        match r {
            Some(i) => i < records.len() && i == first_where(record_slots(records@), record_query(*q)),
            None => count(record_slots(records@), record_query(*q)) == 0,
        },
{
    let ghost view = record_slots(records@);
    let mut i: usize = 0;
    while i < records.len()
        invariant
            i <= records.len(),
            view == record_slots(records@),
            forall|j: int| 0 <= j < i ==> !#[trigger] record_query(*q)(view[j]),
        decreases records.len() - i,
    {
        if record_hit(&records[i], q) {
            proof {
                lemma_first_where_is(view, record_query(*q), i as int);
            }
            return Some(i);
        }
        i = i + 1;
    }
    proof {
        lemma_none_count(view, record_query(*q));
    }
    None
}

/// The first empty event slot.
fn free_event(events: &Vec<Option<Event>>) -> (r: Option<usize>)
    ensures
        match r {
            Some(i) => i < events.len() && i == first_where(event_slots(events@), free_slot()),
            None => count(event_slots(events@), free_slot::<EventView>()) == 0,
        },
{
    let ghost view = event_slots(events@);
    let mut i: usize = 0;
    while i < events.len()
        invariant
            i <= events.len(),
            view == event_slots(events@),
            forall|j: int| 0 <= j < i ==> !#[trigger] free_slot::<EventView>()(view[j]),
        decreases events.len() - i,
    {
        if events[i].is_none() {
            proof {
                lemma_first_where_is(view, free_slot::<EventView>(), i as int);
            }
            return Some(i);
        }
        i = i + 1;
    }
    proof {
        lemma_none_count(view, free_slot::<EventView>());
    }
    None
}

/// The first empty record slot.
fn free_record(records: &Vec<Option<Record>>) -> (r: Option<usize>)
    ensures
        match r {
            Some(i) => i < records.len() && i == first_where(record_slots(records@), free_slot()),
            None => count(record_slots(records@), free_slot::<RecordView>()) == 0,
        },
{
    let ghost view = record_slots(records@);
    let mut i: usize = 0;
    while i < records.len()
        invariant
            i <= records.len(),
            view == record_slots(records@),
            forall|j: int| 0 <= j < i ==> !#[trigger] free_slot::<RecordView>()(view[j]),
        decreases records.len() - i,
    {
        if records[i].is_none() {
            proof {
                lemma_first_where_is(view, free_slot::<RecordView>(), i as int);
            }
            return Some(i);
        }
        i = i + 1;
    }
    proof {
        lemma_none_count(view, free_slot::<RecordView>());
    }
    None
}

/// Observes `now` on a run: refused when behind the floor.
fn advance(active: &mut Active, now: UnixTime) -> (r: Result<(), FreshnessError>)
    ensures
        (active_view(*final(active)), r) == observe_step(active_view(*old(active)), now.seconds),
        final(active).records == old(active).records,
        final(active).events == old(active).events,
{
    if let Some(floor) = active.floor {
        if now.seconds < floor.seconds {
            return Err(FreshnessError::ClockRollback);
        }
    }
    active.floor = Some(now);
    Ok(())
}

/// Whether a run can be collected at its floor: the floor has been set and
/// no retained event was observed after it.
pub open spec fn collectable(a: ActiveView) -> bool {
    &&& a.floor is Some
    &&& forall|i: int|
        0 <= i < a.events.len() && #[trigger] a.events[i] is Some ==> a.events[i]->0.observed_at
            <= a.floor->0
}

/// Collects expired slots at the floor and returns the number of removed
/// registrations. A floor that was never set, or an event observed after it,
/// is reported as unavailable state and nothing is removed.
fn collect(active: &mut Active, rate_window: u64) -> (r: Result<usize, FreshnessError>)
    ensures
        collectable(active_view(*old(active))) ==> r == Ok::<usize, FreshnessError>(
            expiring(active_view(*old(active))) as usize,
        ) && active_view(*final(active)) == collected(active_view(*old(active)), rate_window),
        !collectable(active_view(*old(active))) ==> r == Err::<usize, FreshnessError>(
            FreshnessError::StateUnavailable,
        ) && *final(active) == *old(active),
{
    let ghost before = active_view(*active);
    let floor = match active.floor {
        Some(floor) => floor,
        None => return Err(FreshnessError::StateUnavailable),
    };
    let mut i: usize = 0;
    while i < active.events.len()
        invariant
            i <= active.events.len(),
            active.floor == Some(floor),
            *active == *old(active),
            before == active_view(*old(active)),
            forall|j: int|
                0 <= j < i && #[trigger] event_slots(active.events@)[j] is Some
                    ==> event_slots(active.events@)[j]->0.observed_at <= floor.seconds,
        decreases active.events.len() - i,
    {
        proof {
            assert(event_slots(active.events@)[i as int] == event_slot(active.events@[i as int]));
        }
        if let Some(event) = &active.events[i] {
            if event.observed_at.seconds > floor.seconds {
                return Err(FreshnessError::StateUnavailable);
            }
        }
        i = i + 1;
    }
    assert(collectable(before));
    let ghost records0 = before.records;
    let ghost expired = expired_record(floor.seconds);
    let mut removed: usize = 0;
    let mut i: usize = 0;
    while i < active.records.len()
        invariant
            i <= active.records.len(),
            active.records.len() == records0.len(),
            active.floor == Some(floor),
            expired == expired_record(floor.seconds),
            active.events == old(active).events,
            removed == count(records0.take(i as int), expired),
            forall|j: int|
                0 <= j < i ==> #[trigger] record_slots(active.records@)[j] == swept(
                    records0,
                    expired,
                )[j],
            forall|j: int|
                i <= j < active.records.len() ==> #[trigger] record_slots(active.records@)[j]
                    == records0[j],
        decreases active.records.len() - i,
    {
        proof {
            lemma_count_step(records0, expired, i as int);
            lemma_count_bound(records0.take(i as int), expired);
            assert(record_slots(active.records@)[i as int] == record_slot(active.records@[i as int]));
        }
        let ghost before_set = active.records@;
        let gone = match &active.records[i] {
            Some(record) => record.registration.window().expires_at().seconds <= floor.seconds,
            None => false,
        };
        if gone {
            active.records.set(i, None);
            removed = removed + 1;
        }
        proof {
            assert forall|j: int| 0 <= j < active.records.len() implies #[trigger] record_slots(
                active.records@,
            )[j] == if j == i {
                swept(records0, expired)[j]
            } else {
                record_slots(before_set)[j]
            } by {
                assert(record_slots(active.records@)[j] == record_slot(active.records@[j]));
                assert(record_slots(before_set)[j] == record_slot(before_set[j]));
                assert(swept(records0, expired)[j] == (if expired(records0[j]) {
                    None
                } else {
                    records0[j]
                }));
            }
        }
        i = i + 1;
    }
    proof {
        assert(records0.take(i as int) =~= records0);
        assert(record_slots(active.records@) =~= swept(records0, expired));
    }
    let ghost events0 = event_slots(active.events@);
    let ghost stale = stale_event(floor.seconds, rate_window);
    let mut i: usize = 0;
    while i < active.events.len()
        invariant
            i <= active.events.len(),
            active.events.len() == events0.len(),
            active.floor == Some(floor),
            stale == stale_event(floor.seconds, rate_window),
            record_slots(active.records@) == swept(records0, expired),
            forall|j: int|
                0 <= j < i ==> #[trigger] event_slots(active.events@)[j] == swept(events0, stale)[j],
            forall|j: int|
                i <= j < active.events.len() ==> #[trigger] event_slots(active.events@)[j]
                    == events0[j],
        decreases active.events.len() - i,
    {
        proof {
            assert(event_slots(active.events@)[i as int] == event_slot(active.events@[i as int]));
        }
        let ghost before_set = active.events@;
        let gone = match &active.events[i] {
            Some(event) => event.observed_at.seconds <= floor.seconds && floor.seconds
                - event.observed_at.seconds >= rate_window,
            None => false,
        };
        if gone {
            active.events.set(i, None);
        }
        proof {
            assert forall|j: int| 0 <= j < active.events.len() implies #[trigger] event_slots(
                active.events@,
            )[j] == if j == i {
                swept(events0, stale)[j]
            } else {
                event_slots(before_set)[j]
            } by {
                assert(event_slots(active.events@)[j] == event_slot(active.events@[j]));
                assert(event_slots(before_set)[j] == event_slot(before_set[j]));
                assert(swept(events0, stale)[j] == (if stale(events0[j]) {
                    None
                } else {
                    events0[j]
                }));
            }
        }
        i = i + 1;
    }
    proof {
        assert(event_slots(active.events@) =~= swept(events0, stale));
        assert(active_view(*active) =~= collected(before, rate_window));
    }
    Ok(removed)
}

proof fn lemma_zero_count<T>(s: Seq<T>, p: spec_fn(T) -> bool)
    requires
        count(s, p) == 0,
    ensures
        forall|i: int| 0 <= i < s.len() ==> !#[trigger] p(s[i]),
    decreases s.len(),
{
    if s.len() > 0 {
        lemma_zero_count(s.drop_last(), p);
        assert forall|i: int| 0 <= i < s.len() implies !#[trigger] p(s[i]) by {
            if i < s.len() - 1 {
                assert(s[i] == s.drop_last()[i]);
            }
        }
    }
}

/// With no free slot, every slot is live.
proof fn lemma_no_free_all_live<T>(s: Seq<Option<T>>)
    requires
        count(s, free_slot::<T>()) == 0,
    ensures
        count(s, taken_slot::<T>()) == s.len(),
{
    lemma_zero_count(s, free_slot::<T>());
    assert forall|i: int| 0 <= i < s.len() implies #[trigger] taken_slot::<T>()(s[i]) by {
        assert(!free_slot::<T>()(s[i]));
    }
    lemma_full_count(s, taken_slot::<T>());
}

/// Registers `registration` on an available run. `lost` is set when the run
/// cannot be collected, after which it is no longer trusted; a run that fits
/// its limits can always be collected, so on such a run it stays clear.
fn register_active(
    active: &mut Active,
    limits: &MockReplayLimits,
    now: UnixTime,
    registration: &ReplayRegistration,
    lost: &mut bool,
) -> (r: Result<(), FreshnessError>)
    requires
        fits(*limits, active_view(*old(active))),
        !*old(lost),
    ensures
        !*final(lost),
        (active_view(*final(active)), r) == register_step(
            *limits,
            active_view(*old(active)),
            now.seconds,
            registration@,
        ),
        fits(*limits, active_view(*final(active))),
{
    let ghost a0 = active_view(*active);
    advance(active, now)?;
    let window = registration.window();
    if window.expires_at.seconds <= window.issued_at.seconds {
        return Err(FreshnessError::InvalidWindow);
    }
    let policy = limits.freshness();
    if window.expires_at.seconds - window.issued_at.seconds > policy.max_lifetime().seconds() {
        return Err(FreshnessError::LifetimeExceeded);
    }
    window.evaluate(now)?;
    let ghost b = active_view(*active);
    assert(forall|i: int|
        0 <= i < b.events.len() && #[trigger] b.events[i] is Some ==> b.events[i]->0.observed_at
            <= b.floor->0) by {
        assert(forall|i: int|
            0 <= i < a0.events.len() && #[trigger] a0.events[i] is Some ==> a0.floor is Some
                && a0.events[i]->0.observed_at <= a0.floor->0);
    }
    if let Err(error) = collect(active, policy.issuance_rate_window_seconds()) {
        *lost = true;
        return Err(error);
    }
    let ghost c = active_view(*active);
    let key = registration.key();
    if count_records(&active.records, &RecordQuery::Key(key)) > 0 {
        return Err(FreshnessError::ReplayDetected);
    }
    if count_records(&active.records, &RecordQuery::Live) >= policy.max_outstanding_total() {
        return Err(FreshnessError::CapacityExceeded);
    }
    let publisher = key.publisher_id();
    if count_records(&active.records, &RecordQuery::Publisher(publisher))
        >= policy.max_outstanding_per_publisher() {
        return Err(FreshnessError::CapacityExceeded);
    }
    let account = registration.binding().account_scope();
    if count_records(&active.records, &RecordQuery::Account(publisher, account))
        >= policy.max_outstanding_per_account() {
        return Err(FreshnessError::CapacityExceeded);
    }
    if count_events(&active.events, &EventQuery::Publisher(publisher))
        >= policy.max_issuances_per_publisher() {
        return Err(FreshnessError::CapacityExceeded);
    }
    if count_events(&active.events, &EventQuery::Live) >= limits.max_retained_issuances() {
        return Err(FreshnessError::CapacityExceeded);
    }
    let record_index = match free_record(&active.records) {
        Some(index) => index,
        None => {
            proof {
                lemma_no_free_all_live(c.records);
            }
            return Err(FreshnessError::StateUnavailable);
        },
    };
    let event_index = match free_event(&active.events) {
        Some(index) => index,
        None => {
            proof {
                lemma_no_free_all_live(c.events);
            }
            return Err(FreshnessError::StateUnavailable);
        },
    };
    let record = Record { registration: registration.copy(), consumed: false };
    let event = Event { publisher: publisher.copy(), observed_at: now };
    let ghost records_before = active.records@;
    let ghost events_before = active.events@;
    active.records.set(record_index, Some(record));
    active.events.set(event_index, Some(event));
    proof {
        assert(record_slots(active.records@) =~= c.records.update(
            record_index as int,
            Some(RecordView { registration: registration@, consumed: false }),
        ));
        assert(event_slots(active.events@) =~= c.events.update(
            event_index as int,
            Some(EventView { publisher: key@.publisher, observed_at: now.seconds }),
        ));
    }
    Ok(())
}

/// Claims `registration` on an available run.
fn claim_active(active: &mut Active, now: UnixTime, registration: &ReplayRegistration) -> (r:
    Result<(), FreshnessError>)
    ensures
        (active_view(*final(active)), r) == claim_step(
            active_view(*old(active)),
            now.seconds,
            registration@,
        ),
        final(active).events == old(active).events,
        final(active).records@.len() == old(active).records@.len(),
{
    advance(active, now)?;
    registration.window().evaluate(now)?;
    let ghost b = active_view(*active);
    let index = match find_record(&active.records, &RecordQuery::Key(registration.key())) {
        Some(index) => index,
        None => return Err(FreshnessError::StateUnavailable),
    };
    proof {
        lemma_first_where(b.records, key_record(registration@.key));
        if count(b.records, key_record(registration@.key)) == 0 {
            lemma_zero_count(b.records, key_record(registration@.key));
        }
        assert(b.records[index as int] == record_slot(active.records@[index as int]));
    }
    let refused = match &active.records[index] {
        Some(record) => !record.registration.binding().same(registration.binding())
            || record.registration.window() != registration.window() || record.consumed,
        None => true,
    };
    if refused {
        return Err(FreshnessError::ReplayDetected);
    }
    active.records.set(index, Some(Record { registration: registration.copy(), consumed: true }));
    proof {
        assert(record_slots(active.records@) =~= b.records.update(
            index as int,
            Some(RecordView { registration: b.records[index as int]->0.registration, consumed: true }),
        ));
    }
    Ok(())
}

/// Per-slot payload the budget reserves for one registration, in bytes.
pub const RECORD_PAYLOAD_BYTES: usize = 768;

/// Per-slot payload the budget reserves for one issuance event, in bytes.
pub const EVENT_PAYLOAD_BYTES: usize = 128;

/// Whether `records` record slots and `events` event slots fit the address
/// space, both as slot storage and as the payload reserved for them.
pub closed spec fn budget_fits(records: usize, events: usize) -> bool {
    &&& records * vstd::layout::size_of::<Option<Record>>() + events * vstd::layout::size_of::<
        Option<Event>,
    >() <= usize::MAX
    &&& records * RECORD_PAYLOAD_BYTES + events * EVENT_PAYLOAD_BYTES <= usize::MAX
}

fn checked_budget(records: usize, events: usize) -> (r: Result<(), FreshnessError>)
    ensures
        r is Ok <==> budget_fits(records, events),
        r is Err ==> r == Err::<(), FreshnessError>(FreshnessError::CapacityExceeded),
{
    let record_size = std::mem::size_of::<Option<Record>>();
    let event_size = std::mem::size_of::<Option<Event>>();
    proof {
        assert(0 <= records * record_size) by (nonlinear_arith);
        assert(0 <= events * event_size) by (nonlinear_arith);
        assert(0 <= records * RECORD_PAYLOAD_BYTES);
        assert(0 <= events * EVENT_PAYLOAD_BYTES);
    }
    let storage = match records.checked_mul(record_size) {
        Some(a) => match events.checked_mul(event_size) {
            Some(b) => a.checked_add(b),
            None => None,
        },
        None => None,
    };
    let payload = match records.checked_mul(RECORD_PAYLOAD_BYTES) {
        Some(a) => match events.checked_mul(EVENT_PAYLOAD_BYTES) {
            Some(b) => a.checked_add(b),
            None => None,
        },
        None => None,
    };
    match (storage, payload) {
        (Some(_), Some(_)) => Ok(()),
        _ => Err(FreshnessError::CapacityExceeded),
    }
}

/// Reserves room for exactly `additional` more items (`Vec::try_reserve_exact`),
/// telling whether the allocator granted it. The contents are unchanged
/// either way; whether room is granted depends on the machine.
#[verifier::external_body]
fn reserve_exactly<T>(v: &mut Vec<T>, additional: usize) -> (granted: bool)
    ensures
        final(v)@ == old(v)@,
{
    v.try_reserve_exact(additional).is_ok()
}

/// `n` empty slots, reserved up front.
fn empty_slots<T>(n: usize) -> (r: Result<Vec<Option<T>>, FreshnessError>)
    ensures
        match r {
            Ok(v) => v@ == Seq::new(n as nat, |i: int| None::<T>),
            Err(e) => e == FreshnessError::CapacityExceeded,
        },
{
    let mut slots: Vec<Option<T>> = Vec::new();
    if !reserve_exactly(&mut slots, n) {
        return Err(FreshnessError::CapacityExceeded);
    }
    let mut i: usize = 0;
    while i < n
        invariant
            i <= n,
            slots@ == Seq::new(i as nat, |j: int| None::<T>),
        decreases n - i,
    {
        slots.push(None);
        i = i + 1;
        proof {
            assert(slots@ =~= Seq::new(i as nat, |j: int| None::<T>));
        }
    }
    Ok(slots)
}

impl View for MockReplayCache {
    type V = CacheView;

    closed spec fn view(&self) -> CacheView {
        match self.state {
            State::Available(active) => CacheView::Available(active_view(active)),
            State::Lost => CacheView::Lost,
        }
    }
}

/// A run as it starts: no time observed and every slot empty.
pub open spec fn fresh_run(limits: MockReplayLimits) -> CacheView {
    CacheView::Available(
        ActiveView {
            floor: None,
            records: Seq::new(
                limits.policy().spec_max_outstanding_total() as nat,
                |i: int| None::<RecordView>,
            ),
            events: Seq::new(limits.event_bound() as nat, |i: int| None::<EventView>),
        },
    )
}

impl MockReplayCache {
    #[verifier::type_invariant]
    spec fn well_formed(self) -> bool {
        match self.state {
            State::Available(active) => fits(self.limits, active_view(active)) && within_quotas(
                self.limits,
                active_view(active),
            ),
            State::Lost => true,
        }
    }

    /// The limits the run was started with.
    pub closed spec fn limits(&self) -> MockReplayLimits {
        self.limits
    }

    /// Starts an independent volatile experiment, never a recovery
    /// operation. A slot budget that does not fit the address space is
    /// refused with `CapacityExceeded`, as is a reservation the allocator
    /// does not grant; a started run has no time floor and all its slots
    /// empty.
    pub fn new_research_run(limits: MockReplayLimits) -> (r: Result<MockReplayCache, FreshnessError>)
        ensures
            !budget_fits(
                limits.policy().spec_max_outstanding_total(),
                limits.event_bound(),
            ) ==> r == Err::<MockReplayCache, FreshnessError>(FreshnessError::CapacityExceeded),
            match r {
                Ok(cache) => cache.limits() == limits && cache@ == fresh_run(limits) && kept_within(
                    limits,
                    cache@,
                ),
                Err(e) => e == FreshnessError::CapacityExceeded,
            },
    {
        let records_bound = limits.freshness().max_outstanding_total();
        let events_bound = limits.max_retained_issuances();
        checked_budget(records_bound, events_bound)?;
        let records = empty_slots::<Record>(records_bound)?;
        let events = empty_slots::<Event>(events_bound)?;
        let active = Active { floor: None, records, events };
        proof {
            assert(active_view(active).records =~= Seq::new(
                records_bound as nat,
                |i: int| None::<RecordView>,
            ));
            assert(active_view(active).events =~= Seq::new(
                events_bound as nat,
                |i: int| None::<EventView>,
            ));
            lemma_fresh_within_quotas(limits, active_view(active));
        }
        Ok(MockReplayCache { limits, state: State::Available(active) })
    }

    /// Reads aggregates without observing time or collecting expired state.
    pub fn stats(&self) -> (r: Result<MockReplayStats, FreshnessError>)
        ensures
            match self@ {
                CacheView::Lost => r == Err::<MockReplayStats, FreshnessError>(
                    FreshnessError::StateUnavailable,
                ),
                CacheView::Available(a) => r matches Ok(stats) && stats.records() == count(
                    a.records,
                    live_record(),
                ) && stats.issuances() == count(a.events, live_event()),
            },
            kept_within(self.limits(), self@),
    {
        proof {
            use_type_invariant(self);
        }
        match &self.state {
            State::Available(active) => Ok(
                MockReplayStats {
                    retained_records: count_records(&active.records, &RecordQuery::Live),
                    retained_issuances: count_events(&active.events, &EventQuery::Live),
                },
            ),
            State::Lost => Err(FreshnessError::StateUnavailable),
        }
    }

    /// The run's time floor, once time has been observed.
    pub fn time_floor(&self) -> (r: Result<Option<UnixTime>, FreshnessError>)
        ensures
            match self@ {
                CacheView::Lost => r == Err::<Option<UnixTime>, FreshnessError>(
                    FreshnessError::StateUnavailable,
                ),
                CacheView::Available(a) => r matches Ok(floor) && match floor {
                    Some(t) => a.floor == Some(t.seconds),
                    None => a.floor is None,
                },
            },
    {
        match &self.state {
            State::Available(active) => Ok(active.floor),
            State::Lost => Err(FreshnessError::StateUnavailable),
        }
    }

    /// Drops the run's state permanently; every later operation answers
    /// `StateUnavailable`, and repeated loss is harmless.
    pub fn simulate_state_loss(&mut self) -> (r: Result<(), FreshnessError>)
        ensures
            r is Ok,
            final(self)@ == CacheView::Lost,
            final(self).limits() == old(self).limits(),
            kept_within(old(self).limits(), old(self)@),
    {
        proof {
            use_type_invariant(&*self);
        }
        self.state = State::Lost;
        Ok(())
    }

    /// Observes modeled time without expiry collection.
    pub fn observe_time(&mut self, now: UnixTime) -> (r: Result<(), FreshnessError>)
        ensures
            final(self).limits() == old(self).limits(),
            (final(self)@, r) == on_run(
                old(self)@,
                |a: ActiveView| observe_step(a, now.seconds),
            ),
            kept_within(old(self).limits(), old(self)@),
            kept_within(final(self).limits(), final(self)@),
    {
        proof {
            use_type_invariant(&*self);
        }
        let mut state = State::Lost;
        std::mem::swap(&mut self.state, &mut state);
        let r = match state {
            State::Lost => Err(FreshnessError::StateUnavailable),
            State::Available(mut active) => {
                let ghost a0 = active_view(active);
                let r = advance(&mut active, now);
                proof {
                    lemma_quotas_kept(self.limits, a0, now.seconds, arbitrary());
                }
                self.state = State::Available(active);
                r
            },
        };
        proof {
            use_type_invariant(&*self);
        }
        r
    }

    /// Observes time, then collects expired slots and returns the number of
    /// removed registrations.
    pub fn purge_expired(&mut self, now: UnixTime) -> (r: Result<usize, FreshnessError>)
        ensures
            final(self).limits() == old(self).limits(),
            (final(self)@, r) == on_run(
                old(self)@,
                |a: ActiveView| purge_step(old(self).limits(), a, now.seconds),
            ),
            kept_within(old(self).limits(), old(self)@),
            kept_within(final(self).limits(), final(self)@),
    {
        proof {
            use_type_invariant(&*self);
        }
        let mut state = State::Lost;
        std::mem::swap(&mut self.state, &mut state);
        let r = match state {
            State::Lost => Err(FreshnessError::StateUnavailable),
            State::Available(mut active) => {
                let ghost a0 = active_view(active);
                proof {
                    lemma_quotas_kept(self.limits, a0, now.seconds, arbitrary());
                }
                match advance(&mut active, now) {
                    Err(error) => {
                        self.state = State::Available(active);
                        Err(error)
                    },
                    Ok(()) => {
                        let ghost b = active_view(active);
                        assert(forall|i: int|
                            0 <= i < b.events.len() && #[trigger] b.events[i] is Some
                                ==> b.events[i]->0.observed_at <= b.floor->0) by {
                            assert(forall|i: int|
                                0 <= i < a0.events.len() && #[trigger] a0.events[i] is Some
                                    ==> a0.floor is Some && a0.events[i]->0.observed_at
                                    <= a0.floor->0);
                        }
                        match collect(
                            &mut active,
                            self.limits.freshness().issuance_rate_window_seconds(),
                        ) {
                            Ok(removed) => {
                                self.state = State::Available(active);
                                Ok(removed)
                            },
                            Err(error) => {
                                self.state = State::Lost;
                                Err(error)
                            },
                        }
                    },
                }
            },
        };
        proof {
            use_type_invariant(&*self);
        }
        r
    }

    /// Registers one exact input and issuance event under the fixed policy.
    pub fn register(&mut self, now: UnixTime, registration: &ReplayRegistration) -> (r: Result<
        (),
        FreshnessError,
    >)
        ensures
            final(self).limits() == old(self).limits(),
            (final(self)@, r) == on_run(
                old(self)@,
                |a: ActiveView| register_step(old(self).limits(), a, now.seconds, registration@),
            ),
            kept_within(old(self).limits(), old(self)@),
            kept_within(final(self).limits(), final(self)@),
    {
        proof {
            use_type_invariant(&*self);
        }
        let mut state = State::Lost;
        std::mem::swap(&mut self.state, &mut state);
        let r = match state {
            State::Lost => Err(FreshnessError::StateUnavailable),
            State::Available(mut active) => {
                let ghost a0 = active_view(active);
                proof {
                    lemma_quotas_kept(self.limits, a0, now.seconds, registration@);
                }
                let mut lost = false;
                let r = register_active(&mut active, &self.limits, now, registration, &mut lost);
                if lost {
                    self.state = State::Lost;
                } else {
                    self.state = State::Available(active);
                }
                r
            },
        };
        proof {
            use_type_invariant(&*self);
        }
        r
    }

    /// Irreversibly consumes an exact registration, returning only a mock
    /// result; no expiry cleanup or verifier-capability construction occurs.
    pub fn claim(&mut self, now: UnixTime, registration: &ReplayRegistration) -> (r: Result<
        (),
        FreshnessError,
    >)
        ensures
            final(self).limits() == old(self).limits(),
            (final(self)@, r) == on_run(
                old(self)@,
                |a: ActiveView| claim_step(a, now.seconds, registration@),
            ),
            kept_within(old(self).limits(), old(self)@),
            kept_within(final(self).limits(), final(self)@),
    {
        proof {
            use_type_invariant(&*self);
        }
        let mut state = State::Lost;
        std::mem::swap(&mut self.state, &mut state);
        let r = match state {
            State::Lost => Err(FreshnessError::StateUnavailable),
            State::Available(mut active) => {
                let ghost a0 = active_view(active);
                proof {
                    lemma_quotas_kept(self.limits, a0, now.seconds, registration@);
                }
                let r = claim_active(&mut active, now, registration);
                proof {
                    let a1 = active_view(active);
                    assert(forall|i: int|
                        0 <= i < a0.events.len() && #[trigger] a0.events[i] is Some ==> a0.floor
                            is Some && a0.events[i]->0.observed_at <= a0.floor->0);
                    assert(a1.events == a0.events);
                }
                self.state = State::Available(active);
                r
            },
        };
        proof {
            use_type_invariant(&*self);
        }
        r
    }

    /// The limits the run was started with; they never change.
    pub fn run_limits(&self) -> (r: MockReplayLimits)
        ensures
            r == self.limits(),
    {
        self.limits
    }

    /// The redacted diagnostic text.
    pub fn diagnostic(&self) -> (r: &'static str)
        ensures
            r@ == "MockReplayCache([REDACTED])"@,
    {
        "MockReplayCache([REDACTED])"
    }
}

proof fn lemma_first_where_update<T>(s: Seq<T>, p: spec_fn(T) -> bool, k: int, v: T)
    requires
        0 <= k < s.len(),
        k == first_where(s, p),
        p(v),
    ensures
        first_where(s.update(k, v), p) == k,
{
    lemma_first_where(s, p);
    let t = s.update(k, v);
    assert forall|j: int| 0 <= j < k implies !#[trigger] p(t[j]) by {
        assert(t[j] == s[j]);
    }
    lemma_first_where_is(t, p, k);
}

proof fn lemma_count_swept<T>(s: Seq<Option<T>>, p: spec_fn(Option<T>) -> bool)
    ensures
        count(swept(s, p), taken_slot::<T>()) <= count(s, taken_slot::<T>()),
    decreases s.len(),
{
    if s.len() > 0 {
        assert(swept(s, p).drop_last() =~= swept(s.drop_last(), p));
        lemma_count_swept(s.drop_last(), p);
    }
}

proof fn lemma_positive_count<T>(s: Seq<T>, p: spec_fn(T) -> bool, k: int)
    requires
        0 <= k < s.len(),
        p(s[k]),
    ensures
        count(s, p) > 0,
{
    if count(s, p) == 0 {
        lemma_zero_count(s, p);
    }
}

/// A run that fits its limits never retains more registrations than the
/// outstanding bound, nor more issuance events than the retained-event bound.
pub proof fn lemma_retention_within_limits(limits: MockReplayLimits, a: ActiveView)
    requires
        fits(limits, a),
    ensures
        count(a.records, live_record()) <= limits.policy().spec_max_outstanding_total(),
        count(a.events, live_event()) <= limits.event_bound(),
{
    lemma_count_bound(a.records, live_record());
    lemma_count_bound(a.events, live_event());
}

/// A lost run stays lost: every operation on it answers `StateUnavailable`
/// and leaves it lost.
pub proof fn lemma_loss_is_terminal<R>(step: spec_fn(ActiveView) -> (ActiveView, Result<R, FreshnessError>))
    ensures
        on_run(CacheView::Lost, step) == (CacheView::Lost, Err::<R, FreshnessError>(
            FreshnessError::StateUnavailable,
        )),
{
}

/// A claim is single-use: once a registration has been claimed, claiming it
/// again at the same or a later time, while its window is still open, is a
/// replay and changes nothing but the time floor.
pub proof fn lemma_claim_is_single_use(
    a: ActiveView,
    now: u64,
    later: u64,
    reg: RegistrationView,
)
    requires
        claim_step(a, now, reg).1 is Ok,
        now <= later,
        spec_evaluate(reg.window, later) is Ok,
    ensures
        claim_step(claim_step(a, now, reg).0, later, reg).1 == Err::<(), FreshnessError>(
            FreshnessError::ReplayDetected,
        ),
        claim_step(claim_step(a, now, reg).0, later, reg).0 == at_floor(
            claim_step(a, now, reg).0,
            later,
        ),
{
    let b = at_floor(a, now);
    let p = key_record(reg.key);
    let k = first_where(b.records, p);
    lemma_first_where(b.records, p);
    if k == b.records.len() {
        lemma_none_count(b.records, p);
    }
    let held = b.records[k]->0;
    let v = Some(RecordView { registration: held.registration, consumed: true });
    lemma_first_where_update(b.records, p, k, v);
    let c = claim_step(a, now, reg).0;
    assert(c.records == b.records.update(k, v));
    let d = at_floor(c, later);
    assert(d.records == c.records);
    lemma_positive_count(d.records, p, k);
}

/// A registration cannot be counted twice: right after it succeeds, the same
/// registration at the same time is refused as a replay, and the retained
/// registrations and issuance events do not grow.
pub proof fn lemma_duplicate_registration_refused(
    limits: MockReplayLimits,
    a: ActiveView,
    now: u64,
    reg: RegistrationView,
)
    requires
        fits(limits, a),
        register_step(limits, a, now, reg).1 is Ok,
    ensures
        register_step(limits, register_step(limits, a, now, reg).0, now, reg).1 == Err::<
            (),
            FreshnessError,
        >(FreshnessError::ReplayDetected),
        count(register_step(limits, register_step(limits, a, now, reg).0, now, reg).0.records, live_record())
            <= count(register_step(limits, a, now, reg).0.records, live_record()),
        count(register_step(limits, register_step(limits, a, now, reg).0, now, reg).0.events, live_event())
            <= count(register_step(limits, a, now, reg).0.events, live_event()),
{
    let rate = limits.policy().spec_issuance_rate_window_seconds();
    let c = collected(at_floor(a, now), rate);
    let i = first_where(c.records, free_slot());
    lemma_first_where(c.records, free_slot());
    if i == c.records.len() {
        assert forall|j: int| 0 <= j < c.records.len() implies #[trigger] taken_slot::<RecordView>()(
            c.records[j],
        ) by {
            assert(!free_slot::<RecordView>()(c.records[j]));
        }
        lemma_full_count(c.records, taken_slot::<RecordView>());
    }
    let first = register_step(limits, a, now, reg).0;
    assert(first.records[i] == Some(RecordView { registration: reg, consumed: false }));
    let again = collected(at_floor(first, now), rate);
    assert(again.records[i] == first.records[i]);
    lemma_positive_count(again.records, key_record(reg.key), i);
    assert(at_floor(first, now) == first);
    lemma_count_swept(first.records, expired_record(now));
    lemma_count_swept(first.events, stale_event(now, rate));
}

/// The time floor of `b` is no earlier than that of `a`.
pub open spec fn floor_kept(a: ActiveView, b: ActiveView) -> bool {
    a.floor is Some ==> b.floor is Some && a.floor->0 <= b.floor->0
}

/// Modeled time never runs backward: after observing, purging, registering
/// or claiming, the time floor is no earlier than before, and at a time
/// behind the floor each of them is refused as a rollback and changes
/// nothing.
pub proof fn lemma_floor_never_decreases(
    limits: MockReplayLimits,
    a: ActiveView,
    now: u64,
    reg: RegistrationView,
)
    ensures
        floor_kept(a, observe_step(a, now).0),
        floor_kept(a, purge_step(limits, a, now).0),
        floor_kept(a, register_step(limits, a, now, reg).0),
        floor_kept(a, claim_step(a, now, reg).0),
        rolled_back(a, now) ==> observe_step(a, now) == (a, Err::<(), FreshnessError>(
            FreshnessError::ClockRollback,
        )) && purge_step(limits, a, now) == (a, Err::<usize, FreshnessError>(
            FreshnessError::ClockRollback,
        )) && register_step(limits, a, now, reg) == (a, Err::<(), FreshnessError>(
            FreshnessError::ClockRollback,
        )) && claim_step(a, now, reg) == (a, Err::<(), FreshnessError>(
            FreshnessError::ClockRollback,
        )),
{
}

proof fn lemma_count_swept_within<T>(
    s: Seq<Option<T>>,
    q: spec_fn(Option<T>) -> bool,
    p: spec_fn(Option<T>) -> bool,
)
    requires
        !p(None),
    ensures
        count(swept(s, q), p) <= count(s, p),
    decreases s.len(),
{
    if s.len() > 0 {
        assert(swept(s, q).drop_last() =~= swept(s.drop_last(), q));
        lemma_count_swept_within(s.drop_last(), q, p);
    }
}

/// Whether no publisher holds more outstanding registrations or retained
/// issuances, and no account more outstanding registrations, than the run's
/// limits allow.
pub open spec fn within_quotas(limits: MockReplayLimits, a: ActiveView) -> bool {
    let policy = limits.policy();
    &&& forall|publisher: Seq<char>|
        #[trigger] count(a.records, publisher_record(publisher))
            <= policy.spec_max_outstanding_per_publisher()
    &&& forall|publisher: Seq<char>, account: Seq<char>|
        #[trigger] count(a.records, account_record(publisher, account))
            <= policy.spec_max_outstanding_per_account()
    &&& forall|publisher: Seq<char>|
        #[trigger] count(a.events, publisher_event(publisher))
            <= policy.spec_max_issuances_per_publisher()
}

proof fn lemma_collected_within_quotas(limits: MockReplayLimits, b: ActiveView, rate: u64)
    requires
        within_quotas(limits, b),
    ensures
        within_quotas(limits, collected(b, rate)),
{
    let c = collected(b, rate);
    let floor = b.floor->0;
    assert forall|publisher: Seq<char>| #[trigger]
        count(c.records, publisher_record(publisher)) <= count(
            b.records,
            publisher_record(publisher),
        ) by {
        lemma_count_swept_within(b.records, expired_record(floor), publisher_record(publisher));
    }
    assert forall|publisher: Seq<char>, account: Seq<char>| #[trigger]
        count(c.records, account_record(publisher, account)) <= count(
            b.records,
            account_record(publisher, account),
        ) by {
        lemma_count_swept_within(
            b.records,
            expired_record(floor),
            account_record(publisher, account),
        );
    }
    assert forall|publisher: Seq<char>| #[trigger]
        count(c.events, publisher_event(publisher)) <= count(
            b.events,
            publisher_event(publisher),
        ) by {
        lemma_count_swept_within(b.events, stale_event(floor, rate), publisher_event(publisher));
    }
}

/// Retention stays within the per-publisher and per-account limits: from a
/// run within them, observing, purging, registering and claiming all leave
/// no publisher with more outstanding registrations or retained issuances,
/// and no account with more outstanding registrations, than the limits
/// allow.
pub proof fn lemma_quotas_kept(
    limits: MockReplayLimits,
    a: ActiveView,
    now: u64,
    reg: RegistrationView,
)
    requires
        fits(limits, a),
        within_quotas(limits, a),
    ensures
        within_quotas(limits, observe_step(a, now).0),
        within_quotas(limits, purge_step(limits, a, now).0),
        within_quotas(limits, register_step(limits, a, now, reg).0),
        within_quotas(limits, claim_step(a, now, reg).0),
{
    let policy = limits.policy();
    let rate = policy.spec_issuance_rate_window_seconds();
    let b = at_floor(a, now);
    assert(within_quotas(limits, b));
    if !rolled_back(a, now) {
        lemma_collected_within_quotas(limits, b, rate);
    }
    // Registering: a new record and event fill free slots, and each count
    // that grows was below its limit before.
    let r = register_step(limits, a, now, reg);
    if !rolled_back(a, now) && r.1 is Ok {
        let c = collected(b, rate);
        let publisher = reg.key.publisher;
        let i = first_where(c.records, free_slot());
        let j = first_where(c.events, free_slot());
        lemma_first_where(c.records, free_slot());
        lemma_first_where(c.events, free_slot());
        if i == c.records.len() {
            assert forall|k: int| 0 <= k < c.records.len() implies #[trigger] live_record()(
                c.records[k],
            ) by {
                assert(!free_slot::<RecordView>()(c.records[k]));
            }
            lemma_full_count(c.records, live_record());
        }
        if j == c.events.len() {
            assert forall|k: int| 0 <= k < c.events.len() implies #[trigger] live_event()(
                c.events[k],
            ) by {
                assert(!free_slot::<EventView>()(c.events[k]));
            }
            lemma_full_count(c.events, live_event());
        }
        let nr = Some(RecordView { registration: reg, consumed: false });
        let ne = Some(EventView { publisher, observed_at: now });
        let d = r.0;
        assert(d.records == c.records.update(i, nr));
        assert(d.events == c.events.update(j, ne));
        assert forall|q: Seq<char>| #[trigger]
            count(d.records, publisher_record(q)) <= policy.spec_max_outstanding_per_publisher() by {
            lemma_count_update(c.records, publisher_record(q), i, nr);
        }
        assert forall|q: Seq<char>, acct: Seq<char>| #[trigger]
            count(d.records, account_record(q, acct)) <= policy.spec_max_outstanding_per_account() by {
            lemma_count_update(c.records, account_record(q, acct), i, nr);
        }
        assert forall|q: Seq<char>| #[trigger]
            count(d.events, publisher_event(q)) <= policy.spec_max_issuances_per_publisher() by {
            lemma_count_update(c.events, publisher_event(q), j, ne);
        }
    }
    // Claiming: the claimed record keeps its registration.
    let t = claim_step(a, now, reg);
    if !rolled_back(a, now) && t.1 is Ok {
        let p = key_record(reg.key);
        let k = first_where(b.records, p);
        lemma_first_where(b.records, p);
        if k == b.records.len() {
            lemma_none_count(b.records, p);
        }
        let held = b.records[k]->0;
        let v = Some(RecordView { registration: held.registration, consumed: true });
        assert(t.0.records == b.records.update(k, v));
        assert(t.0.events == b.events);
        assert forall|q: Seq<char>| #[trigger]
            count(t.0.records, publisher_record(q)) <= policy.spec_max_outstanding_per_publisher() by {
            lemma_count_update(b.records, publisher_record(q), k, v);
        }
        assert forall|q: Seq<char>, acct: Seq<char>| #[trigger]
            count(t.0.records, account_record(q, acct)) <= policy.spec_max_outstanding_per_account() by {
            lemma_count_update(b.records, account_record(q, acct), k, v);
        }
    }
}

/// A refused registration adds nothing: the run keeps its slots, every
/// registration and issuance event it still holds was held before, and
/// none of the limits' counts grows.
pub proof fn lemma_refused_registration_adds_nothing(
    limits: MockReplayLimits,
    a: ActiveView,
    now: u64,
    reg: RegistrationView,
)
    requires
        register_step(limits, a, now, reg).1 is Err,
    ensures
        ({
            let b = register_step(limits, a, now, reg).0;
            &&& b.records.len() == a.records.len()
            &&& b.events.len() == a.events.len()
            &&& forall|k: int|
                0 <= k < b.records.len() && #[trigger] b.records[k] is Some ==> b.records[k]
                    == a.records[k]
            &&& forall|k: int|
                0 <= k < b.events.len() && #[trigger] b.events[k] is Some ==> b.events[k]
                    == a.events[k]
            &&& count(b.records, live_record()) <= count(a.records, live_record())
            &&& count(b.events, live_event()) <= count(a.events, live_event())
        }),
{
    let rate = limits.policy().spec_issuance_rate_window_seconds();
    let floor = now;
    lemma_count_swept_within(a.records, expired_record(floor), live_record());
    lemma_count_swept_within(a.events, stale_event(floor, rate), live_event());
}

/// An accepted registration adds exactly one unconsumed record of it and one
/// issuance event of its publisher at `now` to the run as collected at `now`;
/// every other slot is kept.
pub proof fn lemma_accepted_registration_adds_one(
    limits: MockReplayLimits,
    a: ActiveView,
    now: u64,
    reg: RegistrationView,
)
    requires
        fits(limits, a),
        register_step(limits, a, now, reg).1 is Ok,
    ensures
        ({
            let c = collected(at_floor(a, now), limits.policy().spec_issuance_rate_window_seconds());
            let d = register_step(limits, a, now, reg).0;
            &&& count(d.records, live_record()) == count(c.records, live_record()) + 1
            &&& count(d.events, live_event()) == count(c.events, live_event()) + 1
            &&& count(d.records, key_record(reg.key)) == 1
            &&& exists|i: int|
                0 <= i < d.records.len() && d.records[i] == Some(
                    RecordView { registration: reg, consumed: false },
                ) && d.records == c.records.update(i, d.records[i])
            &&& exists|j: int|
                0 <= j < d.events.len() && d.events[j] == Some(
                    EventView { publisher: reg.key.publisher, observed_at: now },
                ) && d.events == c.events.update(j, d.events[j])
        }),
{
    let rate = limits.policy().spec_issuance_rate_window_seconds();
    let c = collected(at_floor(a, now), rate);
    let i = first_where(c.records, free_slot());
    let j = first_where(c.events, free_slot());
    lemma_first_where(c.records, free_slot());
    lemma_first_where(c.events, free_slot());
    if i == c.records.len() {
        assert forall|k: int| 0 <= k < c.records.len() implies #[trigger] live_record()(
            c.records[k],
        ) by {
            assert(!free_slot::<RecordView>()(c.records[k]));
        }
        lemma_full_count(c.records, live_record());
    }
    if j == c.events.len() {
        assert forall|k: int| 0 <= k < c.events.len() implies #[trigger] live_event()(
            c.events[k],
        ) by {
            assert(!free_slot::<EventView>()(c.events[k]));
        }
        lemma_full_count(c.events, live_event());
    }
    let nr = Some(RecordView { registration: reg, consumed: false });
    let ne = Some(EventView { publisher: reg.key.publisher, observed_at: now });
    let d = register_step(limits, a, now, reg).0;
    assert(d.records == c.records.update(i, nr));
    assert(d.events == c.events.update(j, ne));
    lemma_count_update(c.records, live_record(), i, nr);
    lemma_count_update(c.events, live_event(), j, ne);
    lemma_count_update(c.records, key_record(reg.key), i, nr);
    assert(d.records[i] == nr);
    assert(d.events[j] == ne);
}

/// Whether a run, when available, fits its slots and stays within its
/// per-publisher and per-account limits.
pub open spec fn kept_within(limits: MockReplayLimits, v: CacheView) -> bool {
    match v {
        CacheView::Lost => true,
        CacheView::Available(a) => fits(limits, a) && within_quotas(limits, a),
    }
}

proof fn lemma_fresh_within_quotas(limits: MockReplayLimits, a: ActiveView)
    requires
        forall|i: int| 0 <= i < a.records.len() ==> #[trigger] a.records[i] is None,
        forall|i: int| 0 <= i < a.events.len() ==> #[trigger] a.events[i] is None,
    ensures
        within_quotas(limits, a),
{
    assert forall|p: Seq<char>| #[trigger] count(a.records, publisher_record(p)) == 0 by {
        lemma_none_count(a.records, publisher_record(p));
    }
    assert forall|p: Seq<char>, acct: Seq<char>| #[trigger]
        count(a.records, account_record(p, acct)) == 0 by {
        lemma_none_count(a.records, account_record(p, acct));
    }
    assert forall|p: Seq<char>| #[trigger] count(a.events, publisher_event(p)) == 0 by {
        lemma_none_count(a.events, publisher_event(p));
    }
}

/// Every available cache retains within its limits: no more registrations
/// than the outstanding bound, no more issuance events than the retained
/// bound, and for each publisher and each account no more than their own
/// limits. Consumed registrations that have not expired still count.
pub proof fn lemma_cache_within_limits(limits: MockReplayLimits, v: CacheView)
    requires
        kept_within(limits, v),
        v is Available,
    ensures
        count(v->Available_0.records, live_record()) <= limits.policy().spec_max_outstanding_total(),
        count(v->Available_0.events, live_event()) <= limits.event_bound(),
        forall|publisher: Seq<char>|
            #[trigger] count(v->Available_0.records, publisher_record(publisher))
                <= limits.policy().spec_max_outstanding_per_publisher(),
        forall|publisher: Seq<char>, account: Seq<char>|
            #[trigger] count(v->Available_0.records, account_record(publisher, account))
                <= limits.policy().spec_max_outstanding_per_account(),
        forall|publisher: Seq<char>|
            #[trigger] count(v->Available_0.events, publisher_event(publisher))
                <= limits.policy().spec_max_issuances_per_publisher(),
{
    lemma_retention_within_limits(limits, v->Available_0);
}

/// A claim succeeds only on the exact registration: when it succeeds, the
/// run held an unconsumed record of that very registration (same key and
/// window, and the same game, build, account, match, policy and policy
/// version), and the claim marks exactly that record consumed and changes
/// nothing else but the time floor. A claim for another match, account or
/// any other binding field is never accepted on a record of this key.
pub proof fn lemma_claim_needs_exact_registration(
    a: ActiveView,
    now: u64,
    reg: RegistrationView,
)
    requires
        claim_step(a, now, reg).1 is Ok,
    ensures
        exists|k: int|
            0 <= k < a.records.len() && k == first_where(a.records, key_record(reg.key))
                && a.records[k] == Some(RecordView { registration: reg, consumed: false })
                && claim_step(a, now, reg).0.records == a.records.update(
                k,
                Some(RecordView { registration: reg, consumed: true }),
            ),
        claim_step(a, now, reg).0.events == a.events,
        claim_step(a, now, reg).0.floor == Some(now),
{
    let b = at_floor(a, now);
    let p = key_record(reg.key);
    let k = first_where(b.records, p);
    lemma_first_where(b.records, p);
    if k == b.records.len() {
        lemma_none_count(b.records, p);
    }
    let held = b.records[k]->0;
    assert(held.registration.key == reg.key);
    assert(held.registration == reg);
    assert(a.records[k] == Some(RecordView { registration: reg, consumed: false }));
    assert(claim_step(a, now, reg).0.records == a.records.update(
        k,
        Some(RecordView { registration: reg, consumed: true }),
    ));
}

} // verus!
