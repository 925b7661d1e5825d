//! The scanner's reaction to each event of the merged event streams.
//!
//! The caller owns the streams and the radio. It hands every event to the
//! [`Scanner`], carries out the actions that come back, in order, and reports
//! the end of a query, and the outcome of a subscription, as one more event.
//! One event is handled at a time.

use crate::address::Address;
use crate::filter::{transport_of, DiscoveryFilter, Transport};
use crate::flags::{octets_of_all, Flags};
use crate::query::Snapshot;
use crate::types::{BLEData, Record};
use vstd::prelude::*;

verus! {

/// How a device is queried.
#[derive(Clone, Copy, Debug, PartialEq, Eq, Structural)]
pub enum QueryMode {
    /// Print the fixed property lines and persist one record.
    Summary,
    /// Print every property and persist nothing.
    FullDump,
}

/// How a query ended.
#[derive(Debug, Clone)]
pub enum QueryResult {
    /// The summary properties were read.
    Summary(Snapshot),
    /// Every property was read and printed.
    Dumped,
    /// A property could not be read; the text says why.
    Failed(String),
}

/// One event of the merged streams.
#[derive(Debug, Clone)]
pub enum Event {
    /// The adapter saw a device appear.
    DeviceAdded(Address),
    /// The adapter saw a device go.
    DeviceRemoved(Address),
    /// Any other adapter event.
    AdapterOther,
    /// A followed device changed one of its properties.
    PropertyChanged(Address),
    /// The query that the last `Query` action asked for has ended.
    QueryFinished(QueryResult),
    /// The change stream that the last `Subscribe` action asked for was
    /// obtained and registered.
    Subscribed,
    /// The change stream that the last `Subscribe` action asked for could not
    /// be obtained; the text says why.
    SubscribeFailed(String),
}

/// What the caller is to do in reaction to an event.
#[derive(Debug, Clone)]
pub enum Action {
    /// Print that the device appeared.
    AnnounceAdded(Address),
    /// Query the device, then report the end of the query.
    Query(Address, QueryMode),
    /// Serialize the record and append it to the log.
    Persist(BLEData),
    /// Print the error of a failed query or subscription.
    Report(String),
    /// Obtain the change stream of the device and register it, then report
    /// how that went.
    Subscribe(Address),
    /// Print that the device went.
    AnnounceRemoved(Address),
    /// Print that the device changed a property.
    AnnounceChanged(Address),
}

/// The mathematical content of an [`Action`].
pub enum Effect {
    AnnounceAdded(Seq<u8>),
    Query(Seq<u8>, QueryMode),
    Persist(Record),
    Report(Seq<char>),
    Subscribe(Seq<u8>),
    AnnounceRemoved(Seq<u8>),
    AnnounceChanged(Seq<u8>),
}

impl View for Action {
    type V = Effect;

    open spec fn view(&self) -> Effect {
        match *self {
            Action::AnnounceAdded(address) => Effect::AnnounceAdded(address@),
            Action::Query(address, mode) => Effect::Query(address@, mode),
            Action::Persist(record) => Effect::Persist(record@),
            Action::Report(message) => Effect::Report(message@),
            Action::Subscribe(address) => Effect::Subscribe(address@),
            Action::AnnounceRemoved(address) => Effect::AnnounceRemoved(address@),
            Action::AnnounceChanged(address) => Effect::AnnounceChanged(address@),
        }
    }
}

/// The effects of a list of actions, in order.
pub open spec fn effects_of(actions: Seq<Action>) -> Seq<Effect> {
    actions.map_values(|action: Action| action@)
}

/// The number of records that a list of effects persists.
pub open spec fn appends(effects: Seq<Effect>) -> nat
    decreases effects.len(),
{
    if effects.len() == 0 {
        0
    } else if effects.last() is Persist {
        appends(effects.drop_last()) + 1
    } else {
        appends(effects.drop_last())
    }
}

/// The mathematical content of a [`Scanner`].
pub struct State {
    /// The addresses on the allow-list; none means that all are reported.
    pub allow_list: Set<Seq<u8>>,
    /// The transport scanned.
    pub transport: Transport,
    /// Whether reported devices are followed.
    pub track_changes: bool,
    /// Whether queries dump every property.
    pub all_properties: bool,
    /// The device whose query is under way.
    pub pending: Option<Seq<u8>>,
    /// The device whose change stream is being obtained.
    pub subscribing: Option<Seq<u8>>,
    /// The devices whose change streams are registered, oldest first. A
    /// device is listed once for each stream obtained.
    pub subscriptions: Seq<Seq<u8>>,
}

impl State {
    /// Whether a device at `address` is reported.
    pub open spec fn admits(self, address: Seq<u8>) -> bool {
        self.allow_list.is_empty() || self.allow_list.contains(address)
    }

    /// The mode of every query.
    pub open spec fn mode(self) -> QueryMode {
        if self.all_properties {
            QueryMode::FullDump
        } else {
            QueryMode::Summary
        }
    }

    /// Only devices that pass the filter are queried or subscribed to.
    pub open spec fn well_formed(self) -> bool {
        &&& self.pending matches Some(address) ==> self.admits(address)
        &&& self.subscribing matches Some(address) ==> self.admits(address)
        &&& forall|i: int|
            0 <= i < self.subscriptions.len() ==> self.admits(#[trigger] self.subscriptions[i])
    }

    /// The state after the query of `address` has ended: no query is under
    /// way, and the change stream of the device is being obtained where
    /// devices are followed.
    pub open spec fn after_query(self, address: Seq<u8>) -> State {
        State {
            pending: None,
            subscribing: if self.track_changes {
                Some(address)
            } else {
                self.subscribing
            },
            ..self
        }
    }

    /// Whether handling `event` stamps a record with the time: the event ends
    /// the query under way with the properties read, and not every property
    /// is dumped.
    pub open spec fn stamps(self, event: Event) -> bool {
        &&& self.pending is Some
        &&& !self.all_properties
        &&& event matches Event::QueryFinished(QueryResult::Summary(_))
    }
}

/// Whether `effects` are what the end `result` of the query of `address`
/// asks for at time `now`: one record for a summary unless every property is
/// dumped, one report for a failure, and nothing else.
pub open spec fn concludes(
    result: QueryResult,
    all_properties: bool,
    address: Seq<u8>,
    now: int,
    effects: Seq<Effect>,
) -> bool {
    match result {
        QueryResult::Summary(snapshot) => if all_properties {
            effects.len() == 0
        } else {
            &&& effects.len() == 1
            &&& effects[0] matches Effect::Persist(record)
            &&& snapshot.derives(address, now, record)
            &&& record.well_formed()
        },
        QueryResult::Dumped => effects.len() == 0,
        QueryResult::Failed(message) => effects == seq![Effect::Report(message@)],
    }
}

/// The effects that follow those of a query's end: the request for the
/// device's change stream, where devices are followed.
pub open spec fn follow_up(track_changes: bool, address: Seq<u8>) -> Seq<Effect> {
    if track_changes {
        seq![Effect::Subscribe(address)]
    } else {
        Seq::empty()
    }
}

/// Whether handling `event` at time `now` in state `pre` may leave state
/// `post` and ask for `effects`. The end of a query asks for what concludes
/// the query and then for the follow-up; without a query under way it is
/// ignored. A change stream obtained is registered; one that could not be
/// obtained is reported and not registered; without a subscription under way
/// both are ignored.
pub open spec fn step_ok(pre: State, event: Event, now: int, post: State, effects: Seq<Effect>) -> bool {
    match event {
        Event::DeviceAdded(address) => if pre.admits(address@) {
            &&& post == State { pending: Some(address@), ..pre }
            &&& effects == seq![Effect::AnnounceAdded(address@), Effect::Query(address@, pre.mode())]
        } else {
            post == pre && effects.len() == 0
        },
        Event::DeviceRemoved(address) => {
            post == pre && effects == seq![Effect::AnnounceRemoved(address@)]
        },
        Event::AdapterOther => post == pre && effects.len() == 0,
        Event::PropertyChanged(address) => {
            post == pre && effects == seq![Effect::AnnounceChanged(address@)]
        },
        Event::QueryFinished(result) => match pre.pending {
            None => post == pre && effects.len() == 0,
            Some(address) => {
                let tail = follow_up(pre.track_changes, address);
                let head = effects.take(effects.len() - tail.len());
                &&& post == pre.after_query(address)
                &&& effects == head + tail
                &&& concludes(result, pre.all_properties, address, now, head)
            },
        },
        Event::Subscribed => match pre.subscribing {
            None => post == pre && effects.len() == 0,
            Some(address) => {
                &&& post == State {
                    subscribing: None,
                    subscriptions: pre.subscriptions.push(address),
                    ..pre
                }
                &&& effects.len() == 0
            },
        },
        Event::SubscribeFailed(message) => match pre.subscribing {
            None => post == pre && effects.len() == 0,
            Some(address) => {
                &&& post == State { subscribing: None, ..pre }
                &&& effects == seq![Effect::Report(message@)]
            },
        },
    }
}

/// Reads the system clock with `std::time::SystemTime::now`, turns it into
/// a `chrono::DateTime<Utc>` through chrono's `From<SystemTime>` and calls
/// `DateTime::timestamp` on it: whole seconds since the epoch, negative where
/// the clock reads a moment before it. Nothing is claimed of the value, which
/// may step back between two calls. The conversion panics only for a moment
/// outside the range of years that chrono represents, about 262 000 before
/// and after year 0.
#[verifier::external_body]
fn epoch_seconds() -> i64 {
    chrono::DateTime::<chrono::Utc>::from(std::time::SystemTime::now()).timestamp()
}

/// The decisions of the event loop, with what they depend on.
pub struct Scanner {
    filter: DiscoveryFilter,
    all_properties: bool,
    pending: Option<Address>,
    subscribing: Option<Address>,
    subscriptions: Vec<Address>,
}

impl View for Scanner {
    type V = State;

    closed spec fn view(&self) -> State {
        State {
            allow_list: self.filter.allow_list(),
            transport: self.filter.selected_transport(),
            track_changes: self.filter.follows_changes(),
            all_properties: self.all_properties,
            pending: match self.pending {
                Some(address) => Some(address@),
                None => None,
            },
            subscribing: match self.subscribing {
                Some(address) => Some(address@),
                None => None,
            },
            subscriptions: octets_of_all(self.subscriptions@),
        }
    }
}

impl Scanner {
    /// A scanner at startup: no query and no subscription is under way, and
    /// no change stream is registered.
    pub fn new(flags: &Flags) -> (r: Scanner)
        ensures
            r@.well_formed(),
            r@.allow_list == octets_of_all(flags.addresses@).to_set(),
            r@.transport == transport_of(flags.le_only, flags.br_edr_only),
            r@.track_changes == flags.with_changes,
            r@.all_properties == flags.all_properties,
            r@.pending is None,
            r@.subscribing is None,
            r@.subscriptions == Seq::<Seq<u8>>::empty(),
    {
        let filter = flags.filter();
        let r = Scanner {
            filter,
            all_properties: flags.all_properties,
            pending: None,
            subscribing: None,
            subscriptions: Vec::new(),
        };
        assert(r@.allow_list =~= octets_of_all(flags.addresses@).to_set());
        assert(r@.subscriptions =~= Seq::<Seq<u8>>::empty());
        r
    }

    /// The discovery filter in force.
    pub fn filter(&self) -> (r: &DiscoveryFilter)
        ensures
            r.allow_list() == self@.allow_list,
            r.selected_transport() == self@.transport,
            r.follows_changes() == self@.track_changes,
    {
        &self.filter
    }

    /// The mode of every query.
    pub fn mode(&self) -> (r: QueryMode)
        ensures
            r == self@.mode(),
    {
        if self.all_properties {
            QueryMode::FullDump
        } else {
            QueryMode::Summary
        }
    }

    /// The device whose query is under way.
    pub fn pending(&self) -> (r: Option<Address>)
        ensures
            r is Some <==> self@.pending is Some,
            r matches Some(address) ==> self@.pending == Some(address@),
    {
        self.pending
    }

    /// The device whose change stream is being obtained.
    pub fn subscribing(&self) -> (r: Option<Address>)
        ensures
            r is Some <==> self@.subscribing is Some,
            r matches Some(address) ==> self@.subscribing == Some(address@),
    {
        self.subscribing
    }

    /// The devices whose change streams are registered, oldest first: one
    /// entry for each `Subscribed` event that answered a `Subscribe` action.
    pub fn subscriptions(&self) -> (r: &Vec<Address>)
        ensures
            octets_of_all(r@) == self@.subscriptions,
    {
        &self.subscriptions
    }

    /// Handles `event` at time `now`: moves to the next state and returns
    /// the actions to carry out, in order.
    pub fn step(&mut self, event: Event, now: i64) -> (actions: Vec<Action>)
        ensures
            step_ok(old(self)@, event, now as int, final(self)@, effects_of(actions@)),
            old(self)@.well_formed() ==> final(self)@.well_formed(),
    {
        let mut actions: Vec<Action> = Vec::new();
        match event {
            Event::DeviceAdded(address) => {
                if self.filter.accepts(&address) {
                    let mode = self.mode();
                    actions.push(Action::AnnounceAdded(address));
                    actions.push(Action::Query(address, mode));
                    self.pending = Some(address);
                    assert(effects_of(actions@) =~= seq![
                        Effect::AnnounceAdded(address@),
                        Effect::Query(address@, old(self)@.mode()),
                    ]);
                }
            },
            Event::DeviceRemoved(address) => {
                actions.push(Action::AnnounceRemoved(address));
                assert(effects_of(actions@) =~= seq![Effect::AnnounceRemoved(address@)]);
            },
            Event::AdapterOther => {},
            Event::PropertyChanged(address) => {
                actions.push(Action::AnnounceChanged(address));
                assert(effects_of(actions@) =~= seq![Effect::AnnounceChanged(address@)]);
            },
            Event::QueryFinished(result) => {
                if let Some(address) = self.pending {
                    match result {
                        QueryResult::Summary(snapshot) => {
                            if !self.all_properties {
                                let record = snapshot.into_record(address, now);
                                actions.push(Action::Persist(record));
                                assert(effects_of(actions@)[0] == Effect::Persist(record@));
                            }
                        },
                        QueryResult::Dumped => {},
                        QueryResult::Failed(message) => {
                            actions.push(Action::Report(message));
                            assert(effects_of(actions@) =~= seq![Effect::Report(message@)]);
                        },
                    }
                    let ghost own = effects_of(actions@);
                    assert(concludes(result, self.all_properties, address@, now as int, own));
                    if self.filter.track_changes() {
                        actions.push(Action::Subscribe(address));
                        self.subscribing = Some(address);
                    }
                    self.pending = None;
                    assert(effects_of(actions@).take(own.len() as int) =~= own);
                    assert(effects_of(actions@) =~= own + follow_up(
                        old(self)@.track_changes,
                        address@,
                    ));
                }
            },
            Event::Subscribed => {
                if let Some(address) = self.subscribing {
                    let ghost before = self.subscriptions@;
                    self.subscriptions.push(address);
                    self.subscribing = None;
                    assert(octets_of_all(self.subscriptions@) =~= octets_of_all(before).push(
                        address@,
                    ));
                }
            },
            Event::SubscribeFailed(message) => {
                if self.subscribing.is_some() {
                    actions.push(Action::Report(message));
                    self.subscribing = None;
                    assert(effects_of(actions@) =~= seq![Effect::Report(message@)]);
                }
            },
        }
        actions
    }

    /// Whether handling `event` stamps a record with the time.
    pub fn stamps(&self, event: &Event) -> (r: bool)
        ensures
            r == self@.stamps(*event),
    {
        match event {
            Event::QueryFinished(QueryResult::Summary(_)) => {
                self.pending.is_some() && !self.all_properties
            },
            _ => false,
        }
    }

    /// Handles `event` as `step` does. The wall clock is read only where the
    /// event stamps a record, and gives the stamp; any other event is handled
    /// the same at every time.
    pub fn handle(&mut self, event: Event) -> (actions: Vec<Action>)
        ensures
            exists|now: i64|
                step_ok(old(self)@, event, now as int, final(self)@, effects_of(actions@)),
            !old(self)@.stamps(event) ==> forall|now: int|
                step_ok(old(self)@, event, now, final(self)@, effects_of(actions@)),
            old(self)@.well_formed() ==> final(self)@.well_formed(),
    {
        if self.stamps(&event) {
            let now = epoch_seconds();
            self.step(event, now)
        } else {
            let actions = self.step(event, 0);
            proof {
                lemma_time_matters_only_for_stamps(
                    old(self)@,
                    event,
                    0,
                    self@,
                    effects_of(actions@),
                );
            }
            actions
        }
    }
}

/// The time bears on an event only where the event stamps a record: any
/// other event is handled the same at every time.
pub proof fn lemma_time_matters_only_for_stamps(
    pre: State,
    event: Event,
    now: int,
    post: State,
    effects: Seq<Effect>,
)
    requires
        !pre.stamps(event),
        step_ok(pre, event, now, post, effects),
    ensures
        forall|other: int| step_ok(pre, event, other, post, effects),
{
}

/// A list of effects persists at most as many records as it has effects, and
/// none if it holds no `Persist`.
pub proof fn lemma_appends_bounds(effects: Seq<Effect>)
    ensures
        appends(effects) <= effects.len(),
        (forall|i: int| 0 <= i < effects.len() ==> !(effects[i] is Persist)) ==> appends(effects)
            == 0,
    decreases effects.len(),
{
    if effects.len() > 0 {
        lemma_appends_bounds(effects.drop_last());
        if forall|i: int| 0 <= i < effects.len() ==> !(effects[i] is Persist) {
            assert forall|i: int| 0 <= i < effects.drop_last().len() implies !(
            effects.drop_last()[i] is Persist) by {
                assert(effects.drop_last()[i] == effects[i]);
            }
        }
    }
}

/// The effects of a query's end, taken apart: those that conclude the query
/// come first, the subscription after them.
proof fn lemma_query_end(
    pre: State,
    result: QueryResult,
    now: int,
    post: State,
    effects: Seq<Effect>,
) -> (own: Seq<Effect>)
    requires
        pre.pending is Some,
        step_ok(pre, Event::QueryFinished(result), now, post, effects),
    ensures
        concludes(result, pre.all_properties, pre.pending->0, now, own),
        effects == own + follow_up(pre.track_changes, pre.pending->0),
        post == pre.after_query(pre.pending->0),
{
    let address = pre.pending->0;
    effects.take(effects.len() - follow_up(pre.track_changes, address).len())
}

/// An add-event for a device that is not on a non-empty allow-list is
/// ignored: the state stays as it is and nothing is asked for, neither a
/// query nor a record.
pub proof fn lemma_rejected_device_is_ignored(
    pre: State,
    address: Address,
    now: int,
    post: State,
    effects: Seq<Effect>,
)
    requires
        !pre.allow_list.is_empty(),
        !pre.allow_list.contains(address@),
        step_ok(pre, Event::DeviceAdded(address), now, post, effects),
    ensures
        post == pre,
        effects.len() == 0,
        appends(effects) == 0,
{
}

/// Whatever the event, every device that is queried, recorded or subscribed
/// to passes the filter, and the state stays well formed.
pub proof fn lemma_only_admitted_devices_are_served(
    pre: State,
    event: Event,
    now: int,
    post: State,
    effects: Seq<Effect>,
)
    requires
        pre.well_formed(),
        step_ok(pre, event, now, post, effects),
    ensures
        post.well_formed(),
        forall|i: int|
            0 <= i < effects.len() ==> match #[trigger] effects[i] {
                Effect::Query(address, _) => pre.admits(address),
                Effect::Persist(record) => pre.admits(record.addr),
                Effect::Subscribe(address) => pre.admits(address),
                _ => true,
            },
{
    match event {
        Event::QueryFinished(result) => {
            if let Some(address) = pre.pending {
                let own = lemma_query_end(pre, result, now, post, effects);
                assert(pre.admits(address));
                assert forall|i: int| 0 <= i < effects.len() implies match #[trigger] effects[i] {
                    Effect::Query(address, _) => pre.admits(address),
                    Effect::Persist(record) => pre.admits(record.addr),
                    Effect::Subscribe(address) => pre.admits(address),
                    _ => true,
                } by {
                    if i < own.len() {
                        assert(effects[i] == own[i]);
                    }
                }
                assert forall|i: int| 0 <= i < post.subscriptions.len() implies post.admits(
                    #[trigger] post.subscriptions[i],
                ) by {
                    if i < pre.subscriptions.len() {
                        assert(post.subscriptions[i] == pre.subscriptions[i]);
                    }
                }
            }
        },
        _ => {},
    }
}

/// While every property is dumped, no event leads to an append.
pub proof fn lemma_full_dump_never_appends(
    pre: State,
    event: Event,
    now: int,
    post: State,
    effects: Seq<Effect>,
)
    requires
        pre.all_properties,
        step_ok(pre, event, now, post, effects),
    ensures
        appends(effects) == 0,
{
    lemma_appends_bounds(effects);
    match event {
        Event::QueryFinished(result) => {
            if let Some(address) = pre.pending {
                let own = lemma_query_end(pre, result, now, post, effects);
                assert forall|i: int| 0 <= i < effects.len() implies !(effects[i] is Persist) by {
                    if i < own.len() {
                        assert(effects[i] == own[i]);
                    }
                }
            }
        },
        _ => {},
    }
}

/// An add-event that passes the filter asks for exactly one query and no
/// append. In summary mode, when that query ends with the properties read,
/// exactly one record is appended: the first effect, a record of that
/// snapshot for the device added.
pub proof fn lemma_accepted_device_is_recorded_once(
    pre: State,
    address: Address,
    snapshot: Snapshot,
    asked_at: int,
    mid: State,
    asked: Seq<Effect>,
    ended_at: int,
    post: State,
    effects: Seq<Effect>,
)
    requires
        pre.admits(address@),
        !pre.all_properties,
        step_ok(pre, Event::DeviceAdded(address), asked_at, mid, asked),
        step_ok(mid, Event::QueryFinished(QueryResult::Summary(snapshot)), ended_at, post, effects),
    ensures
        asked == seq![
            Effect::AnnounceAdded(address@),
            Effect::Query(address@, QueryMode::Summary),
        ],
        appends(asked) == 0,
        appends(effects) == 1,
        effects[0] matches Effect::Persist(record) && snapshot.derives(
            address@,
            ended_at,
            record,
        ) && record.addr == address@ && record.time_stamp == ended_at,
        post.pending is None,
{
    lemma_appends_bounds(asked);
    let own = lemma_query_end(mid, QueryResult::Summary(snapshot), ended_at, post, effects);
    assert(effects[0] == own[0]);
    assert(own.len() == 1 && own.last() is Persist);
    assert(appends(own.drop_last()) == 0);
    assert(appends(own) == 1);
    if mid.track_changes {
        assert(effects.drop_last() =~= own);
    } else {
        assert(effects =~= own);
    }
}

/// A query that ends in failure appends nothing and reports the failure.
pub proof fn lemma_failed_query_appends_nothing(
    pre: State,
    message: String,
    now: int,
    post: State,
    effects: Seq<Effect>,
)
    requires
        pre.pending is Some,
        step_ok(pre, Event::QueryFinished(QueryResult::Failed(message)), now, post, effects),
    ensures
        appends(effects) == 0,
        effects[0] == Effect::Report(message@),
{
    lemma_appends_bounds(effects);
    let own = lemma_query_end(pre, QueryResult::Failed(message), now, post, effects);
    assert(effects[0] == own[0]);
    assert forall|i: int| 0 <= i < effects.len() implies !(effects[i] is Persist) by {
        if i < own.len() {
            assert(effects[i] == own[i]);
        }
    }
}

/// No event removes a subscription: the subscriptions after an event begin
/// with those before it.
pub proof fn lemma_subscriptions_only_grow(
    pre: State,
    event: Event,
    now: int,
    post: State,
    effects: Seq<Effect>,
)
    requires
        step_ok(pre, event, now, post, effects),
    ensures
        pre.subscriptions.is_prefix_of(post.subscriptions),
{
}

/// A removal leaves every subscription in place, those of the device removed
/// too; a change of that device that arrives later is still announced.
pub proof fn lemma_removal_keeps_subscriptions(
    pre: State,
    address: Address,
    removed_at: int,
    mid: State,
    first: Seq<Effect>,
    changed_at: int,
    post: State,
    second: Seq<Effect>,
)
    requires
        step_ok(pre, Event::DeviceRemoved(address), removed_at, mid, first),
        step_ok(mid, Event::PropertyChanged(address), changed_at, post, second),
    ensures
        mid.subscriptions == pre.subscriptions,
        post.subscriptions == pre.subscriptions,
        first == seq![Effect::AnnounceRemoved(address@)],
        second == seq![Effect::AnnounceChanged(address@)],
{
}

/// Where devices are followed, the end of a query asks for the device's
/// change stream. If the stream is obtained, the device joins the
/// subscriptions, once.
pub proof fn lemma_obtained_stream_is_registered(
    pre: State,
    result: QueryResult,
    ended_at: int,
    mid: State,
    asked: Seq<Effect>,
    obtained_at: int,
    post: State,
    effects: Seq<Effect>,
)
    requires
        pre.track_changes,
        pre.pending is Some,
        step_ok(pre, Event::QueryFinished(result), ended_at, mid, asked),
        step_ok(mid, Event::Subscribed, obtained_at, post, effects),
    ensures
        asked.len() > 0 && asked.last() == Effect::Subscribe(pre.pending->0),
        mid.subscriptions == pre.subscriptions,
        post.subscriptions == pre.subscriptions.push(pre.pending->0),
        post.subscribing is None,
        effects.len() == 0,
{
    let own = lemma_query_end(pre, result, ended_at, mid, asked);
}

/// A change stream that could not be obtained is reported and not
/// registered: the subscriptions stay as they were, nothing is appended, and
/// the scanner is ready for the next event.
pub proof fn lemma_failed_subscription_is_reported(
    pre: State,
    message: String,
    now: int,
    post: State,
    effects: Seq<Effect>,
)
    requires
        pre.subscribing is Some,
        step_ok(pre, Event::SubscribeFailed(message), now, post, effects),
    ensures
        effects == seq![Effect::Report(message@)],
        appends(effects) == 0,
        post.subscriptions == pre.subscriptions,
        post.subscribing is None,
        post.pending == pre.pending,
{
    lemma_appends_bounds(effects);
}

} // verus!
