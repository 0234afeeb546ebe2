//! The resync state machine: connect, bootstrap every source key, subscribe
//! to their change notifications, then refresh keys as they change; any
//! failure waits a fixed delay and starts over.

use vstd::prelude::*;
use crate::cache::{lemma_materialized_sourced, lemma_no_delete, lemma_rows_of_domain, materialized, record_view, sourced_from, CacheStore};
use crate::config::views;
use crate::naming::{channel_key, channel_key_of, keyspace_channel, keyspace_channel_of};

verus! {

/// Seconds waited after a failure before connecting again.
pub const RETRY_AFTER_SECS: u64 = 5;

/// The kind of a message pushed by the server.
#[derive(Clone, Copy, Debug, PartialEq, Eq)]
pub enum PushKind {
    /// The connection was lost.
    Disconnection,
    /// A message on a channel subscribed to by pattern.
    PMessage,
    /// Any other kind.
    Other,
}

/// A message pushed by the server: its kind and its items, each the text of
/// a bulk string or `None` for an item of another shape.
#[derive(Clone, Debug, PartialEq, Eq)]
pub struct PushMessage {
    pub kind: PushKind,
    pub data: Vec<Option<String>>,
}

/// What a pushed message means to the table.
#[derive(Clone, Debug, PartialEq, Eq)]
pub enum Notice {
    /// The hash record of this source key changed.
    KeyChanged(String),
    /// The connection was lost.
    Disconnected,
    /// Nothing for the table.
    Ignored,
}

/// The first key named by a keyspace channel among `data`.
pub open spec fn first_channel_key(db: nat, data: Seq<Option<String>>) -> Option<Seq<char>>
    decreases data.len(),
{
    if data.len() == 0 {
        None
    } else {
        match data[0] {
            Some(s) if channel_key_of(db, s@) is Some => channel_key_of(db, s@),
            _ => first_channel_key(db, data.drop_first()),
        }
    }
}

/// The meaning of a pushed message of kind `kind` with items `data`.
pub open spec fn notice_of(db: nat, kind: PushKind, data: Seq<Option<String>>) -> NoticeView {
    match kind {
        PushKind::Disconnection => NoticeView::Disconnected,
        PushKind::PMessage => match first_channel_key(db, data) {
            Some(k) => NoticeView::KeyChanged(k),
            None => NoticeView::Ignored,
        },
        PushKind::Other => NoticeView::Ignored,
    }
}

/// The mathematical value of a [`Notice`].
pub ghost enum NoticeView {
    KeyChanged(Seq<char>),
    Disconnected,
    Ignored,
}

impl View for Notice {
    type V = NoticeView;

    open spec fn view(&self) -> NoticeView {
        match self {
            Notice::KeyChanged(k) => NoticeView::KeyChanged(k@),
            Notice::Disconnected => NoticeView::Disconnected,
            Notice::Ignored => NoticeView::Ignored,
        }
    }
}

/// Decodes a pushed message of database `db`: a disconnection, a change of
/// the key named by the first keyspace channel among its items, or nothing.
pub fn decode_push(db: u8, msg: &PushMessage) -> (r: Notice)
    ensures
        r@ == notice_of(db as nat, msg.kind, msg.data@),
{
    match msg.kind {
        PushKind::Disconnection => Notice::Disconnected,
        PushKind::Other => Notice::Ignored,
        PushKind::PMessage => {
            let mut i: usize = 0;
            assert(msg.data@.skip(0) =~= msg.data@);
            while i < msg.data.len()
                invariant
                    msg.kind == PushKind::PMessage,
                    i <= msg.data@.len(),
                    first_channel_key(db as nat, msg.data@) == first_channel_key(
                        db as nat,
                        msg.data@.skip(i as int),
                    ),
                decreases msg.data@.len() - i,
            {
                let ghost rest = msg.data@.skip(i as int);
                assert(rest.drop_first() =~= msg.data@.skip(i as int + 1));
                if let Some(s) = &msg.data[i] {
                    if let Some(k) = channel_key(db, s.as_str()) {
                        assert(rest[0] == msg.data@[i as int]);
                        assert(channel_key_of(db as nat, s@) == Some(k@));
                        assert(first_channel_key(db as nat, rest) == Some(k@));
                        return Notice::KeyChanged(k);
                    }
                }
                i = i + 1;
            }
            assert(msg.data@.skip(i as int).len() == 0);
            Notice::Ignored
        },
    }
}

/// What the driver reports back after performing an [`Action`].
pub enum Event {
    /// A connection was obtained.
    Connected,
    /// No connection could be obtained.
    ConnectFailed,
    /// The hash record asked for was fetched; `None` when the key holds none.
    Fetched(Option<Vec<(String, String)>>),
    /// The fetch failed.
    FetchFailed,
    /// The subscription asked for was registered.
    Subscribed,
    /// The subscription failed.
    SubscribeFailed,
    /// The server pushed a message.
    Push(PushMessage),
    /// The stream of pushed messages ended.
    StreamEnded,
    /// The retry delay has passed.
    DelayElapsed,
}

/// What the driver is asked to do next.
#[derive(Clone, Debug, PartialEq, Eq)]
pub enum Action {
    /// Obtain a connection (directly or through the sentinels).
    Connect,
    /// Fetch all fields of the hash record of this source key.
    Fetch(String),
    /// Subscribe to this channel pattern.
    Subscribe(String),
    /// Wait for the next pushed message.
    AwaitPush,
    /// Wait this many seconds, then report `DelayElapsed`.
    Sleep(u64),
}

/// The mathematical value of an [`Action`].
pub ghost enum Command {
    Connect,
    Fetch(Seq<char>),
    Subscribe(Seq<char>),
    AwaitPush,
    Sleep(nat),
}

impl View for Action {
    type V = Command;

    open spec fn view(&self) -> Command {
        match self {
            Action::Connect => Command::Connect,
            Action::Fetch(k) => Command::Fetch(k@),
            Action::Subscribe(c) => Command::Subscribe(c@),
            Action::AwaitPush => Command::AwaitPush,
            Action::Sleep(s) => Command::Sleep(*s as nat),
        }
    }
}

/// Where the supervisor stands.
#[derive(Clone, Debug, PartialEq, Eq)]
pub enum Phase {
    Connecting,
    /// Fetching the record of the source key at this position.
    Bootstrapping(usize),
    /// Subscribing to the channel of the source key at this position.
    Subscribing(usize),
    Streaming,
    /// Fetching the record of a key that a notification named.
    Refreshing(String),
    RetryWait,
}

/// The mathematical value of a [`Phase`].
pub ghost enum Stage {
    Connecting,
    Bootstrapping(nat),
    Subscribing(nat),
    Streaming,
    Refreshing(Seq<char>),
    RetryWait,
}

impl View for Phase {
    type V = Stage;

    open spec fn view(&self) -> Stage {
        match self {
            Phase::Connecting => Stage::Connecting,
            Phase::Bootstrapping(i) => Stage::Bootstrapping(*i as nat),
            Phase::Subscribing(i) => Stage::Subscribing(*i as nat),
            Phase::Streaming => Stage::Streaming,
            Phase::Refreshing(k) => Stage::Refreshing(k@),
            Phase::RetryWait => Stage::RetryWait,
        }
    }
}

/// After any failure: wait the retry delay.
pub open spec fn failed() -> (Stage, Command) {
    (Stage::RetryWait, Command::Sleep(RETRY_AFTER_SECS as nat))
}

/// Subscribing from position `i` on; with no key left, streaming.
pub open spec fn subscribe_from(keys: Seq<Seq<char>>, db: nat, i: nat) -> (Stage, Command) {
    if i < keys.len() {
        (Stage::Subscribing(i), Command::Subscribe(keyspace_channel_of(db, keys[i as int])))
    } else {
        (Stage::Streaming, Command::AwaitPush)
    }
}

/// Bootstrapping from position `i` on; with no key left, subscribing.
pub open spec fn fetch_from(keys: Seq<Seq<char>>, db: nat, i: nat) -> (Stage, Command) {
    if i < keys.len() {
        (Stage::Bootstrapping(i), Command::Fetch(keys[i as int]))
    } else {
        subscribe_from(keys, db, 0)
    }
}

/// The next stage and command after `event` in `stage`, for source keys
/// `keys` in database `db`.
pub open spec fn transition(keys: Seq<Seq<char>>, db: nat, stage: Stage, event: Event) -> (Stage, Command) {
    match stage {
        Stage::Connecting => match event {
            Event::Connected => fetch_from(keys, db, 0),
            _ => failed(),
        },
        Stage::Bootstrapping(i) => match event {
            Event::Fetched(_) => fetch_from(keys, db, i + 1),
            _ => failed(),
        },
        Stage::Subscribing(i) => match event {
            Event::Subscribed => subscribe_from(keys, db, i + 1),
            _ => failed(),
        },
        Stage::Streaming => match event {
            Event::Push(msg) => match notice_of(db, msg.kind, msg.data@) {
                NoticeView::KeyChanged(k) => if keys.contains(k) {
                    (Stage::Refreshing(k), Command::Fetch(k))
                } else {
                    (Stage::Streaming, Command::AwaitPush)
                },
                NoticeView::Disconnected => failed(),
                NoticeView::Ignored => (Stage::Streaming, Command::AwaitPush),
            },
            _ => failed(),
        },
        Stage::Refreshing(_) => match event {
            Event::Fetched(_) => (Stage::Streaming, Command::AwaitPush),
            _ => failed(),
        },
        Stage::RetryWait => match event {
            Event::DelayElapsed => (Stage::Connecting, Command::Connect),
            _ => failed(),
        },
    }
}

/// The record that `event` in `stage` writes into the table, with its source key.
pub open spec fn write_of(keys: Seq<Seq<char>>, stage: Stage, event: Event) -> Option<
    (Seq<char>, Option<Seq<(String, String)>>),
> {
    match event {
        Event::Fetched(record) => match stage {
            Stage::Bootstrapping(i) => Some((keys[i as int], record_view(record))),
            Stage::Refreshing(k) => Some((k, record_view(record))),
            _ => None,
        },
        _ => None,
    }
}

/// The table after the write `w`.
pub open spec fn written(
    table: Map<Seq<char>, (Seq<char>, Seq<char>)>,
    w: Option<(Seq<char>, Option<Seq<(String, String)>>)>,
) -> Map<Seq<char>, (Seq<char>, Seq<char>)> {
    match w {
        Some((source, record)) => materialized(table, source, record),
        None => table,
    }
}

/// Positions held by a stage lie within the key list, and a key being
/// refreshed is one of the keys.
pub open spec fn stage_wf(keys: Seq<Seq<char>>, stage: Stage) -> bool {
    match stage {
        Stage::Bootstrapping(i) => i < keys.len(),
        Stage::Subscribing(i) => i < keys.len(),
        Stage::Refreshing(k) => keys.contains(k),
        _ => true,
    }
}

/// The resync supervisor: the decisions of the background task that keeps
/// the table in step with the store. A driver performs each returned
/// [`Action`] and hands the outcome back as an [`Event`].
pub struct Supervisor {
    keys: Vec<String>,
    db: u8,
    phase: Phase,
}

impl Supervisor {
    /// The source keys tracked.
    pub closed spec fn keys_view(&self) -> Seq<Seq<char>> {
        views(self.keys@)
    }

    /// The database index.
    pub closed spec fn db_view(&self) -> nat {
        self.db as nat
    }

    /// The current stage.
    pub closed spec fn stage(&self) -> Stage {
        self.phase@
    }

    pub closed spec fn wf(&self) -> bool {
        stage_wf(self.keys_view(), self.phase@)
    }

    /// A supervisor for `keys` in database `db`, about to connect; the first
    /// action is to connect.
    pub fn new(keys: Vec<String>, db: u8) -> (r: (Supervisor, Action))
        ensures
            r.0.wf(),
            r.0.keys_view() == views(keys@),
            r.0.db_view() == db as nat,
            r.0.stage() == Stage::Connecting,
            r.1@ == Command::Connect,
    {
        (Supervisor { keys, db, phase: Phase::Connecting }, Action::Connect)
    }

    /// The current phase.
    pub fn phase(&self) -> (r: &Phase)
        ensures
            r@ == self.stage(),
    {
        &self.phase
    }

    /// Whether every source key has been fetched and subscribed to in the
    /// current attempt: the supervisor is streaming or refreshing a key.
    pub fn is_ready(&self) -> (r: bool)
        ensures
            r <==> (self.stage() is Streaming || self.stage() is Refreshing),
    {
        match self.phase {
            Phase::Streaming => true,
            Phase::Refreshing(_) => true,
            _ => false,
        }
    }

    /// Whether `key` is one of the source keys tracked.
    pub fn tracks(&self, key: &String) -> (r: bool)
        ensures
            r == self.keys_view().contains(key@),
    {
        let mut i: usize = 0;
        while i < self.keys.len()
            invariant
                i <= self.keys@.len(),
                forall|j: int| 0 <= j < i ==> #[trigger] self.keys@[j]@ != key@,
            decreases self.keys@.len() - i,
        {
            if self.keys[i] == *key {
                assert(self.keys_view()[i as int] == key@);
                return true;
            }
            i = i + 1;
        }
        assert forall|j: int| 0 <= j < self.keys_view().len() implies self.keys_view()[j] != key@ by {
            assert(self.keys_view()[j] == self.keys@[j]@);
        }
        false
    }

    fn fail(&mut self) -> (a: Action)
        ensures
            final(self).keys == old(self).keys,
            final(self).db == old(self).db,
            (final(self).phase@, a@) == failed(),
    {
        self.phase = Phase::RetryWait;
        Action::Sleep(RETRY_AFTER_SECS)
    }

    fn subscribe_from(&mut self, i: usize) -> (a: Action)
        requires
            i <= old(self).keys@.len(),
        ensures
            final(self).keys == old(self).keys,
            final(self).db == old(self).db,
            final(self).wf(),
            (final(self).phase@, a@) == subscribe_from(old(self).keys_view(), old(self).db as nat, i as nat),
    {
        if i < self.keys.len() {
            self.phase = Phase::Subscribing(i);
            Action::Subscribe(keyspace_channel(self.db, self.keys[i].as_str()))
        } else {
            self.phase = Phase::Streaming;
            Action::AwaitPush
        }
    }

    fn fetch_from(&mut self, i: usize) -> (a: Action)
        requires
            i <= old(self).keys@.len(),
        ensures
            final(self).keys == old(self).keys,
            final(self).db == old(self).db,
            final(self).wf(),
            (final(self).phase@, a@) == fetch_from(old(self).keys_view(), old(self).db as nat, i as nat),
    {
        if i < self.keys.len() {
            self.phase = Phase::Bootstrapping(i);
            Action::Fetch(self.keys[i].clone())
        } else {
            self.subscribe_from(0)
        }
    }

    /// Takes the outcome of the last action: writes a fetched record into
    /// `cache`, moves to the next phase, and returns the next action.
    pub fn step(&mut self, cache: &mut CacheStore, event: Event) -> (a: Action)
        requires
            old(self).wf(),
            old(cache).wf(),
        ensures
            final(self).wf(),
            final(cache).wf(),
            final(self).keys_view() == old(self).keys_view(),
            final(self).db_view() == old(self).db_view(),
            (final(self).stage(), a@) == transition(
                old(self).keys_view(),
                old(self).db_view(),
                old(self).stage(),
                event,
            ),
            final(cache)@ == written(
                old(cache)@,
                write_of(old(self).keys_view(), old(self).stage(), event),
            ),
            sourced_from(old(cache)@, old(self).keys_view()) ==> sourced_from(
                final(cache)@,
                old(self).keys_view(),
            ),
    {
        proof {
            if sourced_from(cache@, self.keys_view()) && write_of(self.keys_view(), self.stage(), event) is Some {
                let (source, record) = write_of(self.keys_view(), self.stage(), event)->Some_0;
                if let Stage::Bootstrapping(i) = self.stage() {
                    assert(self.keys_view()[i as int] == source);
                }
                assert(self.keys_view().contains(source));
                lemma_materialized_sourced(cache@, self.keys_view(), source, record);
            }
        }
        let n: usize = self.keys.len();
        match event {
            Event::Connected => match self.phase {
                Phase::Connecting => self.fetch_from(0),
                _ => self.fail(),
            },
            Event::Fetched(record) => match &self.phase {
                Phase::Bootstrapping(i) => {
                    let i = *i;
                    assert(i < n);
                    cache.materialize(&self.keys[i], record);
                    self.fetch_from(i + 1)
                },
                Phase::Refreshing(k) => {
                    let k = k.clone();
                    cache.materialize(&k, record);
                    self.phase = Phase::Streaming;
                    Action::AwaitPush
                },
                _ => self.fail(),
            },
            Event::Subscribed => match self.phase {
                Phase::Subscribing(i) => {
                    assert(i < n);
                    self.subscribe_from(i + 1)
                },
                _ => self.fail(),
            },
            Event::Push(msg) => match self.phase {
                Phase::Streaming => match decode_push(self.db, &msg) {
                    Notice::KeyChanged(k) => if self.tracks(&k) {
                        let fetch = Action::Fetch(k.clone());
                        self.phase = Phase::Refreshing(k);
                        fetch
                    } else {
                        Action::AwaitPush
                    },
                    Notice::Disconnected => self.fail(),
                    Notice::Ignored => Action::AwaitPush,
                },
                _ => self.fail(),
            },
            Event::DelayElapsed => match self.phase {
                Phase::RetryWait => {
                    self.phase = Phase::Connecting;
                    Action::Connect
                },
                _ => self.fail(),
            },
            _ => self.fail(),
        }
    }
}

/// The stage, table and commands after the driver reports `events` in
/// turn, starting from `stage` and `table`.
pub open spec fn run(
    keys: Seq<Seq<char>>,
    db: nat,
    stage: Stage,
    table: Map<Seq<char>, (Seq<char>, Seq<char>)>,
    events: Seq<Event>,
) -> (Stage, Map<Seq<char>, (Seq<char>, Seq<char>)>, Seq<Command>)
    decreases events.len(),
{
    if events.len() == 0 {
        (stage, table, Seq::empty())
    } else {
        let (next, command) = transition(keys, db, stage, events[0]);
        let rest = run(
            keys,
            db,
            next,
            written(table, write_of(keys, stage, events[0])),
            events.drop_first(),
        );
        (rest.0, rest.1, seq![command] + rest.2)
    }
}

/// The number of retry delays among `commands`.
pub open spec fn sleeps(commands: Seq<Command>) -> nat
    decreases commands.len(),
{
    if commands.len() == 0 {
        0
    } else {
        (if commands[0] is Sleep {
            1nat
        } else {
            0nat
        }) + sleeps(commands.drop_first())
    }
}

/// `n` failed connection attempts, each followed by the end of its delay.
pub open spec fn failed_attempts(n: nat) -> Seq<Event>
    decreases n,
{
    if n == 0 {
        Seq::empty()
    } else {
        seq![Event::ConnectFailed, Event::DelayElapsed] + failed_attempts((n - 1) as nat)
    }
}

/// One fetch result for each record, in order.
pub open spec fn fetched(records: Seq<Option<Vec<(String, String)>>>) -> Seq<Event> {
    records.map_values(|r: Option<Vec<(String, String)>>| Event::Fetched(r))
}

/// `n` successful subscriptions.
pub open spec fn subscribed(n: nat) -> Seq<Event> {
    Seq::new(n, |i: int| Event::Subscribed)
}

/// The table after materializing `records[i..]` for `keys[i..]` in order.
pub open spec fn bootstrapped(
    keys: Seq<Seq<char>>,
    records: Seq<Option<Vec<(String, String)>>>,
    i: nat,
    table: Map<Seq<char>, (Seq<char>, Seq<char>)>,
) -> Map<Seq<char>, (Seq<char>, Seq<char>)>
    decreases records.len() - i,
{
    if i >= records.len() {
        table
    } else {
        bootstrapped(
            keys,
            records,
            i + 1,
            materialized(table, keys[i as int], record_view(records[i as int])),
        )
    }
}

/// Whether a fetched record holds a field named `f`.
pub open spec fn record_has(record: Option<Vec<(String, String)>>, f: Seq<char>) -> bool {
    match record {
        Some(r) => exists|m: int| 0 <= m < r@.len() && #[trigger] r@[m].0@ == f,
        None => false,
    }
}

proof fn lemma_run_concat(
    keys: Seq<Seq<char>>,
    db: nat,
    stage: Stage,
    table: Map<Seq<char>, (Seq<char>, Seq<char>)>,
    a: Seq<Event>,
    b: Seq<Event>,
)
    ensures
        ({
            let first = run(keys, db, stage, table, a);
            let second = run(keys, db, first.0, first.1, b);
            run(keys, db, stage, table, a + b) == (second.0, second.1, first.2 + second.2)
        }),
    decreases a.len(),
{
    if a.len() == 0 {
        assert(a + b =~= b);
        assert(Seq::<Command>::empty() + run(keys, db, stage, table, b).2 =~= run(keys, db, stage, table, b).2);
    } else {
        let (next, command) = transition(keys, db, stage, a[0]);
        let t = written(table, write_of(keys, stage, a[0]));
        assert((a + b)[0] == a[0]);
        assert((a + b).drop_first() =~= a.drop_first() + b);
        lemma_run_concat(keys, db, next, t, a.drop_first(), b);
        let first = run(keys, db, next, t, a.drop_first());
        let second = run(keys, db, first.0, first.1, b);
        assert(seq![command] + (first.2 + second.2) =~= (seq![command] + first.2) + second.2);
    }
}

proof fn lemma_sleeps_concat(a: Seq<Command>, b: Seq<Command>)
    ensures
        sleeps(a + b) == sleeps(a) + sleeps(b),
    decreases a.len(),
{
    if a.len() == 0 {
        assert(a + b =~= b);
    } else {
        assert((a + b)[0] == a[0]);
        assert((a + b).drop_first() =~= a.drop_first() + b);
        lemma_sleeps_concat(a.drop_first(), b);
    }
}

proof fn lemma_failed_attempts(
    keys: Seq<Seq<char>>,
    db: nat,
    table: Map<Seq<char>, (Seq<char>, Seq<char>)>,
    n: nat,
)
    ensures
        run(keys, db, Stage::Connecting, table, failed_attempts(n)).0 == Stage::Connecting,
        run(keys, db, Stage::Connecting, table, failed_attempts(n)).1 == table,
        sleeps(run(keys, db, Stage::Connecting, table, failed_attempts(n)).2) == n,
    decreases n,
{
    if n > 0 {
        reveal_with_fuel(run, 3);
        reveal_with_fuel(sleeps, 3);
        let pair = seq![Event::ConnectFailed, Event::DelayElapsed];
        lemma_failed_attempts(keys, db, table, (n - 1) as nat);
        lemma_run_concat(keys, db, Stage::Connecting, table, pair, failed_attempts((n - 1) as nat));
        assert(pair.drop_first() =~= seq![Event::DelayElapsed]);
        assert(pair.drop_first().drop_first() =~= Seq::<Event>::empty());
        let cmds = run(keys, db, Stage::Connecting, table, pair).2;
        assert(cmds =~= seq![Command::Sleep(RETRY_AFTER_SECS as nat), Command::Connect]);
        assert(cmds.drop_first() =~= seq![Command::Connect]);
        assert(cmds.drop_first().drop_first() =~= Seq::<Command>::empty());
        lemma_sleeps_concat(cmds, run(keys, db, Stage::Connecting, table, failed_attempts((n - 1) as nat)).2);
    }
}

proof fn lemma_bootstrap(
    keys: Seq<Seq<char>>,
    db: nat,
    records: Seq<Option<Vec<(String, String)>>>,
    i: nat,
    table: Map<Seq<char>, (Seq<char>, Seq<char>)>,
)
    requires
        records.len() == keys.len(),
        i < keys.len(),
    ensures
        ({
            let r = run(keys, db, Stage::Bootstrapping(i), table, fetched(records).skip(i as int));
            &&& r.0 == subscribe_from(keys, db, 0).0
            &&& r.1 == bootstrapped(keys, records, i, table)
            &&& sleeps(r.2) == 0
        }),
    decreases keys.len() - i,
{
    reveal_with_fuel(run, 2);
    let events = fetched(records).skip(i as int);
    let t = materialized(table, keys[i as int], record_view(records[i as int]));
    assert(events[0] == Event::Fetched(records[i as int]));
    assert(events.drop_first() =~= fetched(records).skip(i as int + 1));
    if i + 1 < keys.len() {
        lemma_bootstrap(keys, db, records, i + 1, t);
    } else {
        assert(fetched(records).skip(i as int + 1).len() == 0);
        assert(bootstrapped(keys, records, i + 1, t) == t);
        let r = run(keys, db, subscribe_from(keys, db, 0).0, t, fetched(records).skip(i as int + 1));
        assert(r.2 =~= Seq::<Command>::empty());
    }
    let tail = run(keys, db, fetch_from(keys, db, i + 1).0, t, events.drop_first());
    let cmds = seq![fetch_from(keys, db, i + 1).1] + tail.2;
    assert(write_of(keys, Stage::Bootstrapping(i), events[0]) == Some((keys[i as int], record_view(records[i as int]))));
    assert(run(keys, db, Stage::Bootstrapping(i), table, events) == (tail.0, tail.1, cmds));
    assert(cmds.drop_first() =~= tail.2);
    assert(!(cmds[0] is Sleep));
    assert(sleeps(cmds) == sleeps(tail.2));
    assert(bootstrapped(keys, records, i, table) == bootstrapped(keys, records, i + 1, t));
}

proof fn lemma_subscribe(
    keys: Seq<Seq<char>>,
    db: nat,
    i: nat,
    table: Map<Seq<char>, (Seq<char>, Seq<char>)>,
)
    requires
        i < keys.len(),
    ensures
        ({
            let r = run(keys, db, Stage::Subscribing(i), table, subscribed((keys.len() - i) as nat));
            &&& r.0 == Stage::Streaming
            &&& r.1 == table
            &&& sleeps(r.2) == 0
        }),
    decreases keys.len() - i,
{
    reveal_with_fuel(run, 2);
    let events = subscribed((keys.len() - i) as nat);
    assert(events[0] == Event::Subscribed);
    assert(events.drop_first() =~= subscribed((keys.len() - i - 1) as nat));
    if i + 1 < keys.len() {
        lemma_subscribe(keys, db, i + 1, table);
    } else {
        let r = run(keys, db, Stage::Streaming, table, events.drop_first());
        assert(r.2 =~= Seq::<Command>::empty());
    }
    let tail = run(keys, db, subscribe_from(keys, db, i + 1).0, table, events.drop_first());
    let cmds = seq![subscribe_from(keys, db, i + 1).1] + tail.2;
    assert(run(keys, db, Stage::Subscribing(i), table, events) == (tail.0, tail.1, cmds));
    assert(cmds.drop_first() =~= tail.2);
    assert(!(cmds[0] is Sleep));
    assert(sleeps(cmds) == sleeps(tail.2));
}

proof fn lemma_bootstrapped_holds(
    keys: Seq<Seq<char>>,
    records: Seq<Option<Vec<(String, String)>>>,
    i: nat,
    table: Map<Seq<char>, (Seq<char>, Seq<char>)>,
    j: int,
    f: Seq<char>,
)
    requires
        records.len() == keys.len(),
        (i <= j < records.len() && record_has(records[j], f)) || table.contains_key(f),
    ensures
        bootstrapped(keys, records, i, table).contains_key(f),
    decreases records.len() - i,
{
    if i < records.len() {
        let t = materialized(table, keys[i as int], record_view(records[i as int]));
        if table.contains_key(f) {
            lemma_no_delete(table, keys[i as int], record_view(records[i as int]), f);
        } else if j == i {
            let r = records[i as int]->Some_0;
            lemma_rows_of_domain(keys[i as int], r@, f);
        }
        lemma_bootstrapped_holds(keys, records, i + 1, t, j, f);
    }
}

/// Retrying forever: when the first `n` connection attempts fail and the
/// next one succeeds, and then every fetch and subscription succeeds, the
/// supervisor reaches streaming after exactly `n` retry delays, with every
/// field of every fetched record present in the table and every key held
/// before still held.
pub proof fn lemma_retry_until_ready(
    keys: Seq<Seq<char>>,
    db: nat,
    table: Map<Seq<char>, (Seq<char>, Seq<char>)>,
    n: nat,
    records: Seq<Option<Vec<(String, String)>>>,
)
    requires
        keys.len() > 0,
        records.len() == keys.len(),
    ensures
        ({
            let events = failed_attempts(n) + seq![Event::Connected] + fetched(records) + subscribed(
                keys.len(),
            );
            let r = run(keys, db, Stage::Connecting, table, events);
            &&& r.0 == Stage::Streaming
            &&& sleeps(r.2) == n
            &&& forall|j: int, f: Seq<char>|
                0 <= j < records.len() && #[trigger] record_has(records[j], f) ==> r.1.contains_key(f)
            &&& forall|f: Seq<char>| table.contains_key(f) ==> #[trigger] r.1.contains_key(f)
        }),
{
    let a = failed_attempts(n);
    let c = seq![Event::Connected];
    let b = fetched(records);
    let s = subscribed(keys.len());
    lemma_failed_attempts(keys, db, table, n);
    let r1 = run(keys, db, Stage::Connecting, table, a);
    lemma_run_concat(keys, db, Stage::Connecting, table, a, c);
    assert(c.drop_first() =~= Seq::<Event>::empty());
    let r2 = run(keys, db, r1.0, r1.1, c);
    reveal_with_fuel(run, 2);
    assert(r2.0 == Stage::Bootstrapping(0));
    assert(r2.1 == table);
    assert(r2.2 =~= seq![Command::Fetch(keys[0])]);
    assert(r2.2.drop_first() =~= Seq::<Command>::empty());
    reveal_with_fuel(sleeps, 2);
    assert(sleeps(r2.2) == 0);
    lemma_sleeps_concat(r1.2, r2.2);
    lemma_run_concat(keys, db, Stage::Connecting, table, a + c, b);
    assert(b.skip(0) =~= b);
    lemma_bootstrap(keys, db, records, 0, table);
    let r3 = run(keys, db, Stage::Bootstrapping(0), table, b);
    lemma_sleeps_concat(r1.2 + r2.2, r3.2);
    lemma_run_concat(keys, db, Stage::Connecting, table, a + c + b, s);
    lemma_subscribe(keys, db, 0, r3.1);
    let r4 = run(keys, db, Stage::Subscribing(0), r3.1, s);
    lemma_sleeps_concat(r1.2 + r2.2 + r3.2, r4.2);
    assert forall|j: int, f: Seq<char>|
        0 <= j < records.len() && #[trigger] record_has(records[j], f) implies r4.1.contains_key(f) by {
        lemma_bootstrapped_holds(keys, records, 0, table, j, f);
    }
    assert forall|f: Seq<char>| table.contains_key(f) implies #[trigger] r4.1.contains_key(f) by {
        lemma_bootstrapped_holds(keys, records, 0, table, 0, f);
    }
}

} // verus!
