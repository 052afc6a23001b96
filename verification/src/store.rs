//! The model of the backing store: three namespaces behind one connection
//! whose active namespace is part of the observable state, exactly as a
//! namespace-stateful store connection behaves.
use vstd::prelude::*;
use vstd::string::*;
use crate::dec::{spec_dec, spec_parse_u64, parse_u64, u64_to_dec};
use crate::message::{Message, MessageError};
use crate::queue::{ListEntry, StreamState};
use crate::text::str_eq;

verus! {

/// Seconds an idempotency marker lives: two days.
pub const MARKER_TTL_SECS: u64 = 172800;

/// How a store operation can fail.
#[derive(Debug)]
pub enum RedisError {
    RedisError,
    RedisUrlMissing,
    NoSubscribers,
}

impl RedisError {
    /// A short description of the failure.
    pub fn message(&self) -> (r: &'static str)
        ensures
            r@ == match *self {
                RedisError::RedisError => "redis operation failed"@,
                RedisError::RedisUrlMissing => "Redis url not set in ENV"@,
                RedisError::NoSubscribers => "No subscribers found"@,
            },
    {
        match *self {
            RedisError::RedisError => "redis operation failed",
            RedisError::RedisUrlMissing => "Redis url not set in ENV",
            RedisError::NoSubscribers => "No subscribers found",
        }
    }
}

/// The namespaces of the store, one per kind of data.
#[derive(Clone, Copy, PartialEq, Eq, Structural, Debug)]
pub enum Database {
    SUBSCRIBER,
    MESSAGE,
    CONFIG,
}

impl Database {
    pub open spec fn spec_index(&self) -> u8 {
        match *self {
            Database::SUBSCRIBER => 0,
            Database::MESSAGE => 1,
            Database::CONFIG => 2,
        }
    }

    /// The numeric slot the store knows this namespace by.
    pub fn index(&self) -> (r: u8)
        ensures
            r == self.spec_index(),
    {
        match *self {
            Database::SUBSCRIBER => 0,
            Database::MESSAGE => 1,
            Database::CONFIG => 2,
        }
    }
}

/// The keys of the operational configuration area: a kill-switch flag and
/// two delivery counters.
#[derive(Clone, Copy, PartialEq, Eq, Structural, Debug)]
pub enum Config {
    OperationalKey,
    MessagesSentKey,
    DealsSentKey,
}

impl Config {
    pub open spec fn spec_value(&self) -> Seq<char> {
        match *self {
            Config::OperationalKey => "is_operational"@,
            Config::MessagesSentKey => "messages_sent_count"@,
            Config::DealsSentKey => "deals_sent_count"@,
        }
    }

    /// The fixed store key under which this configuration value lives.
    pub fn value(&self) -> (r: &'static str)
        ensures
            r@ == self.spec_value(),
    {
        match *self {
            Config::OperationalKey => "is_operational",
            Config::MessagesSentKey => "messages_sent_count",
            Config::DealsSentKey => "deals_sent_count",
        }
    }
}

/// One registered recipient: the raw stored filter value under its address.
pub struct SubscriberEntry {
    pub chat_id: String,
    pub raw: String,
}

/// One idempotency marker: the event id it suppresses and when it lapses.
pub struct Marker {
    pub key: String,
    pub expires_at: u64,
}

/// The configuration namespace: each value absent until first written.
pub struct ConfigNs {
    pub operational: Option<String>,
    pub messages_sent: Option<String>,
    pub deals_sent: Option<String>,
}

/// The whole store as one connection sees it: the namespaces, the queue
/// lists, the append-only log, the current time, and which namespace the
/// connection has selected.
pub struct Connection {
    pub active: Database,
    pub now: u64,
    pub subscribers: Vec<SubscriberEntry>,
    pub markers: Vec<Marker>,
    pub config: ConfigNs,
    pub deals: Vec<Message>,
    pub messages_list: Vec<ListEntry>,
    pub stream: StreamState,
}

impl Connection {
    /// Subscriber addresses are unique, so one address holds one filter.
    pub open spec fn wf(self) -> bool {
        forall|i: int, j: int|
            0 <= i < j < self.subscribers@.len() ==> self.subscribers@[i].chat_id@
                != self.subscribers@[j].chat_id@
    }
}

/// A fresh connection to an empty store at the given clock reading; the
/// store starts on the subscriber namespace.
pub fn new_connection(now: u64) -> (con: Connection)
    ensures
        con.active == Database::SUBSCRIBER,
        con.now == now,
        con.subscribers@.len() == 0,
        con.markers@.len() == 0,
        con.config.operational is None,
        con.config.messages_sent is None,
        con.config.deals_sent is None,
        con.deals@.len() == 0,
        con.messages_list@.len() == 0,
        con.stream.entries@.len() == 0,
        con.stream.next_id == 0,
        !con.stream.group_ready,
        con.wf(),
{
    Connection {
        active: Database::SUBSCRIBER,
        now,
        subscribers: Vec::new(),
        markers: Vec::new(),
        config: ConfigNs { operational: None, messages_sent: None, deals_sent: None },
        deals: Vec::new(),
        messages_list: Vec::new(),
        stream: StreamState { entries: Vec::new(), next_id: 0, group_ready: false },
    }
}

/// Selects the namespace the connection works on, changing nothing else.
pub fn select(con: &mut Connection, db: Database)
    ensures
        *final(con) == (Connection { active: db, ..*old(con) }),
{
    con.active = db;
}

/// Moves the clock forward, as the world does between operations.
pub fn advance_time(con: &mut Connection, seconds: u64)
    requires
        old(con).now + seconds <= u64::MAX,
    ensures
        *final(con) == (Connection { now: (old(con).now + seconds) as u64, ..*old(con) }),
{
    con.now = con.now + seconds;
}

/// The expiry a marker written at time `now` carries.
pub open spec fn spec_marker_expiry(now: u64) -> u64 {
    if now + MARKER_TTL_SECS <= u64::MAX {
        (now + MARKER_TTL_SECS) as u64
    } else {
        u64::MAX
    }
}

/// The expiry recorded for `id`, reading the most recent write first.
pub open spec fn spec_markers_get(ms: Seq<Marker>, id: Seq<char>) -> Option<u64>
    decreases ms.len(),
{
    if ms.len() == 0 {
        None
    } else if ms[0].key@ == id {
        Some(ms[0].expires_at)
    } else {
        spec_markers_get(ms.skip(1), id)
    }
}

/// Whether an unexpired idempotency marker for `id` is present.
pub open spec fn marker_live(con: Connection, id: Seq<char>) -> bool {
    match spec_markers_get(con.markers@, id) {
        Some(e) => con.now < e,
        None => false,
    }
}

/// Asks the message namespace whether a marker for `id` is present; an
/// expired marker counts as absent, as the store reaps it.
pub fn marker_exists(con: &mut Connection, id: &str) -> (r: bool)
    requires
        old(con).active == Database::MESSAGE,
    ensures
        *final(con) == *old(con),
        r == marker_live(*old(con), id@),
{
    let n = con.markers.len();
    let mut i: usize = 0;
    proof {
        assert(con.markers@.skip(0) =~= con.markers@);
    }
    while i < n
        invariant
            0 <= i <= n,
            n == con.markers@.len(),
            spec_markers_get(con.markers@, id@) == spec_markers_get(
                con.markers@.skip(i as int),
                id@,
            ),
            forall|k: int| 0 <= k < i ==> con.markers@[k].key@ != id@,
        decreases n - i,
    {
        proof {
            let rest = con.markers@.skip(i as int);
            assert(rest[0] == con.markers@[i as int]);
            assert(rest.skip(1) =~= con.markers@.skip(i + 1));
        }
        if str_eq(con.markers[i].key.as_str(), id) {
            return con.now < con.markers[i].expires_at;
        }
        i = i + 1;
    }
    proof {
        assert(con.markers@.skip(n as int) =~= Seq::<Marker>::empty());
    }
    false
}

/// Writes the idempotency marker for `id` with the fixed two-day expiry into
/// the message namespace; a marker already present is renewed.
pub fn marker_set(con: &mut Connection, id: &str)
    requires
        old(con).active == Database::MESSAGE,
    ensures
        final(con).active == old(con).active,
        final(con).now == old(con).now,
        final(con).subscribers == old(con).subscribers,
        final(con).config == old(con).config,
        final(con).deals == old(con).deals,
        final(con).messages_list == old(con).messages_list,
        final(con).stream == old(con).stream,
        forall|x: Seq<char>|
            spec_markers_get(final(con).markers@, x) == if x == id@ {
                Some(spec_marker_expiry(old(con).now))
            } else {
                spec_markers_get(old(con).markers@, x)
            },
        old(con).now < u64::MAX ==> marker_live(*final(con), id@),
        final(con).wf() == old(con).wf(),
{
    let expires_at: u64 = if con.now <= u64::MAX - MARKER_TTL_SECS {
        con.now + MARKER_TTL_SECS
    } else {
        u64::MAX
    };
    let m = Marker { key: id.to_owned(), expires_at };
    let ghost pre = con.markers@;
    con.markers.insert(0, m);
    proof {
        assert(con.markers@.skip(1) =~= pre);
        assert(con.markers@[0].key@ == id@);
        assert(forall|x: Seq<char>|
            spec_markers_get(con.markers@, x) == if x == id@ {
                Some(expires_at)
            } else {
                spec_markers_get(pre, x)
            });
        assert(expires_at > con.now || expires_at == u64::MAX);
    }
}

/// The raw filter value stored under one recipient address.
pub open spec fn spec_subs_get(es: Seq<SubscriberEntry>, id: Seq<char>) -> Option<Seq<char>>
    decreases es.len(),
{
    if es.len() == 0 {
        None
    } else if es[0].chat_id@ == id {
        Some(es[0].raw@)
    } else {
        spec_subs_get(es.skip(1), id)
    }
}

proof fn lemma_subs_get_absent(es: Seq<SubscriberEntry>, x: Seq<char>)
    requires
        forall|k: int| 0 <= k < es.len() ==> es[k].chat_id@ != x,
    ensures
        spec_subs_get(es, x) == None::<Seq<char>>,
    decreases es.len(),
{
    if es.len() > 0 {
        assert(forall|k: int| 0 <= k < es.len() - 1 ==> es.skip(1)[k] == es[k + 1]);
        lemma_subs_get_absent(es.skip(1), x);
    }
}

proof fn lemma_subs_get_update(es: Seq<SubscriberEntry>, j: int, e: SubscriberEntry)
    requires
        0 <= j < es.len(),
        e.chat_id@ == es[j].chat_id@,
        forall|k: int| 0 <= k < j ==> es[k].chat_id@ != es[j].chat_id@,
    ensures
        forall|x: Seq<char>|
            spec_subs_get(es.update(j, e), x) == if x == e.chat_id@ {
                Some(e.raw@)
            } else {
                spec_subs_get(es, x)
            },
    decreases j,
{
    let upd = es.update(j, e);
    if j == 0 {
        assert forall|x: Seq<char>|
            spec_subs_get(upd, x) == (if x == e.chat_id@ {
                Some(e.raw@)
            } else {
                spec_subs_get(es, x)
            }) by {
            assert(upd[0] == e);
            assert(upd.skip(1) =~= es.skip(1));
        }
    } else {
        assert(forall|k: int| 0 <= k < j - 1 ==> es.skip(1)[k] == es[k + 1]);
        assert(es.skip(1)[j - 1] == es[j]);
        lemma_subs_get_update(es.skip(1), j - 1, e);
        assert forall|x: Seq<char>|
            spec_subs_get(upd, x) == (if x == e.chat_id@ {
                Some(e.raw@)
            } else {
                spec_subs_get(es, x)
            }) by {
            assert(upd[0] == es[0]);
            assert(upd.skip(1) =~= es.skip(1).update(j - 1, e));
            assert(spec_subs_get(upd.skip(1), x) == spec_subs_get(es.skip(1).update(j - 1, e), x));
        }
    }
}

proof fn lemma_subs_get_push(es: Seq<SubscriberEntry>, e: SubscriberEntry)
    requires
        forall|k: int| 0 <= k < es.len() ==> es[k].chat_id@ != e.chat_id@,
    ensures
        forall|x: Seq<char>|
            spec_subs_get(es.push(e), x) == if x == e.chat_id@ {
                Some(e.raw@)
            } else {
                spec_subs_get(es, x)
            },
    decreases es.len(),
{
    let p = es.push(e);
    if es.len() == 0 {
        assert forall|x: Seq<char>|
            spec_subs_get(p, x) == (if x == e.chat_id@ {
                Some(e.raw@)
            } else {
                spec_subs_get(es, x)
            }) by {
            assert(p[0] == e);
            assert(p.skip(1) =~= Seq::<SubscriberEntry>::empty());
            assert(spec_subs_get(p.skip(1), x) == None::<Seq<char>>);
            assert(spec_subs_get(es, x) == None::<Seq<char>>);
        }
    } else {
        assert(forall|k: int| 0 <= k < es.len() - 1 ==> es.skip(1)[k] == es[k + 1]);
        lemma_subs_get_push(es.skip(1), e);
        assert forall|x: Seq<char>|
            spec_subs_get(p, x) == (if x == e.chat_id@ {
                Some(e.raw@)
            } else {
                spec_subs_get(es, x)
            }) by {
            assert(p[0] == es[0]);
            assert(p.skip(1) =~= es.skip(1).push(e));
            assert(spec_subs_get(p.skip(1), x) == spec_subs_get(es.skip(1).push(e), x));
        }
    }
}

proof fn lemma_subs_get_remove(es: Seq<SubscriberEntry>, j: int)
    requires
        0 <= j < es.len(),
        forall|k: int| 0 <= k < es.len() && k != j ==> es[k].chat_id@ != es[j].chat_id@,
    ensures
        forall|x: Seq<char>|
            spec_subs_get(es.remove(j), x) == if x == es[j].chat_id@ {
                None
            } else {
                spec_subs_get(es, x)
            },
    decreases j,
{
    let rm = es.remove(j);
    if j == 0 {
        assert(rm =~= es.skip(1));
        assert(forall|k: int| 0 <= k < es.len() - 1 ==> es.skip(1)[k] == es[k + 1]);
        assert forall|x: Seq<char>|
            spec_subs_get(rm, x) == (if x == es[j].chat_id@ {
                None
            } else {
                spec_subs_get(es, x)
            }) by {
            if x == es[j].chat_id@ {
                lemma_subs_get_absent(es.skip(1), x);
                assert(spec_subs_get(rm, x) == spec_subs_get(es.skip(1), x));
            } else {
                assert(spec_subs_get(rm, x) == spec_subs_get(es.skip(1), x));
            }
        }
    } else {
        assert(forall|k: int| 0 <= k < es.len() - 1 ==> es.skip(1)[k] == es[k + 1]);
        assert(es.skip(1)[j - 1] == es[j]);
        lemma_subs_get_remove(es.skip(1), j - 1);
        assert forall|x: Seq<char>|
            spec_subs_get(rm, x) == (if x == es[j].chat_id@ {
                None
            } else {
                spec_subs_get(es, x)
            }) by {
            assert(rm[0] == es[0]);
            assert(rm.skip(1) =~= es.skip(1).remove(j - 1));
            assert(spec_subs_get(rm.skip(1), x) == spec_subs_get(es.skip(1).remove(j - 1), x));
        }
    }
}

/// All fields of the connection but the subscriber namespace and the active
/// namespace are the same.
pub open spec fn same_but_subscribers(pre: Connection, post: Connection) -> bool {
    &&& post.now == pre.now
    &&& post.markers == pre.markers
    &&& post.config == pre.config
    &&& post.deals == pre.deals
    &&& post.messages_list == pre.messages_list
    &&& post.stream == pre.stream
}

/// Registers or updates a recipient: the raw filter value is stored under
/// the address, replacing any earlier value.
pub fn set_subscriber(con: &mut Connection, chat_id: &str, raw: &str)
    requires
        old(con).active == Database::SUBSCRIBER,
        old(con).wf(),
    ensures
        same_but_subscribers(*old(con), *final(con)),
        final(con).active == Database::SUBSCRIBER,
        final(con).wf(),
        forall|x: Seq<char>|
            spec_subs_get(final(con).subscribers@, x) == if x == chat_id@ {
                Some(raw@)
            } else {
                spec_subs_get(old(con).subscribers@, x)
            },
        final(con).subscribers@.len() == if spec_subs_get(old(con).subscribers@, chat_id@)
            is Some {
            old(con).subscribers@.len()
        } else {
            old(con).subscribers@.len() + 1
        },
{
    let ghost pre = con.subscribers@;
    let n = con.subscribers.len();
    let mut i: usize = 0;
    proof {
        assert(pre.skip(0) =~= pre);
    }
    while i < n
        invariant
            0 <= i <= n,
            n == con.subscribers@.len(),
            con.subscribers@ == pre,
            pre == old(con).subscribers@,
            *con == (Connection { subscribers: con.subscribers, ..*old(con) }),
            old(con).active == Database::SUBSCRIBER,
            old(con).wf(),
            spec_subs_get(pre, chat_id@) == spec_subs_get(pre.skip(i as int), chat_id@),
            forall|k: int| 0 <= k < i ==> pre[k].chat_id@ != chat_id@,
        decreases n - i,
    {
        proof {
            let rest = pre.skip(i as int);
            assert(rest[0] == pre[i as int]);
            assert(rest.skip(1) =~= pre.skip(i + 1));
        }
        if str_eq(con.subscribers[i].chat_id.as_str(), chat_id) {
            let e = SubscriberEntry { chat_id: chat_id.to_owned(), raw: raw.to_owned() };
            let _ = con.subscribers.remove(i);
            con.subscribers.insert(i, e);
            proof {
                assert(con.subscribers@ =~= pre.update(i as int, e));
                lemma_subs_get_update(pre, i as int, e);
                assert(forall|a: int, b: int|
                    0 <= a < b < pre.len() ==> pre.update(i as int, e)[a].chat_id@ == if a == i {
                        chat_id@
                    } else {
                        pre[a].chat_id@
                    } && pre.update(i as int, e)[b].chat_id@ == if b == i {
                        chat_id@
                    } else {
                        pre[b].chat_id@
                    });
            }
            return ;
        }
        i = i + 1;
    }
    proof {
        assert(pre.skip(n as int) =~= Seq::<SubscriberEntry>::empty());
    }
    let e = SubscriberEntry { chat_id: chat_id.to_owned(), raw: raw.to_owned() };
    con.subscribers.push(e);
    proof {
        lemma_subs_get_push(pre, e);
        assert(forall|k: int| 0 <= k < pre.len() ==> con.subscribers@[k] == pre[k]);
    }
}

/// Removes a recipient's registration; an unknown address changes nothing.
pub fn delete_subscriber(con: &mut Connection, chat_id: &str)
    requires
        old(con).active == Database::SUBSCRIBER,
        old(con).wf(),
    ensures
        same_but_subscribers(*old(con), *final(con)),
        final(con).active == Database::SUBSCRIBER,
        final(con).wf(),
        forall|x: Seq<char>|
            spec_subs_get(final(con).subscribers@, x) == if x == chat_id@ {
                None
            } else {
                spec_subs_get(old(con).subscribers@, x)
            },
        final(con).subscribers@.len() == if spec_subs_get(old(con).subscribers@, chat_id@)
            is Some {
            old(con).subscribers@.len() - 1
        } else {
            old(con).subscribers@.len() as int
        },
{
    let ghost pre = con.subscribers@;
    let n = con.subscribers.len();
    let mut i: usize = 0;
    proof {
        assert(pre.skip(0) =~= pre);
    }
    while i < n
        invariant
            0 <= i <= n,
            n == con.subscribers@.len(),
            con.subscribers@ == pre,
            pre == old(con).subscribers@,
            *con == (Connection { subscribers: con.subscribers, ..*old(con) }),
            old(con).active == Database::SUBSCRIBER,
            old(con).wf(),
            spec_subs_get(pre, chat_id@) == spec_subs_get(pre.skip(i as int), chat_id@),
            forall|k: int| 0 <= k < i ==> pre[k].chat_id@ != chat_id@,
        decreases n - i,
    {
        proof {
            let rest = pre.skip(i as int);
            assert(rest[0] == pre[i as int]);
            assert(rest.skip(1) =~= pre.skip(i + 1));
        }
        if str_eq(con.subscribers[i].chat_id.as_str(), chat_id) {
            let _ = con.subscribers.remove(i);
            proof {
                assert(forall|k: int|
                    0 <= k < pre.len() && k != i ==> pre[k].chat_id@ != pre[i as int].chat_id@)
                    by {
                    assert(old(con).wf());
                }
                lemma_subs_get_remove(pre, i as int);
                assert(forall|a: int, b: int|
                    0 <= a < b < pre.len() - 1 ==> con.subscribers@[a].chat_id@ == (if a < i {
                        pre[a].chat_id@
                    } else {
                        pre[a + 1].chat_id@
                    }) && con.subscribers@[b].chat_id@ == (if b < i {
                        pre[b].chat_id@
                    } else {
                        pre[b + 1].chat_id@
                    }));
            }
            return ;
        }
        i = i + 1;
    }
    proof {
        assert(pre.skip(n as int) =~= Seq::<SubscriberEntry>::empty());
    }
}

/// Counts the registered recipients.
pub fn get_subscriber_amount(con: &mut Connection) -> (r: usize)
    ensures
        same_but_subscribers(*old(con), *final(con)),
        final(con).subscribers == old(con).subscribers,
        final(con).active == Database::SUBSCRIBER,
        r == old(con).subscribers@.len(),
{
    con.active = Database::SUBSCRIBER;
    con.subscribers.len()
}

/// One recipient as the fanout sees it: the address, and the category filter
/// or none when every category is wanted.
pub struct Subscriber {
    pub chat_id: String,
    pub categories: Option<Vec<String>>,
}

/// The category sets a raw stored value denotes: the sentinel piece `1`
/// anywhere in the comma-separated value means no filter at all.
pub open spec fn spec_parse_filter(raw: Seq<char>) -> Option<Seq<Seq<char>>> {
    if crate::text::spec_split(raw, ',').contains("1"@) {
        None
    } else {
        Some(crate::text::spec_split(raw, ','))
    }
}

pub open spec fn filter_view(o: Option<Vec<String>>) -> Option<Seq<Seq<char>>> {
    match o {
        None => None,
        Some(v) => Some(v@.map_values(|p: String| p@)),
    }
}

/// Splits a raw stored filter value into its category set, or recognises the
/// no-filter sentinel.
pub fn parse_filter(raw: &str) -> (r: Option<Vec<String>>)
    ensures
        filter_view(r) == spec_parse_filter(raw@),
{
    let parts = crate::text::split_on_char(raw, ',');
    let ghost views = parts@.map_values(|p: String| p@);
    let n = parts.len();
    let mut i: usize = 0;
    while i < n
        invariant
            0 <= i <= n,
            n == parts@.len(),
            views == parts@.map_values(|p: String| p@),
            views == crate::text::spec_split(raw@, ','),
            forall|k: int| 0 <= k < i ==> views[k] != "1"@,
        decreases n - i,
    {
        if str_eq(parts[i].as_str(), "1") {
            proof {
                assert(views.contains("1"@)) by {
                    assert(views[i as int] == "1"@);
                }
            }
            return None;
        }
        i = i + 1;
    }
    proof {
        if views.contains("1"@) {
            let k = choose|k: int| 0 <= k < views.len() && views[k] == "1"@;
            assert(false);
        }
    }
    Some(parts)
}

/// Lists every recipient with its parsed filter, in registration order.
pub fn get_subscribers(con: &mut Connection) -> (r: Result<Vec<Subscriber>, RedisError>)
    ensures
        same_but_subscribers(*old(con), *final(con)),
        final(con).subscribers == old(con).subscribers,
        final(con).active == Database::SUBSCRIBER,
        r is Ok,
        match r {
            Ok(subs) => {
                &&& subs@.len() == old(con).subscribers@.len()
                &&& forall|i: int|
                    0 <= i < subs@.len() ==> (#[trigger] subs@[i]).chat_id@ == old(
                        con,
                    ).subscribers@[i].chat_id@ && filter_view(subs@[i].categories)
                        == spec_parse_filter(old(con).subscribers@[i].raw@)
            },
            Err(_) => false,
        },
{
    con.active = Database::SUBSCRIBER;
    let n = con.subscribers.len();
    let mut out: Vec<Subscriber> = Vec::new();
    let mut i: usize = 0;
    while i < n
        invariant
            0 <= i <= n,
            n == con.subscribers@.len(),
            con.subscribers@ == old(con).subscribers@,
            out@.len() == i,
            forall|k: int|
                0 <= k < i ==> (#[trigger] out@[k]).chat_id@ == con.subscribers@[k].chat_id@
                    && filter_view(out@[k].categories) == spec_parse_filter(
                    con.subscribers@[k].raw@,
                ),
        decreases n - i,
    {
        let chat_id = con.subscribers[i].chat_id.clone();
        let categories = parse_filter(con.subscribers[i].raw.as_str());
        out.push(Subscriber { chat_id, categories });
        i = i + 1;
    }
    Ok(out)
}

/// The value stored under one configuration key.
pub open spec fn spec_config_get(ns: ConfigNs, key: Config) -> Option<Seq<char>> {
    let field = match key {
        Config::OperationalKey => ns.operational,
        Config::MessagesSentKey => ns.messages_sent,
        Config::DealsSentKey => ns.deals_sent,
    };
    match field {
        Some(s) => Some(s@),
        None => None,
    }
}

/// All fields of the connection but the configuration namespace and the
/// active namespace are the same.
pub open spec fn same_but_config(pre: Connection, post: Connection) -> bool {
    &&& post.now == pre.now
    &&& post.subscribers == pre.subscribers
    &&& post.markers == pre.markers
    &&& post.deals == pre.deals
    &&& post.messages_list == pre.messages_list
    &&& post.stream == pre.stream
}

/// Reads one configuration value, then returns the connection to the caller's
/// requested namespace, so no caller observes a stale selection.
pub fn get_config(con: &mut Connection, config_key: Config, next_database: Database) -> (r: Option<
    String,
>)
    ensures
        same_but_config(*old(con), *final(con)),
        final(con).config == old(con).config,
        final(con).active == next_database,
        match r {
            Some(s) => spec_config_get(old(con).config, config_key) == Some(s@),
            None => spec_config_get(old(con).config, config_key) is None,
        },
{
    con.active = Database::CONFIG;
    let r = match config_key {
        Config::OperationalKey => match &con.config.operational {
            Some(s) => Some(s.clone()),
            None => None,
        },
        Config::MessagesSentKey => match &con.config.messages_sent {
            Some(s) => Some(s.clone()),
            None => None,
        },
        Config::DealsSentKey => match &con.config.deals_sent {
            Some(s) => Some(s.clone()),
            None => None,
        },
    };
    con.active = next_database;
    r
}

/// Writes one configuration value, restoring the namespace that was active
/// before the call.
pub fn set_config(con: &mut Connection, config_key: Config, value: String) -> (r: Result<
    (),
    RedisError,
>)
    ensures
        r is Ok,
        same_but_config(*old(con), *final(con)),
        final(con).active == old(con).active,
        forall|k: Config|
            spec_config_get(final(con).config, k) == if k == config_key {
                Some(value@)
            } else {
                spec_config_get(old(con).config, k)
            },
{
    let restore = con.active;
    con.active = Database::CONFIG;
    match config_key {
        Config::OperationalKey => {
            con.config.operational = Some(value);
        },
        Config::MessagesSentKey => {
            con.config.messages_sent = Some(value);
        },
        Config::DealsSentKey => {
            con.config.deals_sent = Some(value);
        },
    }
    con.active = restore;
    Ok(())
}

/// What one atomic increment leaves under a counter key: a missing value
/// starts from zero, a value that is no number or would overflow is left as
/// it stands, with the store's complaint swallowed.
pub open spec fn spec_incr(cur: Option<Seq<char>>, amount: nat) -> Option<Seq<char>> {
    match cur {
        None => Some(spec_dec(amount)),
        Some(s) => match spec_parse_u64(s) {
            Some(n) => if n + amount <= u64::MAX {
                Some(spec_dec((n + amount) as nat))
            } else {
                Some(s)
            },
            None => Some(s),
        },
    }
}

/// Increments one counter with the store's atomic increment, then selects
/// `next_database` for the caller.
pub fn increase_config_value(
    con: &mut Connection,
    config_key: Config,
    next_database: Database,
    amount: u8,
) -> (r: Result<(), RedisError>)
    ensures
        r is Ok,
        same_but_config(*old(con), *final(con)),
        final(con).active == next_database,
        forall|k: Config|
            spec_config_get(final(con).config, k) == if k == config_key {
                spec_incr(spec_config_get(old(con).config, k), amount as nat)
            } else {
                spec_config_get(old(con).config, k)
            },
{
    con.active = Database::CONFIG;
    let cur: Option<String> = match config_key {
        Config::OperationalKey => match &con.config.operational {
            Some(s) => Some(s.clone()),
            None => None,
        },
        Config::MessagesSentKey => match &con.config.messages_sent {
            Some(s) => Some(s.clone()),
            None => None,
        },
        Config::DealsSentKey => match &con.config.deals_sent {
            Some(s) => Some(s.clone()),
            None => None,
        },
    };
    let newval: Option<String> = match &cur {
        None => Some(u64_to_dec(amount as u64)),
        Some(s) => match parse_u64(s.as_str()) {
            Some(n) => if amount as u64 <= u64::MAX - n {
                Some(u64_to_dec(n + amount as u64))
            } else {
                None
            },
            None => None,
        },
    };
    match newval {
        Some(v) => {
            match config_key {
                Config::OperationalKey => {
                    con.config.operational = Some(v);
                },
                Config::MessagesSentKey => {
                    con.config.messages_sent = Some(v);
                },
                Config::DealsSentKey => {
                    con.config.deals_sent = Some(v);
                },
            }
        },
        None => {},
    }
    con.active = next_database;
    Ok(())
}

/// Provisions the configuration defaults without disturbing values already
/// present: the flag starts enabled, the counters at zero. The connection is
/// left on the configuration namespace, as the store client leaves it.
pub fn create_generic_config(con: &mut Connection) -> (r: Result<(), RedisError>)
    ensures
        r is Ok,
        same_but_config(*old(con), *final(con)),
        final(con).active == Database::CONFIG,
        spec_config_get(final(con).config, Config::OperationalKey) == match spec_config_get(
            old(con).config,
            Config::OperationalKey,
        ) {
            None => Some("1"@),
            Some(s) => Some(s),
        },
        spec_config_get(final(con).config, Config::MessagesSentKey) == match spec_config_get(
            old(con).config,
            Config::MessagesSentKey,
        ) {
            None => Some("0"@),
            Some(s) => Some(s),
        },
        spec_config_get(final(con).config, Config::DealsSentKey) == match spec_config_get(
            old(con).config,
            Config::DealsSentKey,
        ) {
            None => Some("0"@),
            Some(s) => Some(s),
        },
{
    con.active = Database::CONFIG;
    if con.config.operational.is_none() {
        con.config.operational = Some("1".to_owned());
    }
    if con.config.messages_sent.is_none() {
        con.config.messages_sent = Some("0".to_owned());
    }
    if con.config.deals_sent.is_none() {
        con.config.deals_sent = Some("0".to_owned());
    }
    Ok(())
}

/// One recipient as contracts see it.
pub ghost struct SubscriberView {
    pub chat_id: Seq<char>,
    pub categories: Option<Seq<Seq<char>>>,
}

impl View for Subscriber {
    type V = SubscriberView;

    open spec fn view(&self) -> SubscriberView {
        SubscriberView { chat_id: self.chat_id@, categories: filter_view(self.categories) }
    }
}

/// The subscriber namespace as the fanout sees it: each entry with its
/// parsed filter, in registration order.
pub open spec fn spec_directory(es: Seq<SubscriberEntry>) -> Seq<SubscriberView> {
    Seq::new(
        es.len(),
        |i: int|
            SubscriberView { chat_id: es[i].chat_id@, categories: spec_parse_filter(es[i].raw@) },
    )
}

/// The marker namespace as a map from event id to expiry.
pub open spec fn markers_view(ms: Seq<Marker>) -> Map<Seq<char>, u64> {
    Map::new(
        |id: Seq<char>| spec_markers_get(ms, id) is Some,
        |id: Seq<char>| spec_markers_get(ms, id)->Some_0,
    )
}

/// The store as the pipeline's transition functions see it: the clock, the
/// marker map, the three configuration values, the parsed directory, and the
/// queued envelopes in order.
#[verifier::ext_equal]
pub ghost struct StoreView {
    pub now: u64,
    pub markers: Map<Seq<char>, u64>,
    pub flag: Option<Seq<char>>,
    pub messages_sent: Option<Seq<char>>,
    pub deals_sent: Option<Seq<char>>,
    pub directory: Seq<SubscriberView>,
    pub queue: Seq<crate::message::MessageView>,
}

impl View for Connection {
    type V = StoreView;

    open spec fn view(&self) -> StoreView {
        StoreView {
            now: self.now,
            markers: markers_view(self.markers@),
            flag: spec_config_get(self.config, Config::OperationalKey),
            messages_sent: spec_config_get(self.config, Config::MessagesSentKey),
            deals_sent: spec_config_get(self.config, Config::DealsSentKey),
            directory: spec_directory(self.subscribers@),
            queue: self.deals@.map_values(|m: Message| m@),
        }
    }
}

/// Whether the view records an unexpired marker for `id`.
pub open spec fn sv_marker_live(sv: StoreView, id: Seq<char>) -> bool {
    sv.markers.contains_key(id) && sv.now < sv.markers[id]
}

/// The two readings of marker liveness agree.
pub broadcast proof fn lemma_marker_live_view(con: Connection, id: Seq<char>)
    ensures
        #[trigger] marker_live(con, id) == sv_marker_live(con@, id),
{
    if spec_markers_get(con.markers@, id) is Some {
        assert(con@.markers.contains_key(id));
        assert(con@.markers[id] == spec_markers_get(con.markers@, id)->Some_0);
    } else {
        assert(!con@.markers.contains_key(id));
    }
}

/// All fields of the connection but the deals list and the active namespace
/// are the same.
pub open spec fn same_but_deals(pre: Connection, post: Connection) -> bool {
    &&& post.now == pre.now
    &&& post.subscribers == pre.subscribers
    &&& post.markers == pre.markers
    &&& post.config == pre.config
    &&& post.messages_list == pre.messages_list
    &&& post.stream == pre.stream
}

/// Appends the envelope to the deals list in the message namespace; the
/// queue keeps envelopes in arrival order and never drops one silently.
pub fn publish_message(con: &mut Connection, message: Message) -> (r: Result<(), MessageError>)
    ensures
        r is Ok,
        same_but_deals(*old(con), *final(con)),
        final(con).active == Database::MESSAGE,
        final(con).deals@ == old(con).deals@.push(message),
{
    con.active = Database::MESSAGE;
    con.deals.push(message);
    Ok(())
}

/// Takes the oldest envelope off the deals list, or reports that the list is
/// empty and a real consumer would block.
pub fn read_message(con: &mut Connection) -> (r: Option<Message>)
    ensures
        same_but_deals(*old(con), *final(con)),
        final(con).active == Database::MESSAGE,
        old(con).deals@.len() == 0 ==> r is None && final(con).deals == old(con).deals,
        old(con).deals@.len() > 0 ==> r == Some(old(con).deals@[0]) && final(con).deals@ == old(
            con,
        ).deals@.skip(1),
{
    con.active = Database::MESSAGE;
    if con.deals.len() == 0 {
        None
    } else {
        let m = con.deals.remove(0);
        proof {
            assert(con.deals@ =~= old(con).deals@.skip(1));
        }
        Some(m)
    }
}

} // verus!
