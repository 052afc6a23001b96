//! The two queue backends: a plain first-in-first-out list and an
//! append-only log with consumer-group semantics, bounded retention and
//! acknowledgment.
use vstd::prelude::*;
use vstd::string::*;
use crate::codec::{encode_entry, spec_encode_entry};
use crate::store::{create_generic_config, spec_config_get, Config, Connection, Database,
    RedisError};

verus! {

/// The approximate retention cap of the log backend: once the log is this
/// long, appending trims the oldest entry first, acknowledged or not.
pub const STREAM_MAX_LEN: usize = 100;

/// How the log backend can fail.
#[derive(Debug)]
pub enum RedisStreamError {
    FailedCreateStream,
}

/// The fields one queue entry carries on the wire.
pub struct ListEntry {
    pub message_id: String,
    pub link: String,
    pub title: String,
    pub category: String,
}

pub ghost struct ListEntryView {
    pub message_id: Seq<char>,
    pub link: Seq<char>,
    pub title: Seq<char>,
    pub category: Seq<char>,
}

impl View for ListEntry {
    type V = ListEntryView;

    open spec fn view(&self) -> ListEntryView {
        ListEntryView {
            message_id: self.message_id@,
            link: self.link@,
            title: self.title@,
            category: self.category@,
        }
    }
}

/// Where one log entry stands in its life: not yet handed out, handed to one
/// named consumer and awaiting its acknowledgment, or acknowledged.
pub enum DeliveryState {
    Pending,
    Claimed { consumer: String },
    Acked,
}

/// One entry of the append-only log, under its backend-assigned position.
pub struct StreamEntry {
    pub entry_id: u64,
    pub fields: ListEntry,
    pub state: DeliveryState,
}

/// The append-only log: entries in append order, the next free position, and
/// whether the consumer group has been provisioned.
pub struct StreamState {
    pub entries: Vec<StreamEntry>,
    pub next_id: u64,
    pub group_ready: bool,
}

/// Positions in the log grow strictly, stay below the next free position,
/// and the log never exceeds its retention cap.
pub open spec fn stream_wf(ss: StreamState) -> bool {
    &&& forall|i: int, j: int|
        0 <= i < j < ss.entries@.len() ==> ss.entries@[i].entry_id < ss.entries@[j].entry_id
    &&& forall|i: int| 0 <= i < ss.entries@.len() ==> #[trigger] ss.entries@[i].entry_id
        < ss.next_id
    &&& ss.entries@.len() <= STREAM_MAX_LEN
}

/// The position of the oldest entry not yet handed to any consumer.
pub open spec fn spec_find_pending(es: Seq<StreamEntry>) -> Option<int>
    decreases es.len(),
{
    if es.len() == 0 {
        None
    } else if es[0].state is Pending {
        Some(0int)
    } else {
        match spec_find_pending(es.skip(1)) {
            None => None,
            Some(j) => Some(j + 1),
        }
    }
}

proof fn lemma_find_pending_at(es: Seq<StreamEntry>, j: int)
    requires
        0 <= j < es.len(),
        es[j].state is Pending,
        forall|k: int| 0 <= k < j ==> !(es[k].state is Pending),
    ensures
        spec_find_pending(es) == Some(j),
    decreases j,
{
    if j > 0 {
        lemma_find_pending_at(es.skip(1), j - 1);
    }
}

proof fn lemma_find_pending_none(es: Seq<StreamEntry>)
    requires
        forall|k: int| 0 <= k < es.len() ==> !(es[k].state is Pending),
    ensures
        spec_find_pending(es) == None::<int>,
    decreases es.len(),
{
    if es.len() > 0 {
        lemma_find_pending_none(es.skip(1));
    }
}

/// The position of the entry at a given log position.
pub open spec fn spec_find_id(es: Seq<StreamEntry>, entry_id: u64) -> Option<int>
    decreases es.len(),
{
    if es.len() == 0 {
        None
    } else if es[0].entry_id == entry_id {
        Some(0int)
    } else {
        match spec_find_id(es.skip(1), entry_id) {
            None => None,
            Some(j) => Some(j + 1),
        }
    }
}

proof fn lemma_find_id_at(es: Seq<StreamEntry>, entry_id: u64, j: int)
    requires
        0 <= j < es.len(),
        es[j].entry_id == entry_id,
        forall|k: int| 0 <= k < j ==> es[k].entry_id != entry_id,
    ensures
        spec_find_id(es, entry_id) == Some(j),
    decreases j,
{
    if j > 0 {
        lemma_find_id_at(es.skip(1), entry_id, j - 1);
    }
}

proof fn lemma_find_id_none(es: Seq<StreamEntry>, entry_id: u64)
    requires
        forall|k: int| 0 <= k < es.len() ==> es[k].entry_id != entry_id,
    ensures
        spec_find_id(es, entry_id) == None::<int>,
    decreases es.len(),
{
    if es.len() > 0 {
        lemma_find_id_none(es.skip(1), entry_id);
    }
}

/// Copies a queue entry field for field.
pub fn clone_entry(e: &ListEntry) -> (r: ListEntry)
    ensures
        r == *e,
{
    ListEntry {
        message_id: e.message_id.clone(),
        link: e.link.clone(),
        title: e.title.clone(),
        category: e.category.clone(),
    }
}

/// The simple list backend: one logical consumer, strict first-in-first-out
/// order, no replay and no redelivery.
pub struct RedisList {
    pub con: Connection,
}

impl RedisList {
    /// Provisions the shared configuration defaults, keeping any values
    /// already present.
    pub fn create_generic_config(&mut self) -> (r: Result<(), RedisError>)
        ensures
            r is Ok,
            crate::store::same_but_config(old(self).con, final(self).con),
            final(self).con.active == Database::CONFIG,
            spec_config_get(final(self).con.config, Config::OperationalKey) == match
                spec_config_get(old(self).con.config, Config::OperationalKey) {
                None => Some("1"@),
                Some(s) => Some(s),
            },
            spec_config_get(final(self).con.config, Config::MessagesSentKey) == match
                spec_config_get(old(self).con.config, Config::MessagesSentKey) {
                None => Some("0"@),
                Some(s) => Some(s),
            },
            spec_config_get(final(self).con.config, Config::DealsSentKey) == match
                spec_config_get(old(self).con.config, Config::DealsSentKey) {
                None => Some("0"@),
                Some(s) => Some(s),
            },
    {
        create_generic_config(&mut self.con)
    }

    /// The connection this client works over.
    pub fn get_connection(&self) -> (r: Result<&Connection, RedisError>)
        ensures
            match r {
                Ok(c) => *c == self.con,
                Err(_) => false,
            },
    {
        Ok(&self.con)
    }

    /// Relies on uuid's Uuid::new_v4 and its hyphenated text form: a fresh
    /// random consumer identity of exactly 36 characters; being random,
    /// nothing more is promised of the value.
    #[verifier::external_body]
    pub fn consumer_name(&self) -> (r: String)
        ensures
            r@.len() == 36,
    {
        uuid::Uuid::new_v4().to_string()
    }

    /// Appends an entry to the list, returning its wire rendering; the queue
    /// accepts every entry or says why not, never dropping one silently.
    pub fn add(&mut self, list_entry: ListEntry) -> (r: Result<String, RedisError>)
        requires
            old(self).con.active == Database::MESSAGE,
        ensures
            final(self).con == (Connection {
                messages_list: final(self).con.messages_list,
                ..old(self).con
            }),
            final(self).con.messages_list@ == old(self).con.messages_list@.push(list_entry),
            match r {
                Ok(j) => j@ == spec_encode_entry(list_entry@),
                Err(_) => false,
            },
    {
        let j = encode_entry(&list_entry);
        self.con.messages_list.push(list_entry);
        Ok(j)
    }

    /// Takes the oldest entry off the list, or reports that the list is
    /// empty and a real consumer would block; the list backend has no
    /// acknowledgment and no redelivery.
    pub fn read(&mut self) -> (r: Option<ListEntry>)
        requires
            old(self).con.active == Database::MESSAGE,
        ensures
            final(self).con == (Connection {
                messages_list: final(self).con.messages_list,
                ..old(self).con
            }),
            old(self).con.messages_list@.len() == 0 ==> r is None && final(self).con.messages_list
                == old(self).con.messages_list,
            old(self).con.messages_list@.len() > 0 ==> r == Some(
                old(self).con.messages_list@[0],
            ) && final(self).con.messages_list@ == old(self).con.messages_list@.skip(1),
    {
        if self.con.messages_list.len() == 0 {
            None
        } else {
            let e = self.con.messages_list.remove(0);
            proof {
                assert(self.con.messages_list@ =~= old(self).con.messages_list@.skip(1));
            }
            Some(e)
        }
    }
}

/// The log backend: cooperating consumers share one append-only log under a
/// consumer group; entries are claimed, acknowledged, and trimmed oldest
/// first once the retention cap is reached.
pub struct RedisStreamClient {
    pub con: Connection,
}

impl RedisStreamClient {
    /// Provisions the shared configuration defaults, keeping any values
    /// already present.
    pub fn create_generic_config(&mut self) -> (r: Result<(), RedisStreamError>)
        ensures
            r is Ok,
            crate::store::same_but_config(old(self).con, final(self).con),
            final(self).con.active == Database::CONFIG,
            spec_config_get(final(self).con.config, Config::OperationalKey) == match
                spec_config_get(old(self).con.config, Config::OperationalKey) {
                None => Some("1"@),
                Some(s) => Some(s),
            },
            spec_config_get(final(self).con.config, Config::MessagesSentKey) == match
                spec_config_get(old(self).con.config, Config::MessagesSentKey) {
                None => Some("0"@),
                Some(s) => Some(s),
            },
            spec_config_get(final(self).con.config, Config::DealsSentKey) == match
                spec_config_get(old(self).con.config, Config::DealsSentKey) {
                None => Some("0"@),
                Some(s) => Some(s),
            },
    {
        match create_generic_config(&mut self.con) {
            Ok(()) => Ok(()),
            Err(_) => Err(RedisStreamError::FailedCreateStream),
        }
    }

    /// The connection this client works over.
    pub fn get_connection(&self) -> (r: Result<&Connection, RedisStreamError>)
        ensures
            match r {
                Ok(c) => *c == self.con,
                Err(_) => false,
            },
    {
        Ok(&self.con)
    }

    /// Idempotently provisions the log and its consumer group; finding them
    /// already present counts as success.
    pub fn ensure_ready(&mut self) -> (r: Result<(), RedisStreamError>)
        ensures
            r is Ok,
            final(self).con == (Connection { stream: final(self).con.stream, ..old(self).con }),
            final(self).con.stream.entries == old(self).con.stream.entries,
            final(self).con.stream.next_id == old(self).con.stream.next_id,
            final(self).con.stream.group_ready,
    {
        if !self.con.stream.group_ready {
            self.con.stream.group_ready = true;
        }
        Ok(())
    }

    /// Appends an entry to the log as pending under the next position; at
    /// the retention cap the oldest entry is trimmed first, acknowledged or
    /// not, the accepted price of bounded memory.
    pub fn add(&mut self, entry: ListEntry) -> (r: Result<u64, RedisStreamError>)
        requires
            stream_wf(old(self).con.stream),
            old(self).con.stream.next_id < u64::MAX,
        ensures
            final(self).con == (Connection { stream: final(self).con.stream, ..old(self).con }),
            stream_wf(final(self).con.stream),
            final(self).con.stream.group_ready == old(self).con.stream.group_ready,
            final(self).con.stream.next_id == old(self).con.stream.next_id + 1,
            r == Ok::<u64, RedisStreamError>(old(self).con.stream.next_id),
            final(self).con.stream.entries@.len() <= STREAM_MAX_LEN,
            ({
                let full = old(self).con.stream.entries@.push(
                    StreamEntry {
                        entry_id: old(self).con.stream.next_id,
                        fields: entry,
                        state: DeliveryState::Pending,
                    },
                );
                final(self).con.stream.entries@ == if full.len() > STREAM_MAX_LEN {
                    full.skip(1)
                } else {
                    full
                }
            }),
    {
        let id = self.con.stream.next_id;
        self.con.stream.entries.push(
            StreamEntry { entry_id: id, fields: entry, state: DeliveryState::Pending },
        );
        self.con.stream.next_id = id + 1;
        if self.con.stream.entries.len() > STREAM_MAX_LEN {
            let _ = self.con.stream.entries.remove(0);
            proof {
                let full = old(self).con.stream.entries@.push(
                    StreamEntry {
                        entry_id: id,
                        fields: entry,
                        state: DeliveryState::Pending,
                    },
                );
                assert(self.con.stream.entries@ =~= full.skip(1));
                assert(forall|a: int, b: int|
                    0 <= a < b < self.con.stream.entries@.len()
                        ==> self.con.stream.entries@[a].entry_id
                        < self.con.stream.entries@[b].entry_id) by {
                    assert(forall|k: int|
                        0 <= k < self.con.stream.entries@.len()
                            ==> self.con.stream.entries@[k] == full[k + 1]);
                }
            }
        }
        Ok(id)
    }

    /// Hands the oldest pending entry to the named consumer: the entry and
    /// its position, which the consumer must later acknowledge; entries
    /// already claimed or acknowledged are not handed out again.
    pub fn read(&mut self, consumer: &str) -> (r: Option<(u64, ListEntry)>)
        requires
            old(self).con.stream.group_ready,
            stream_wf(old(self).con.stream),
        ensures
            final(self).con == (Connection { stream: final(self).con.stream, ..old(self).con }),
            stream_wf(final(self).con.stream),
            final(self).con.stream.group_ready == old(self).con.stream.group_ready,
            final(self).con.stream.next_id == old(self).con.stream.next_id,
            match spec_find_pending(old(self).con.stream.entries@) {
                None => r is None && final(self).con.stream.entries == old(
                    self,
                ).con.stream.entries,
                Some(j) => {
                    let es = old(self).con.stream.entries@;
                    let es2 = final(self).con.stream.entries@;
                    &&& r == Some((es[j].entry_id, es[j].fields))
                    &&& es2.len() == es.len()
                    &&& forall|k: int| 0 <= k < es.len() && k != j ==> es2[k] == es[k]
                    &&& es2[j].entry_id == es[j].entry_id
                    &&& es2[j].fields == es[j].fields
                    &&& match es2[j].state {
                        DeliveryState::Claimed { consumer: c } => c@ == consumer@,
                        _ => false,
                    }
                },
            },
    {
        let ghost es = self.con.stream.entries@;
        let n = self.con.stream.entries.len();
        let mut i: usize = 0;
        while i < n
            invariant
                0 <= i <= n,
                n == self.con.stream.entries@.len(),
                *self == *old(self),
                stream_wf(old(self).con.stream),
                es == self.con.stream.entries@,
                forall|k: int| 0 <= k < i ==> !(es[k].state is Pending),
            decreases n - i,
        {
            let pending = match self.con.stream.entries[i].state {
                DeliveryState::Pending => true,
                _ => false,
            };
            if pending {
                proof {
                    lemma_find_pending_at(es, i as int);
                }
                let e = self.con.stream.entries.remove(i);
                let out = clone_entry(&e.fields);
                let id = e.entry_id;
                self.con.stream.entries.insert(
                    i,
                    StreamEntry {
                        entry_id: e.entry_id,
                        fields: e.fields,
                        state: DeliveryState::Claimed { consumer: consumer.to_owned() },
                    },
                );
                proof {
                    assert(forall|k: int|
                        0 <= k < es.len() && k != i ==> self.con.stream.entries@[k] == es[k]);
                    assert(forall|k: int|
                        0 <= k < es.len() ==> (#[trigger] self.con.stream.entries@[k]).entry_id
                            == es[k].entry_id);
                }
                return Some((id, out));
            }
            i = i + 1;
        }
        proof {
            lemma_find_pending_none(es);
        }
        None
    }

    /// Marks the entry at the given position as processed; acknowledgment is
    /// queue bookkeeping, owed whatever became of the delivery. A position
    /// the log no longer holds changes nothing.
    pub fn ack(&mut self, entry_id: u64) -> (r: Result<(), RedisStreamError>)
        requires
            stream_wf(old(self).con.stream),
        ensures
            r is Ok,
            final(self).con == (Connection { stream: final(self).con.stream, ..old(self).con }),
            stream_wf(final(self).con.stream),
            final(self).con.stream.group_ready == old(self).con.stream.group_ready,
            final(self).con.stream.next_id == old(self).con.stream.next_id,
            match spec_find_id(old(self).con.stream.entries@, entry_id) {
                None => final(self).con.stream.entries == old(self).con.stream.entries,
                Some(j) => {
                    let es = old(self).con.stream.entries@;
                    let es2 = final(self).con.stream.entries@;
                    &&& es2.len() == es.len()
                    &&& forall|k: int| 0 <= k < es.len() && k != j ==> es2[k] == es[k]
                    &&& es2[j].entry_id == es[j].entry_id
                    &&& es2[j].fields == es[j].fields
                    &&& es2[j].state is Acked
                },
            },
    {
        let ghost es = self.con.stream.entries@;
        let n = self.con.stream.entries.len();
        let mut i: usize = 0;
        while i < n
            invariant
                0 <= i <= n,
                n == self.con.stream.entries@.len(),
                *self == *old(self),
                stream_wf(old(self).con.stream),
                es == self.con.stream.entries@,
                forall|k: int| 0 <= k < i ==> es[k].entry_id != entry_id,
            decreases n - i,
        {
            if self.con.stream.entries[i].entry_id == entry_id {
                proof {
                    lemma_find_id_at(es, entry_id, i as int);
                }
                let e = self.con.stream.entries.remove(i);
                self.con.stream.entries.insert(
                    i,
                    StreamEntry {
                        entry_id: e.entry_id,
                        fields: e.fields,
                        state: DeliveryState::Acked,
                    },
                );
                proof {
                    assert(forall|k: int|
                        0 <= k < es.len() && k != i ==> self.con.stream.entries@[k] == es[k]);
                    assert(forall|k: int|
                        0 <= k < es.len() ==> (#[trigger] self.con.stream.entries@[k]).entry_id
                            == es[k].entry_id);
                }
                return Ok(());
            }
            i = i + 1;
        }
        proof {
            lemma_find_id_none(es, entry_id);
        }
        Ok(())
    }

    /// Returns a claimed entry to the pending state, making it eligible for
    /// redelivery to another consumer, as happens when a claimant never
    /// acknowledges; pending and acknowledged entries are left alone.
    pub fn reclaim(&mut self, entry_id: u64) -> (r: Result<(), RedisStreamError>)
        requires
            stream_wf(old(self).con.stream),
        ensures
            r is Ok,
            final(self).con == (Connection { stream: final(self).con.stream, ..old(self).con }),
            stream_wf(final(self).con.stream),
            final(self).con.stream.group_ready == old(self).con.stream.group_ready,
            final(self).con.stream.next_id == old(self).con.stream.next_id,
            match spec_find_id(old(self).con.stream.entries@, entry_id) {
                None => final(self).con.stream.entries == old(self).con.stream.entries,
                Some(j) => {
                    let es = old(self).con.stream.entries@;
                    let es2 = final(self).con.stream.entries@;
                    &&& es2.len() == es.len()
                    &&& forall|k: int| 0 <= k < es.len() && k != j ==> es2[k] == es[k]
                    &&& es2[j].entry_id == es[j].entry_id
                    &&& es2[j].fields == es[j].fields
                    &&& es2[j].state == if es[j].state is Claimed {
                        DeliveryState::Pending
                    } else {
                        es[j].state
                    }
                },
            },
    {
        let ghost es = self.con.stream.entries@;
        let n = self.con.stream.entries.len();
        let mut i: usize = 0;
        while i < n
            invariant
                0 <= i <= n,
                n == self.con.stream.entries@.len(),
                *self == *old(self),
                stream_wf(old(self).con.stream),
                es == self.con.stream.entries@,
                forall|k: int| 0 <= k < i ==> es[k].entry_id != entry_id,
            decreases n - i,
        {
            if self.con.stream.entries[i].entry_id == entry_id {
                proof {
                    lemma_find_id_at(es, entry_id, i as int);
                }
                let claimed = match self.con.stream.entries[i].state {
                    DeliveryState::Claimed { .. } => true,
                    _ => false,
                };
                if claimed {
                    let e = self.con.stream.entries.remove(i);
                    self.con.stream.entries.insert(
                        i,
                        StreamEntry {
                            entry_id: e.entry_id,
                            fields: e.fields,
                            state: DeliveryState::Pending,
                        },
                    );
                    proof {
                        assert(forall|k: int|
                            0 <= k < es.len() && k != i ==> self.con.stream.entries@[k]
                                == es[k]);
                        assert(forall|k: int|
                            0 <= k < es.len() ==> (
                            #[trigger] self.con.stream.entries@[k]).entry_id
                                == es[k].entry_id);
                    }
                }
                return Ok(());
            }
            i = i + 1;
        }
        proof {
            lemma_find_id_none(es, entry_id);
        }
        Ok(())
    }
}

/// The two backends behind the one queue contract: configuration picks the
/// variant at startup instead of branching at every call site.
pub enum MessageQueue {
    List(RedisList),
    Stream(RedisStreamClient),
}

/// What a pop hands back for the later acknowledgment: the list backend
/// needs nothing, its pop already removed the entry; the log backend needs
/// the entry's position.
pub enum AckHandle {
    Unneeded,
    Position(u64),
}

impl MessageQueue {
    /// What each backend asks of its state: the list client sits on the
    /// message namespace, the log keeps its positions well formed.
    pub open spec fn wf(self) -> bool {
        match self {
            MessageQueue::List(l) => l.con.active == Database::MESSAGE,
            MessageQueue::Stream(s) => stream_wf(s.con.stream),
        }
    }

    /// Idempotently provisions whatever the backend needs: the list nothing,
    /// the log its consumer group; finding it already present is success.
    pub fn ensure_ready(&mut self) -> (r: Result<(), RedisStreamError>)
        requires
            old(self).wf(),
        ensures
            r is Ok,
            final(self).wf(),
            match (*old(self), *final(self)) {
                (MessageQueue::List(l0), MessageQueue::List(l1)) => l1 == l0,
                (MessageQueue::Stream(s0), MessageQueue::Stream(s1)) => {
                    &&& s1.con == (Connection { stream: s1.con.stream, ..s0.con })
                    &&& s1.con.stream.entries == s0.con.stream.entries
                    &&& s1.con.stream.next_id == s0.con.stream.next_id
                    &&& s1.con.stream.group_ready
                },
                _ => false,
            },
    {
        match self {
            MessageQueue::List(_) => Ok(()),
            MessageQueue::Stream(s) => s.ensure_ready(),
        }
    }

    /// Durably appends the entry: the queue accepts it or says why not,
    /// never dropping it silently; the log backend may trim its oldest
    /// entry at the retention cap.
    pub fn push(&mut self, entry: ListEntry) -> (r: Result<(), RedisStreamError>)
        requires
            old(self).wf(),
            (*old(self)) is Stream ==> (*old(self))->Stream_0.con.stream.next_id < u64::MAX,
        ensures
            r is Ok,
            final(self).wf(),
            match (*old(self), *final(self)) {
                (MessageQueue::List(l0), MessageQueue::List(l1)) => {
                    &&& l1.con == (Connection { messages_list: l1.con.messages_list, ..l0.con })
                    &&& l1.con.messages_list@ == l0.con.messages_list@.push(entry)
                },
                (MessageQueue::Stream(s0), MessageQueue::Stream(s1)) => {
                    let full = s0.con.stream.entries@.push(
                        StreamEntry {
                            entry_id: s0.con.stream.next_id,
                            fields: entry,
                            state: DeliveryState::Pending,
                        },
                    );
                    &&& s1.con == (Connection { stream: s1.con.stream, ..s0.con })
                    &&& s1.con.stream.group_ready == s0.con.stream.group_ready
                    &&& s1.con.stream.next_id == s0.con.stream.next_id + 1
                    &&& s1.con.stream.entries@ == if full.len() > STREAM_MAX_LEN {
                        full.skip(1)
                    } else {
                        full
                    }
                },
                _ => false,
            },
    {
        match self {
            MessageQueue::List(l) => match l.add(entry) {
                Ok(_) => Ok(()),
                Err(_) => Err(RedisStreamError::FailedCreateStream),
            },
            MessageQueue::Stream(s) => match s.add(entry) {
                Ok(_) => Ok(()),
                Err(e) => Err(e),
            },
        }
    }

    /// Takes the next entry as the named consumer: the entry and the handle
    /// its acknowledgment needs, or nothing where a real consumer would
    /// block. The list backend removes the entry outright; the log backend
    /// marks it claimed by this consumer until acknowledged.
    pub fn pop(&mut self, consumer: &str) -> (r: Option<(ListEntry, AckHandle)>)
        requires
            old(self).wf(),
            (*old(self)) is Stream ==> (*old(self))->Stream_0.con.stream.group_ready,
        ensures
            final(self).wf(),
            match (*old(self), *final(self)) {
                (MessageQueue::List(l0), MessageQueue::List(l1)) => {
                    &&& l1.con == (Connection { messages_list: l1.con.messages_list, ..l0.con })
                    &&& l0.con.messages_list@.len() == 0 ==> r is None && l1.con.messages_list
                        == l0.con.messages_list
                    &&& l0.con.messages_list@.len() > 0 ==> r == Some(
                        (l0.con.messages_list@[0], AckHandle::Unneeded),
                    ) && l1.con.messages_list@ == l0.con.messages_list@.skip(1)
                },
                (MessageQueue::Stream(s0), MessageQueue::Stream(s1)) => {
                    &&& s1.con == (Connection { stream: s1.con.stream, ..s0.con })
                    &&& s1.con.stream.group_ready == s0.con.stream.group_ready
                    &&& s1.con.stream.next_id == s0.con.stream.next_id
                    &&& match spec_find_pending(s0.con.stream.entries@) {
                        None => r is None && s1.con.stream.entries == s0.con.stream.entries,
                        Some(j) => {
                            let es = s0.con.stream.entries@;
                            let es2 = s1.con.stream.entries@;
                            &&& r == Some(
                                (es[j].fields, AckHandle::Position(es[j].entry_id)),
                            )
                            &&& es2.len() == es.len()
                            &&& forall|k: int| 0 <= k < es.len() && k != j ==> es2[k] == es[k]
                            &&& es2[j].entry_id == es[j].entry_id
                            &&& es2[j].fields == es[j].fields
                            &&& match es2[j].state {
                                DeliveryState::Claimed { consumer: c } => c@ == consumer@,
                                _ => false,
                            }
                        },
                    }
                },
                _ => false,
            },
    {
        match self {
            MessageQueue::List(l) => match l.read() {
                None => None,
                Some(e) => Some((e, AckHandle::Unneeded)),
            },
            MessageQueue::Stream(s) => match s.read(consumer) {
                None => None,
                Some((id, e)) => Some((e, AckHandle::Position(id))),
            },
        }
    }

    /// Marks the popped entry as processed: meaningful only for the log
    /// backend, a no-op for the list backend, whose pop already removed the
    /// entry.
    pub fn ack(&mut self, handle: AckHandle) -> (r: Result<(), RedisStreamError>)
        requires
            old(self).wf(),
        ensures
            r is Ok,
            final(self).wf(),
            match (*old(self), *final(self)) {
                (MessageQueue::List(l0), MessageQueue::List(l1)) => l1 == l0,
                (MessageQueue::Stream(s0), MessageQueue::Stream(s1)) => match handle {
                    AckHandle::Unneeded => s1 == s0,
                    AckHandle::Position(entry_id) => {
                        &&& s1.con == (Connection { stream: s1.con.stream, ..s0.con })
                        &&& s1.con.stream.group_ready == s0.con.stream.group_ready
                        &&& s1.con.stream.next_id == s0.con.stream.next_id
                        &&& match spec_find_id(s0.con.stream.entries@, entry_id) {
                            None => s1.con.stream.entries == s0.con.stream.entries,
                            Some(j) => {
                                let es = s0.con.stream.entries@;
                                let es2 = s1.con.stream.entries@;
                                &&& es2.len() == es.len()
                                &&& forall|k: int|
                                    0 <= k < es.len() && k != j ==> es2[k] == es[k]
                                &&& es2[j].entry_id == es[j].entry_id
                                &&& es2[j].fields == es[j].fields
                                &&& es2[j].state is Acked
                            },
                        }
                    },
                },
                _ => false,
            },
    {
        match self {
            MessageQueue::List(_) => Ok(()),
            MessageQueue::Stream(s) => match handle {
                AckHandle::Unneeded => Ok(()),
                AckHandle::Position(entry_id) => s.ack(entry_id),
            },
        }
    }
}

} // verus!
