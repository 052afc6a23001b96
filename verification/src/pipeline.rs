//! The two halves of the pipeline: the feed poller, which turns a feed
//! snapshot into queued envelopes, deduplicating against the idempotency
//! markers; and the dispatcher, which consumes one envelope, writes the
//! authoritative marker, consults the operational flag and fans the event
//! out to the matching recipients.
use vstd::prelude::*;
use vstd::string::*;
use crate::message::{Deal, Message, MessageView};
use crate::sanitize::{sanitize_title, spec_sanitize};
use crate::store::{
    marker_live, read_message, publish_message, marker_exists, marker_set, get_config,
    get_subscribers, increase_config_value, select, spec_config_get, spec_directory, spec_incr,
    spec_marker_expiry, spec_markers_get, sv_marker_live, lemma_marker_live_view, Config,
    Connection, Database, RedisError, StoreView, Subscriber, SubscriberView,
};
use crate::text::{lower_of, lowercase, str_eq, vec_contains_str};

verus! {

/// One raw feed item as the poller receives it: any of the fields can be
/// missing from the remote document.
pub struct FeedItem {
    pub link: Option<String>,
    pub title: Option<String>,
    pub categories: Vec<String>,
}

pub ghost struct FeedItemView {
    pub link: Option<Seq<char>>,
    pub title: Option<Seq<char>>,
    pub categories: Seq<Seq<char>>,
}

impl View for FeedItem {
    type V = FeedItemView;

    open spec fn view(&self) -> FeedItemView {
        FeedItemView {
            link: match self.link {
                Some(ref l) => Some(l@),
                None => None,
            },
            title: match self.title {
                Some(ref t) => Some(t@),
                None => None,
            },
            categories: self.categories@.map_values(|c: String| c@),
        }
    }
}

/// The event a feed item with a link becomes: the link doubles as id, the
/// first category is kept in lowercase, and a missing title degrades to the
/// empty string, never to an error.
pub open spec fn spec_event_of(it: FeedItemView) -> MessageView
    recommends
        it.link is Some,
{
    MessageView {
        id: it.link->Some_0,
        list: "deals"@,
        payload: crate::message::DealView {
            link: it.link->Some_0,
            category: lower_of(
                if it.categories.len() > 0 {
                    it.categories[0]
                } else {
                    Seq::<char>::empty()
                },
            ),
            title: match it.title {
                Some(t) => t,
                None => Seq::<char>::empty(),
            },
        },
    }
}

/// What one feed item contributes to the queue: nothing without a link,
/// nothing when an unexpired marker already suppresses the id, else its
/// event.
pub open spec fn spec_poll_one(sv: StoreView, it: FeedItemView) -> Seq<MessageView> {
    match it.link {
        None => Seq::<MessageView>::empty(),
        Some(l) => if sv_marker_live(sv, l) {
            Seq::<MessageView>::empty()
        } else {
            seq![spec_event_of(it)]
        },
    }
}

/// The envelopes one poll appends, processing the given items in order;
/// the poller hands this function the snapshot already reversed, so the
/// oldest unseen item is queued first.
pub open spec fn spec_poll(sv: StoreView, items: Seq<FeedItemView>) -> Seq<MessageView>
    decreases items.len(),
{
    if items.len() == 0 {
        Seq::<MessageView>::empty()
    } else {
        spec_poll_one(sv, items[0]) + spec_poll(sv, items.skip(1))
    }
}

/// One poll cycle: walks the snapshot newest-first in reverse, so events are
/// queued in discovery order, skipping items without a link and items whose
/// id an unexpired marker suppresses; markers are only read here, never
/// written, the dispatcher being the authoritative dedup point.
pub fn poll_feed(con: &mut Connection, items: &Vec<FeedItem>)
    ensures
        final(con).now == old(con).now,
        final(con).subscribers == old(con).subscribers,
        final(con).markers == old(con).markers,
        final(con).config == old(con).config,
        final(con).messages_list == old(con).messages_list,
        final(con).stream == old(con).stream,
        final(con).active == Database::MESSAGE,
        final(con).wf() == old(con).wf(),
        final(con).deals@.map_values(|m: Message| m@) == old(con).deals@.map_values(
            |m: Message| m@,
        ) + spec_poll(old(con)@, items@.map_values(|it: FeedItem| it@).reverse()),
{
    select(con, Database::MESSAGE);
    let ghost sv0 = old(con)@;
    let ghost rev = items@.map_values(|it: FeedItem| it@).reverse();
    let ghost f = |m: Message| m@;
    let n = items.len();
    let mut idx: usize = n;
    proof {
        assert(rev.skip(0) =~= rev);
        assert(con.deals@.map_values(f) + Seq::<MessageView>::empty() =~= con.deals@.map_values(
            f,
        ));
    }
    while idx > 0
        invariant
            0 <= idx <= n,
            n == items@.len(),
            rev == items@.map_values(|it: FeedItem| it@).reverse(),
            rev.len() == n,
            sv0 == old(con)@,
            con.now == old(con).now,
            con.subscribers == old(con).subscribers,
            con.markers == old(con).markers,
            con.config == old(con).config,
            con.messages_list == old(con).messages_list,
            con.stream == old(con).stream,
            con.active == Database::MESSAGE,
            con.deals@.map_values(f) == old(con).deals@.map_values(f) + spec_poll(
                sv0,
                rev.take(n - idx),
            ),
            f == |m: Message| m@,
        decreases idx,
    {
        idx = idx - 1;
        let ghost k = n - idx - 1;
        let ghost pre_deals = con.deals@.map_values(f);
        proof {
            assert(rev[k] == items@.map_values(|it: FeedItem| it@)[idx as int]);
            assert(rev[k] == items@[idx as int]@);
        }
        let item = &items[idx];
        match &item.link {
            None => {
                proof {
                    assert(spec_poll_one(sv0, rev[k]) =~= Seq::<MessageView>::empty());
                    lemma_poll_take_step(sv0, rev, k);
                    assert(pre_deals + Seq::<MessageView>::empty() =~= pre_deals);
                }
            },
            Some(link) => {
                let dup = marker_exists(con, link.as_str());
                proof {
                    lemma_marker_live_view(*con, link@);
                    assert(marker_live(*con, link@) == sv_marker_live(sv0, link@));
                }
                if !dup {
                    let category = if item.categories.len() > 0 {
                        item.categories[0].clone()
                    } else {
                        String::new()
                    };
                    let title = match &item.title {
                        Some(t) => t.clone(),
                        None => String::new(),
                    };
                    let msg = Message::new(
                        Deal::new(link.clone(), lowercase(category.as_str()), title),
                    );
                    proof {
                        assert(category@ == if rev[k].categories.len() > 0 {
                            rev[k].categories[0]
                        } else {
                            Seq::<char>::empty()
                        });
                        assert(msg@ == spec_event_of(rev[k]));
                    }
                    let _ = publish_message(con, msg);
                    proof {
                        assert(con.deals@.map_values(f) =~= pre_deals + seq![msg@]);
                        lemma_poll_take_step(sv0, rev, k);
                        assert(pre_deals + spec_poll_one(sv0, rev[k]) =~= con.deals@.map_values(
                            f,
                        ));
                    }
                } else {
                    proof {
                        assert(spec_poll_one(sv0, rev[k]) =~= Seq::<MessageView>::empty());
                        lemma_poll_take_step(sv0, rev, k);
                        assert(pre_deals + Seq::<MessageView>::empty() =~= pre_deals);
                    }
                }
            },
        }
    }
    proof {
        assert(rev.take(n as int) =~= rev);
    }
}

/// Appending one more processed item extends the poll output by what that
/// item contributes.
proof fn lemma_poll_take_step(sv: StoreView, items: Seq<FeedItemView>, k: int)
    requires
        0 <= k < items.len(),
    ensures
        spec_poll(sv, items.take(k + 1)) == spec_poll(sv, items.take(k)) + spec_poll_one(
            sv,
            items[k],
        ),
    decreases k,
{
    if k == 0 {
        assert(items.take(1)[0] == items[0]);
        assert(items.take(1).skip(1) =~= Seq::<FeedItemView>::empty());
        assert(items.take(0) =~= Seq::<FeedItemView>::empty());
        assert(spec_poll_one(sv, items[0]) + Seq::<MessageView>::empty() =~= spec_poll_one(
            sv,
            items[0],
        ));
        assert(Seq::<MessageView>::empty() + spec_poll_one(sv, items[0]) =~= spec_poll_one(
            sv,
            items[0],
        ));
    } else {
        lemma_poll_take_step(sv, items.skip(1), k - 1);
        assert(items.take(k + 1)[0] == items[0]);
        assert(items.take(k)[0] == items[0]);
        assert(items.take(k + 1).skip(1) =~= items.skip(1).take(k));
        assert(items.take(k).skip(1) =~= items.skip(1).take(k - 1));
        assert(items.skip(1)[k - 1] == items[k]);
        assert(spec_poll_one(sv, items[0]) + (spec_poll(sv, items.skip(1).take(k - 1))
            + spec_poll_one(sv, items[k])) =~= (spec_poll_one(sv, items[0]) + spec_poll(
            sv,
            items.skip(1).take(k - 1),
        )) + spec_poll_one(sv, items[k]));
    }
}

/// One planned delivery: the recipient address and the formatted text.
pub struct Send {
    pub chat_id: String,
    pub text: String,
}

pub ghost struct SendView {
    pub chat_id: Seq<char>,
    pub text: Seq<char>,
}

impl View for Send {
    type V = SendView;

    open spec fn view(&self) -> SendView {
        SendView { chat_id: self.chat_id@, text: self.text@ }
    }
}

/// The text sent for an event: the sanitized title as a link to the deal.
pub open spec fn spec_message_text(m: MessageView) -> Seq<char> {
    "["@ + spec_sanitize(m.payload.title) + "]("@ + m.payload.link + ")"@
}

/// Formats the transport text for an event; only the title is sanitized,
/// never the link.
pub fn message_text(m: &Message) -> (t: String)
    ensures
        t@ == spec_message_text(m@),
{
    let mut t = String::new();
    t.append("[");
    let san = sanitize_title(m.payload.title.as_str());
    t.append(san.as_str());
    t.append("](");
    t.append(m.payload.link.as_str());
    t.append(")");
    proof {
        assert(t@ =~= spec_message_text(m@));
    }
    t
}

/// Whether a recipient's filter lets an event's category through: no filter
/// lets everything through.
pub open spec fn spec_filter_allows(f: Option<Seq<Seq<char>>>, category: Seq<char>) -> bool {
    match f {
        None => true,
        Some(cs) => cs.contains(category),
    }
}

/// The deliveries one event fans out to: every recipient whose filter is
/// absent or contains the event's category, in directory order, each with
/// the formatted text.
pub open spec fn spec_fanout(dir: Seq<SubscriberView>, m: MessageView) -> Seq<SendView>
    decreases dir.len(),
{
    if dir.len() == 0 {
        Seq::<SendView>::empty()
    } else {
        let rest = spec_fanout(dir.skip(1), m);
        if spec_filter_allows(dir[0].categories, m.payload.category) {
            seq![SendView { chat_id: dir[0].chat_id, text: spec_message_text(m) }] + rest
        } else {
            rest
        }
    }
}

/// Plans the deliveries for one event across the directory.
pub fn fanout(subs: &Vec<Subscriber>, message: &Message) -> (plan: Vec<Send>)
    ensures
        plan@.map_values(|s: Send| s@) == spec_fanout(
            subs@.map_values(|s: Subscriber| s@),
            message@,
        ),
{
    let ghost dir = subs@.map_values(|s: Subscriber| s@);
    let ghost g = |s: Send| s@;
    let n = subs.len();
    let mut plan: Vec<Send> = Vec::new();
    let mut i: usize = 0;
    proof {
        assert(dir.skip(0) =~= dir);
        assert(Seq::<SendView>::empty() + spec_fanout(dir, message@) =~= spec_fanout(
            dir,
            message@,
        ));
    }
    while i < n
        invariant
            0 <= i <= n,
            n == subs@.len(),
            dir == subs@.map_values(|s: Subscriber| s@),
            dir.len() == n,
            g == |s: Send| s@,
            spec_fanout(dir, message@) == plan@.map_values(g) + spec_fanout(
                dir.skip(i as int),
                message@,
            ),
        decreases n - i,
    {
        let ghost pre = plan@.map_values(g);
        proof {
            let rest = dir.skip(i as int);
            assert(rest[0] == dir[i as int]);
            assert(rest.skip(1) =~= dir.skip(i + 1));
            assert(dir[i as int] == subs@[i as int]@);
        }
        let allowed = match &subs[i].categories {
            None => true,
            Some(cs) => vec_contains_str(cs, message.payload.category.as_str()),
        };
        if allowed {
            let chat_id = subs[i].chat_id.clone();
            let text = message_text(message);
            plan.push(Send { chat_id, text });
            proof {
                assert(plan@.map_values(g) =~= pre + seq![
                    SendView { chat_id: dir[i as int].chat_id, text: spec_message_text(message@) },
                ]);
                assert(pre + (seq![
                    SendView { chat_id: dir[i as int].chat_id, text: spec_message_text(message@) },
                ] + spec_fanout(dir.skip(i + 1), message@)) =~= plan@.map_values(g) + spec_fanout(
                    dir.skip(i + 1),
                    message@,
                ));
            }
        }
        i = i + 1;
    }
    proof {
        assert(dir.skip(n as int) =~= Seq::<SubscriberView>::empty());
        assert(plan@.map_values(g) + Seq::<SendView>::empty() =~= plan@.map_values(g));
    }
    plan
}

/// Whether the operational flag reads as enabled: an absent flag counts as
/// enabled, as the dispatcher assumes when the value is missing.
pub open spec fn spec_flag_on(sv: StoreView) -> bool {
    match sv.flag {
        None => true,
        Some(v) => v == "1"@,
    }
}

/// The store after the dispatcher consumes one envelope: the envelope always
/// leaves the queue; a live marker stops everything else; otherwise the
/// marker is written before the flag is consulted, so a disabled flag still
/// suppresses redelivery later; only an enabled flag counts the deal.
pub open spec fn spec_dispatch_post(sv: StoreView) -> StoreView {
    if sv.queue.len() == 0 {
        sv
    } else {
        let m = sv.queue[0];
        let sv1 = StoreView { queue: sv.queue.skip(1), ..sv };
        if sv_marker_live(sv, m.id) {
            sv1
        } else {
            let sv2 = StoreView {
                markers: sv1.markers.insert(m.id, spec_marker_expiry(sv.now)),
                ..sv1
            };
            if !spec_flag_on(sv) {
                sv2
            } else {
                StoreView { deals_sent: spec_incr(sv.deals_sent, 1), ..sv2 }
            }
        }
    }
}

/// The deliveries the dispatcher plans for the consumed envelope: none
/// without an envelope, none for a duplicate, none under a disabled flag.
pub open spec fn spec_dispatch_sends(sv: StoreView) -> Seq<SendView> {
    if sv.queue.len() == 0 {
        Seq::<SendView>::empty()
    } else if sv_marker_live(sv, sv.queue[0].id) {
        Seq::<SendView>::empty()
    } else if !spec_flag_on(sv) {
        Seq::<SendView>::empty()
    } else {
        spec_fanout(sv.directory, sv.queue[0])
    }
}

/// What one dispatcher step did: nothing waited, a duplicate was dropped,
/// the kill-switch held the event back, or deliveries were planned.
pub enum DispatchOutcome {
    Idle,
    Duplicate,
    Suppressed,
    Deliver { sends: Vec<Send> },
}

/// Consumes one envelope from the queue and decides what to do with it, per
/// the dispatcher's state machine: received, deduplicated, gated by the
/// operational flag, fanned out. The planned sends are returned for the
/// transport to perform; the messages-sent counter moves only afterwards,
/// through record_messages_sent, by what was actually delivered.
pub fn dispatch_step(con: &mut Connection) -> (r: DispatchOutcome)
    ensures
        final(con)@ == spec_dispatch_post(old(con)@),
        final(con).active == Database::MESSAGE,
        final(con).now == old(con).now,
        final(con).subscribers == old(con).subscribers,
        final(con).messages_list == old(con).messages_list,
        final(con).stream == old(con).stream,
        final(con).wf() == old(con).wf(),
        (r is Idle) == (old(con)@.queue.len() == 0),
        old(con)@.queue.len() > 0 ==> ((r is Duplicate) == sv_marker_live(
            old(con)@,
            old(con)@.queue[0].id,
        )),
        old(con)@.queue.len() > 0 && !sv_marker_live(old(con)@, old(con)@.queue[0].id) ==> ((
        r is Suppressed) == !spec_flag_on(old(con)@)),
        match r {
            DispatchOutcome::Deliver { sends } => sends@.map_values(|s: Send| s@)
                == spec_dispatch_sends(old(con)@),
            _ => spec_dispatch_sends(old(con)@).len() == 0,
        },
{
    let ghost sv = old(con)@;
    let message = match read_message(con) {
        None => {
            proof {
                assert(final(con)@ =~= spec_dispatch_post(sv));
            }
            return DispatchOutcome::Idle;
        },
        Some(m) => m,
    };
    proof {
        assert(sv.queue.len() > 0);
        assert(message@ == sv.queue[0]);
        assert(con.deals@.map_values(|m: Message| m@) =~= sv.queue.skip(1));
    }
    if marker_exists(con, message.id.as_str()) {
        proof {
            lemma_marker_live_view(*con, message.id@);
            assert(con@ =~= (StoreView { queue: sv.queue.skip(1), ..sv }));
            assert(con@ == spec_dispatch_post(sv));
        }
        return DispatchOutcome::Duplicate;
    }
    proof {
        lemma_marker_live_view(*con, message.id@);
        assert(!sv_marker_live(sv, sv.queue[0].id));
    }
    let ghost pre_mark = *con;
    marker_set(con, message.id.as_str());
    proof {
        assert(con@.markers =~= pre_mark@.markers.insert(
            message.id@,
            spec_marker_expiry(sv.now),
        )) by {
            assert(forall|x: Seq<char>|
                spec_markers_get(con.markers@, x) == if x == message.id@ {
                    Some(spec_marker_expiry(sv.now))
                } else {
                    spec_markers_get(pre_mark.markers@, x)
                });
        }
        assert(con@ =~= (StoreView {
            markers: sv.markers.insert(message.id@, spec_marker_expiry(sv.now)),
            queue: sv.queue.skip(1),
            ..sv
        }));
    }
    let ghost sv2 = con@;
    let flag = get_config(con, Config::OperationalKey, Database::MESSAGE);
    let operational = match &flag {
        Some(v) => str_eq(v.as_str(), "1"),
        None => true,
    };
    proof {
        assert(con@ =~= sv2);
        assert(operational == spec_flag_on(sv));
    }
    if !operational {
        proof {
            assert(con@ == spec_dispatch_post(sv));
        }
        return DispatchOutcome::Suppressed;
    }
    let _ = increase_config_value(con, Config::DealsSentKey, Database::MESSAGE, 1);
    proof {
        assert(spec_config_get(con.config, Config::OperationalKey) == spec_config_get(
            pre_mark.config,
            Config::OperationalKey,
        ));
        assert(spec_config_get(con.config, Config::MessagesSentKey) == spec_config_get(
            pre_mark.config,
            Config::MessagesSentKey,
        ));
        assert(con@ =~= (StoreView { deals_sent: spec_incr(sv.deals_sent, 1), ..sv2 }));
    }
    let ghost sv3 = con@;
    let subs = match get_subscribers(con) {
        Ok(s) => s,
        Err(_) => {
            proof {
                assert(false);
            }
            Vec::new()
        },
    };
    select(con, Database::MESSAGE);
    proof {
        assert(con@ =~= sv3);
        assert(subs@.map_values(|s: Subscriber| s@) =~= spec_directory(con.subscribers@));
        assert(spec_directory(con.subscribers@) =~= sv.directory);
    }
    let sends = fanout(&subs, &message);
    proof {
        assert(con@ == spec_dispatch_post(sv));
        assert(sends@.map_values(|s: Send| s@) == spec_dispatch_sends(sv));
    }
    DispatchOutcome::Deliver { sends }
}

/// Books the deliveries that were actually performed: the messages-sent
/// counter moves by exactly the delivered count, once per envelope.
pub fn record_messages_sent(con: &mut Connection, delivered: u8) -> (r: Result<(), RedisError>)
    ensures
        r is Ok,
        final(con).now == old(con).now,
        final(con).subscribers == old(con).subscribers,
        final(con).markers == old(con).markers,
        final(con).deals == old(con).deals,
        final(con).messages_list == old(con).messages_list,
        final(con).stream == old(con).stream,
        final(con).active == Database::MESSAGE,
        final(con).wf() == old(con).wf(),
        final(con)@ == (StoreView {
            messages_sent: spec_incr(old(con)@.messages_sent, delivered as nat),
            ..old(con)@
        }),
{
    let r = increase_config_value(con, Config::MessagesSentKey, Database::MESSAGE, delivered);
    proof {
        assert(final(con)@ =~= (StoreView {
            messages_sent: spec_incr(old(con)@.messages_sent, delivered as nat),
            ..old(con)@
        }));
    }
    r
}

} // verus!
