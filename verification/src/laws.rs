//! The guarantees the pipeline gives, stated and proved over the store view
//! and the transition functions of the dispatcher: idempotent delivery,
//! queue order, the category filter, the operational kill-switch, and the
//! monotone delivery counters.
use vstd::prelude::*;
use crate::dec::{spec_dec, lemma_dec_round_trip};
use crate::message::MessageView;
use crate::pipeline::{
    spec_dispatch_post, spec_dispatch_sends, spec_fanout, spec_filter_allows, spec_flag_on,
    spec_message_text, SendView,
};
use crate::store::{spec_incr, spec_marker_expiry, sv_marker_live, StoreView, SubscriberView};

verus! {

/// How many of the planned deliveries go to one recipient.
pub open spec fn spec_count_to(sends: Seq<SendView>, chat: Seq<char>) -> nat
    decreases sends.len(),
{
    if sends.len() == 0 {
        0
    } else {
        (if sends[0].chat_id == chat {
            1nat
        } else {
            0nat
        }) + spec_count_to(sends.skip(1), chat)
    }
}

proof fn lemma_count_concat(a: Seq<SendView>, b: Seq<SendView>, chat: Seq<char>)
    ensures
        spec_count_to(a + b, chat) == spec_count_to(a, chat) + spec_count_to(b, chat),
    decreases a.len(),
{
    if a.len() == 0 {
        assert(a + b =~= b);
    } else {
        assert((a + b)[0] == a[0]);
        assert((a + b).skip(1) =~= a.skip(1) + b);
        lemma_count_concat(a.skip(1), b, chat);
    }
}

proof fn lemma_fanout_absent(dir: Seq<SubscriberView>, m: MessageView, chat: Seq<char>)
    requires
        forall|j: int| 0 <= j < dir.len() ==> dir[j].chat_id != chat,
    ensures
        spec_count_to(spec_fanout(dir, m), chat) == 0,
    decreases dir.len(),
{
    if dir.len() > 0 {
        assert(forall|j: int| 0 <= j < dir.len() - 1 ==> dir.skip(1)[j] == dir[j + 1]);
        lemma_fanout_absent(dir.skip(1), m, chat);
        if spec_filter_allows(dir[0].categories, m.payload.category) {
            let head = seq![SendView { chat_id: dir[0].chat_id, text: spec_message_text(m) }];
            lemma_count_concat(head, spec_fanout(dir.skip(1), m), chat);
            assert(head.skip(1) =~= Seq::<SendView>::empty());
            assert(spec_count_to(head.skip(1), chat) == 0);
            assert(spec_count_to(head, chat) == 0);
        }
    }
}

/// Category filter: a recipient whose filter names the event's category is
/// planned exactly one delivery of the formatted text; one whose filter does
/// not name it is planned none; a recipient without a filter is planned
/// exactly one whatever the category.
pub proof fn lemma_fanout_membership(dir: Seq<SubscriberView>, m: MessageView, i: int)
    requires
        0 <= i < dir.len(),
        forall|j: int| 0 <= j < dir.len() && j != i ==> dir[j].chat_id != dir[i].chat_id,
    ensures
        spec_count_to(spec_fanout(dir, m), dir[i].chat_id) == if spec_filter_allows(
            dir[i].categories,
            m.payload.category,
        ) {
            1nat
        } else {
            0nat
        },
        spec_filter_allows(dir[i].categories, m.payload.category) ==> spec_fanout(
            dir,
            m,
        ).contains(SendView { chat_id: dir[i].chat_id, text: spec_message_text(m) }),
    decreases i,
{
    let chat = dir[i].chat_id;
    let rest = spec_fanout(dir.skip(1), m);
    assert(forall|j: int| 0 <= j < dir.len() - 1 ==> dir.skip(1)[j] == dir[j + 1]);
    if i == 0 {
        lemma_fanout_absent(dir.skip(1), m, chat);
        if spec_filter_allows(dir[0].categories, m.payload.category) {
            let send = SendView { chat_id: chat, text: spec_message_text(m) };
            let head = seq![send];
            lemma_count_concat(head, rest, chat);
            assert(head.skip(1) =~= Seq::<SendView>::empty());
            assert(spec_count_to(head.skip(1), chat) == 0);
            assert(spec_count_to(head, chat) == 1);
            assert(spec_fanout(dir, m)[0] == send);
        }
    } else {
        lemma_fanout_membership(dir.skip(1), m, i - 1);
        assert(dir.skip(1)[i - 1] == dir[i]);
        let send = SendView { chat_id: chat, text: spec_message_text(m) };
        if spec_filter_allows(dir[0].categories, m.payload.category) {
            let head = seq![SendView { chat_id: dir[0].chat_id, text: spec_message_text(m) }];
            lemma_count_concat(head, rest, chat);
            assert(head.skip(1) =~= Seq::<SendView>::empty());
            assert(spec_count_to(head.skip(1), chat) == 0);
            assert(spec_count_to(head, chat) == 0);
            if rest.contains(send) {
                let k = choose|k: int| 0 <= k < rest.len() && rest[k] == send;
                assert(spec_fanout(dir, m)[k + 1] == send);
            }
        } else {
            if rest.contains(send) {
                let k = choose|k: int| 0 <= k < rest.len() && rest[k] == send;
                assert(spec_fanout(dir, m)[k] == send);
            }
        }
    }
}

/// No-filter subscriber: a recipient without a category filter is planned a
/// delivery of every event, whatever its category.
pub proof fn lemma_no_filter_receives(dir: Seq<SubscriberView>, m: MessageView, i: int)
    requires
        0 <= i < dir.len(),
        dir[i].categories is None,
        forall|j: int| 0 <= j < dir.len() && j != i ==> dir[j].chat_id != dir[i].chat_id,
    ensures
        spec_fanout(dir, m).contains(
            SendView { chat_id: dir[i].chat_id, text: spec_message_text(m) },
        ),
        spec_count_to(spec_fanout(dir, m), dir[i].chat_id) == 1,
{
    lemma_fanout_membership(dir, m, i);
}

/// Queue order: the dispatcher always consumes the head of the queue, so
/// two envelopes appended in order are handled in that order.
pub proof fn lemma_fifo_order(sv: StoreView, e1: MessageView, e2: MessageView)
    requires
        sv.queue == seq![e1, e2],
    ensures
        spec_dispatch_post(sv).queue == seq![e2],
        spec_dispatch_post(spec_dispatch_post(sv)).queue == Seq::<MessageView>::empty(),
{
    assert(sv.queue[0] == e1);
    assert(sv.queue.skip(1) =~= seq![e2]);
    let sv1 = spec_dispatch_post(sv);
    assert(sv1.queue == seq![e2]);
    assert(sv1.queue[0] == e2);
    assert(sv1.queue.skip(1) =~= Seq::<MessageView>::empty());
}

/// Operational gate: with the flag disabled the dispatcher plans no
/// delivery and leaves both counters untouched, yet still writes the
/// idempotency marker, so the event is not redelivered once the flag is
/// enabled again.
pub proof fn lemma_operational_gate(sv: StoreView)
    requires
        sv.queue.len() > 0,
        !sv_marker_live(sv, sv.queue[0].id),
        !spec_flag_on(sv),
        sv.now < u64::MAX,
    ensures
        spec_dispatch_sends(sv).len() == 0,
        spec_dispatch_post(sv).messages_sent == sv.messages_sent,
        spec_dispatch_post(sv).deals_sent == sv.deals_sent,
        sv_marker_live(spec_dispatch_post(sv), sv.queue[0].id),
{
    let post = spec_dispatch_post(sv);
    assert(post.markers.contains_key(sv.queue[0].id));
    assert(post.markers[sv.queue[0].id] == spec_marker_expiry(sv.now));
    assert(spec_marker_expiry(sv.now) > sv.now);
}

/// A live marker for the head envelope's id makes the step a pure drop: no
/// delivery is planned and the marker map does not change.
pub proof fn lemma_marked_suppresses(sv: StoreView, id: Seq<char>)
    requires
        sv.queue.len() > 0,
        sv.queue[0].id == id,
        sv_marker_live(sv, id),
    ensures
        spec_dispatch_sends(sv).len() == 0,
        spec_dispatch_post(sv).markers == sv.markers,
        spec_dispatch_post(sv).now == sv.now,
        forall|i: int| 0 <= i < sv.queue.len() - 1 ==> spec_dispatch_post(sv).queue[i]
            == sv.queue[i + 1],
{
}

/// The deliveries planned over a run of dispatcher steps, in order.
pub open spec fn spec_run_sends(sv: StoreView, k: nat) -> Seq<SendView>
    decreases k,
{
    if k == 0 {
        Seq::<SendView>::empty()
    } else {
        spec_dispatch_sends(sv) + spec_run_sends(spec_dispatch_post(sv), (k - 1) as nat)
    }
}

proof fn lemma_run_all_marked(sv: StoreView, id: Seq<char>, k: nat)
    requires
        forall|i: int| 0 <= i < sv.queue.len() ==> sv.queue[i].id == id,
        sv_marker_live(sv, id),
    ensures
        spec_run_sends(sv, k) == Seq::<SendView>::empty(),
    decreases k,
{
    if k > 0 {
        let post = spec_dispatch_post(sv);
        if sv.queue.len() == 0 {
            lemma_run_all_marked(post, id, (k - 1) as nat);
        } else {
            assert(spec_dispatch_sends(sv) =~= Seq::<SendView>::empty());
            assert(forall|i: int| 0 <= i < post.queue.len() ==> post.queue[i] == sv.queue[i + 1]);
            lemma_run_all_marked(post, id, (k - 1) as nat);
        }
        assert(Seq::<SendView>::empty() + Seq::<SendView>::empty() =~= Seq::<
            SendView,
        >::empty());
    }
}

/// Idempotency: when every queued envelope carries the same id, a run of
/// any number of dispatcher steps plans at most one delivery per recipient,
/// however often the id was submitted: the first step that handles the id
/// writes its marker, and every later step drops the envelope.
pub proof fn lemma_idempotency(sv: StoreView, id: Seq<char>, k: nat, i: int)
    requires
        forall|j: int| 0 <= j < sv.queue.len() ==> sv.queue[j].id == id,
        sv.now < u64::MAX,
        0 <= i < sv.directory.len(),
        forall|j: int|
            0 <= j < sv.directory.len() && j != i ==> sv.directory[j].chat_id
                != sv.directory[i].chat_id,
    ensures
        spec_count_to(spec_run_sends(sv, k), sv.directory[i].chat_id) <= 1,
    decreases k,
{
    let chat = sv.directory[i].chat_id;
    if k > 0 {
        let post = spec_dispatch_post(sv);
        if sv.queue.len() == 0 {
            assert(spec_dispatch_sends(sv) =~= Seq::<SendView>::empty());
            lemma_count_concat(spec_dispatch_sends(sv), spec_run_sends(post, (k - 1) as nat), chat);
            lemma_idempotency(post, id, (k - 1) as nat, i);
        } else if sv_marker_live(sv, id) {
            lemma_run_all_marked(sv, id, k);
        } else {
            assert(sv_marker_live(post, id)) by {
                assert(post.markers.contains_key(id));
                assert(post.markers[id] == spec_marker_expiry(sv.now));
                assert(spec_marker_expiry(sv.now) > sv.now);
            }
            assert(forall|j: int| 0 <= j < post.queue.len() ==> post.queue[j] == sv.queue[j + 1]);
            lemma_run_all_marked(post, id, (k - 1) as nat);
            lemma_count_concat(spec_dispatch_sends(sv), spec_run_sends(post, (k - 1) as nat), chat);
            if spec_flag_on(sv) {
                lemma_fanout_membership(sv.directory, sv.queue[0], i);
            } else {
                assert(spec_dispatch_sends(sv) =~= Seq::<SendView>::empty());
            }
        }
    }
}

/// The sum of a run of per-envelope delivery counts.
pub open spec fn spec_sum(ds: Seq<nat>) -> nat
    decreases ds.len(),
{
    if ds.len() == 0 {
        0
    } else {
        ds[0] + spec_sum(ds.skip(1))
    }
}

/// The counter value after booking a run of per-envelope delivery counts.
pub open spec fn spec_fold_incr(cur: Option<Seq<char>>, ds: Seq<nat>) -> Option<Seq<char>>
    decreases ds.len(),
{
    if ds.len() == 0 {
        cur
    } else {
        spec_fold_incr(spec_incr(cur, ds[0]), ds.skip(1))
    }
}

/// One booking moves a numeric counter by exactly the amount.
pub proof fn lemma_incr_exact(cur: Option<Seq<char>>, n: u64, a: nat)
    requires
        cur == Some(spec_dec(n as nat)),
        n + a <= u64::MAX,
    ensures
        spec_incr(cur, a) == Some(spec_dec((n + a) as nat)),
{
    lemma_dec_round_trip(n);
}

/// Counter monotonicity: booking a batch of envelopes, each with the number
/// of deliveries actually performed, moves the messages-sent counter by
/// exactly the total of those counts, never by more.
pub proof fn lemma_counter_batch(n: u64, ds: Seq<nat>)
    requires
        n + spec_sum(ds) <= u64::MAX,
    ensures
        spec_fold_incr(Some(spec_dec(n as nat)), ds) == Some(
            spec_dec((n + spec_sum(ds)) as nat),
        ),
    decreases ds.len(),
{
    if ds.len() > 0 {
        assert(spec_sum(ds) == ds[0] + spec_sum(ds.skip(1)));
        lemma_incr_exact(Some(spec_dec(n as nat)), n, ds[0]);
        lemma_counter_batch((n + ds[0]) as u64, ds.skip(1));
    }
}

} // verus!
