//! The event and envelope types that travel from the feed poller through the
//! queue to the dispatcher.
use vstd::prelude::*;
use vstd::string::*;

verus! {

/// How the queue layer can fail: the backing store refused an operation, or
/// an envelope could not be rendered for the wire.
#[derive(Debug)]
pub enum MessageError {
    RedisError,
    ParseError,
}

impl MessageError {
    /// A short description of the failure.
    pub fn message(&self) -> (r: &'static str)
        ensures
            r@ == match *self {
                MessageError::RedisError => "redis operation failed"@,
                MessageError::ParseError => "message could not be rendered"@,
            },
    {
        match *self {
            MessageError::RedisError => "redis operation failed",
            MessageError::ParseError => "message could not be rendered",
        }
    }
}

/// One observed feed item: the link doubles as the idempotency key.
pub struct Deal {
    pub link: String,
    pub category: String,
    pub title: String,
}

pub ghost struct DealView {
    pub link: Seq<char>,
    pub category: Seq<char>,
    pub title: Seq<char>,
}

impl View for Deal {
    type V = DealView;

    open spec fn view(&self) -> DealView {
        DealView { link: self.link@, category: self.category@, title: self.title@ }
    }
}

impl Deal {
    pub fn new(link: String, category: String, title: String) -> (d: Deal)
        ensures
            d@ == (DealView { link: link@, category: category@, title: title@ }),
    {
        Deal { link, category, title }
    }
}

/// The envelope placed on the queue: the deal plus its idempotency key and
/// the name of the list that carries it.
pub struct Message {
    pub id: String,
    pub list: String,
    pub payload: Deal,
}

pub ghost struct MessageView {
    pub id: Seq<char>,
    pub list: Seq<char>,
    pub payload: DealView,
}

impl View for Message {
    type V = MessageView;

    open spec fn view(&self) -> MessageView {
        MessageView { id: self.id@, list: self.list@, payload: self.payload@ }
    }
}

/// The fixed name of the list the producer pushes envelopes onto.
pub fn list_name() -> (r: &'static str)
    ensures
        r@ == "deals"@,
{
    "deals"
}

impl Message {
    /// Wraps a deal for the queue; the deal's link becomes the envelope id.
    pub fn new(payload: Deal) -> (m: Message)
        ensures
            m@ == (MessageView { id: payload@.link, list: "deals"@, payload: payload@ }),
    {
        let id = payload.link.clone();
        Message { id, list: list_name().to_owned(), payload }
    }
}

} // verus!
