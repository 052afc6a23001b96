//! Filling the dashboard template: the three placeholders are replaced by
//! the live subscriber count and the two delivery counters.
use vstd::prelude::*;
use vstd::string::*;
use crate::dec::{spec_dec, u64_to_dec};
use crate::text::{replace_all, spec_replace};

verus! {

/// The template with every placeholder replaced: the subscriber count in
/// decimal, then the messages-sent and deals-sent counter values as the
/// store holds them; missing template contents degrade to the empty page.
pub open spec fn spec_template(
    contents: Option<Seq<char>>,
    subscriber_count: nat,
    message_count: Seq<char>,
    deals_count: Seq<char>,
) -> Seq<char> {
    let c = match contents {
        Some(c) => c,
        None => Seq::<char>::empty(),
    };
    spec_replace(
        spec_replace(
            spec_replace(c, "__SUBSCRIBER_COUNT__"@, spec_dec(subscriber_count)),
            "__MESSAGES_SENT__"@,
            message_count,
        ),
        "__DEALS_SENT__"@,
        deals_count,
    )
}

pub open spec fn spec_opt_contents(contents: Option<&str>) -> Option<Seq<char>> {
    match contents {
        None => None,
        Some(c) => Some(c@),
    }
}

/// Fills the dashboard template from the live counts.
pub fn set_template_values(
    contents: Option<&str>,
    subscriber_count: usize,
    message_count: &str,
    deals_count: &str,
) -> (r: String)
    ensures
        r@ == spec_template(
            spec_opt_contents(contents),
            subscriber_count as nat,
            message_count@,
            deals_count@,
        ),
{
    proof {
        reveal_strlit("__SUBSCRIBER_COUNT__");
        reveal_strlit("__MESSAGES_SENT__");
        reveal_strlit("__DEALS_SENT__");
    }
    let c: &str = match contents {
        Some(c) => c,
        None => "",
    };
    proof {
        reveal_strlit("");
        assert(""@ =~= Seq::<char>::empty());
    }
    let count = u64_to_dec(subscriber_count as u64);
    let s1 = replace_all(c, "__SUBSCRIBER_COUNT__", count.as_str());
    let s2 = replace_all(s1.as_str(), "__MESSAGES_SENT__", message_count);
    replace_all(s2.as_str(), "__DEALS_SENT__", deals_count)
}

} // verus!
