//! The pure half of the feed site's HTTP client: the endpoint it targets
//! and the normalisation of cookie headers for replay. The requests
//! themselves are I/O and live with the transport.
use vstd::prelude::*;
use vstd::string::*;
use crate::text::{lemma_split_len, split_on_char, spec_split, spec_trim, trim_str};

verus! {

/// Where the feed site's query interface lives.
pub struct PepperRequest {
    pub base: &'static str,
    pub graphql_endpoint: &'static str,
}

impl PepperRequest {
    pub fn new() -> (r: PepperRequest)
        ensures
            r.base@ == "https://nl.pepper.com"@,
            r.graphql_endpoint@ == "/graphql"@,
    {
        PepperRequest { base: "https://nl.pepper.com", graphql_endpoint: "/graphql" }
    }

    /// The full query endpoint.
    pub fn get_endpoint(&self) -> (r: String)
        ensures
            r@ == self.base@ + self.graphql_endpoint@,
    {
        let mut r = String::new();
        r.append(self.base);
        r.append(self.graphql_endpoint);
        r
    }
}

/// What one received cookie header contributes to the replayed cookies: its
/// first attribute, trimmed, with a closing semicolon.
pub open spec fn spec_cookie_prefix(v: Seq<char>) -> Seq<char> {
    spec_trim(spec_split(v, ';')[0]) + ";"@
}

/// Normalises one received cookie header for replay.
pub fn cookie_prefix(v: &str) -> (r: String)
    ensures
        r@ == spec_cookie_prefix(v@),
{
    let pieces = split_on_char(v, ';');
    proof {
        lemma_split_len(v@, ';');
        assert(pieces@.map_values(|p: String| p@)[0] == pieces@[0]@);
    }
    let mut r = trim_str(pieces[0].as_str());
    r.append(";");
    r
}

} // verus!
