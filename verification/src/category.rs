//! The canonical deal categories and the fuzzy matching of free-text names
//! onto them.
use vstd::prelude::*;
use vstd::string::*;
use fuzzy_matcher::FuzzyMatcher;
use crate::text::{lower_of, lowercase};

verus! {

/// The canonical category names, in their fixed order.
pub open spec fn spec_categories() -> Seq<Seq<char>> {
    seq![
        "Elektronica"@,
        "Gaming"@,
        "Boodschappen"@,
        "Mode & Accessoires"@,
        "Beauty & Gezondheid"@,
        "Familie & Kinderen"@,
        "Home & Living"@,
        "Tuin & Doe-het-zelf"@,
        "Auto & Motor"@,
        "Cultuur & Vrije tijd"@,
        "Sport & Outdoor"@,
        "Telecom & Internet"@,
        "Geldzaken & Verzekeringen"@,
        "Services & Contracten"@,
    ]
}

/// The canonical category names a recipient can sign up for.
pub fn categories() -> (v: Vec<&'static str>)
    ensures
        v@.map_values(|p: &'static str| p@) == spec_categories(),
{
    let mut v: Vec<&'static str> = Vec::new();
    v.push("Elektronica");
    v.push("Gaming");
    v.push("Boodschappen");
    v.push("Mode & Accessoires");
    v.push("Beauty & Gezondheid");
    v.push("Familie & Kinderen");
    v.push("Home & Living");
    v.push("Tuin & Doe-het-zelf");
    v.push("Auto & Motor");
    v.push("Cultuur & Vrije tijd");
    v.push("Sport & Outdoor");
    v.push("Telecom & Internet");
    v.push("Geldzaken & Verzekeringen");
    v.push("Services & Contracten");
    proof {
        assert(v@.map_values(|p: &'static str| p@) =~= spec_categories());
    }
    v
}

/// The score the fuzzy matcher gives `pattern` against `choice` under its
/// default configuration; a score at all means the pattern matches.
pub uninterp spec fn fuzzy_score(choice: Seq<char>, pattern: Seq<char>) -> Option<i64>;

/// Relies on fuzzy_matcher's SkimMatcherV2::fuzzy_match under the default
/// configuration: the score is a function of the two strings alone, present
/// exactly when the pattern fuzzy-matches the choice.
#[verifier::external_body]
fn fuzzy_match_score(choice: &str, pattern: &str) -> (r: Option<i64>)
    ensures
        r == fuzzy_score(choice@, pattern@),
{
    fuzzy_matcher::skim::SkimMatcherV2::default().fuzzy_match(choice, pattern)
}

/// The first canonical category the text fuzzy-matches, lowercased.
pub open spec fn spec_match_from(cats: Seq<Seq<char>>, pattern: Seq<char>) -> Option<Seq<char>>
    decreases cats.len(),
{
    if cats.len() == 0 {
        None
    } else if fuzzy_score(cats[0], pattern) is Some {
        Some(lower_of(cats[0]))
    } else {
        spec_match_from(cats.skip(1), pattern)
    }
}

/// What matching free text against the canonical categories yields: nothing
/// for empty text, else the first category the text fuzzy-matches, in its
/// lowercase form.
pub open spec fn spec_match_category(pattern: Seq<char>) -> Option<Seq<char>> {
    if pattern.len() == 0 {
        None
    } else {
        spec_match_from(spec_categories(), pattern)
    }
}

pub open spec fn opt_string_view(o: Option<String>) -> Option<Seq<char>> {
    match o {
        None => None,
        Some(s) => Some(s@),
    }
}

/// Maps free text onto the canonical category it fuzzy-matches, if any.
pub fn match_category(category: &str) -> (r: Option<String>)
    ensures
        opt_string_view(r) == spec_match_category(category@),
{
    if category.unicode_len() == 0 {
        return None;
    }
    let cats = categories();
    let ghost views = cats@.map_values(|p: &'static str| p@);
    let n = cats.len();
    let mut i: usize = 0;
    proof {
        assert(views.skip(0) =~= views);
    }
    while i < n
        invariant
            0 <= i <= n,
            n == cats@.len(),
            views == cats@.map_values(|p: &'static str| p@),
            views == spec_categories(),
            spec_match_from(views, category@) == spec_match_from(
                views.skip(i as int),
                category@,
            ),
            forall|k: int| 0 <= k < i ==> fuzzy_score(views[k], category@) is None,
            category@.len() > 0,
        decreases n - i,
    {
        proof {
            let rest = views.skip(i as int);
            assert(rest[0] == views[i as int]);
            assert(rest.skip(1) =~= views.skip(i + 1));
        }
        if fuzzy_match_score(cats[i], category).is_some() {
            return Some(lowercase(cats[i]));
        }
        i = i + 1;
    }
    proof {
        assert(views.skip(n as int) =~= Seq::<Seq<char>>::empty());
    }
    None
}

} // verus!
