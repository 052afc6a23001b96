//! Verified text utilities shared by the pipeline: substring comparison and
//! textual replacement, specified over the character sequences of the inputs.
use vstd::prelude::*;
use vstd::string::*;

verus! {

/// Relies on std's String::push: appends exactly the one character.
#[verifier::external_body]
pub fn push_char(s: &mut String, c: char)
    ensures
        final(s)@ == old(s)@.push(c),
{
    s.push(c);
}

/// Whether the characters of `pat` occur in `s` starting at position `i`.
pub open spec fn spec_matches_at(s: Seq<char>, i: int, pat: Seq<char>) -> bool {
    &&& 0 <= i
    &&& i + pat.len() <= s.len()
    &&& s.subrange(i, i + pat.len() as int) == pat
}

/// Compares the characters of `s` starting at `i` against `pat`.
pub fn substring_eq_at(s: &str, i: usize, pat: &str) -> (r: bool)
    ensures
        r == spec_matches_at(s@, i as int, pat@),
{
    let sl = s.unicode_len();
    let pl = pat.unicode_len();
    if pl > sl || i > sl - pl {
        assert(!spec_matches_at(s@, i as int, pat@));
        return false;
    }
    let mut j: usize = 0;
    while j < pl
        invariant
            0 <= j <= pl,
            i + pl <= sl,
            sl == s@.len(),
            pl == pat@.len(),
            forall|k: int| 0 <= k < j ==> s@[i + k] == pat@[k],
        decreases pl - j,
    {
        if s.get_char(i + j) != pat.get_char(j) {
            assert(s@.subrange(i as int, i + pl) != pat@) by {
                assert(s@.subrange(i as int, i + pl)[j as int] == s@[i + j]);
            }
            return false;
        }
        j = j + 1;
    }
    assert(s@.subrange(i as int, i + pl) =~= pat@);
    true
}

/// Compares two pieces of text character by character.
pub fn str_eq(a: &str, b: &str) -> (r: bool)
    ensures
        r == (a@ == b@),
{
    let la = a.unicode_len();
    let lb = b.unicode_len();
    if la != lb {
        return false;
    }
    let r = substring_eq_at(a, 0, b);
    proof {
        if r {
            assert(a@.subrange(0, lb as int) =~= a@);
        } else {
            if a@ == b@ {
                assert(a@.subrange(0, lb as int) =~= b@);
            }
        }
    }
    r
}

/// Whether `pat` occurs anywhere in `s`.
pub open spec fn spec_contains(s: Seq<char>, pat: Seq<char>) -> bool {
    exists|i: int| spec_matches_at(s, i, pat)
}

/// Looks for `pat` anywhere in `s`.
pub fn contains_str(s: &str, pat: &str) -> (r: bool)
    ensures
        r == spec_contains(s@, pat@),
{
    let sl = s.unicode_len();
    let pl = pat.unicode_len();
    if pl == 0 {
        proof {
            assert(s@.subrange(0, 0) =~= pat@);
            assert(spec_matches_at(s@, 0, pat@));
        }
        return true;
    }
    if pl > sl {
        return false;
    }
    let mut i: usize = 0;
    while i <= sl - pl
        invariant
            0 <= i <= sl - pl + 1,
            1 <= pl <= sl,
            sl == s@.len(),
            pl == pat@.len(),
            forall|k: int| 0 <= k < i ==> !spec_matches_at(s@, k, pat@),
        decreases sl - i,
    {
        if substring_eq_at(s, i, pat) {
            return true;
        }
        i = i + 1;
    }
    false
}

/// `s` with every occurrence of `from` replaced by `to`, scanning left to
/// right and never revisiting replaced text, as std's String::replace does.
pub open spec fn spec_replace(s: Seq<char>, from: Seq<char>, to: Seq<char>) -> Seq<char>
    recommends
        from.len() > 0,
    decreases s.len(),
{
    if s.len() == 0 {
        s
    } else if 0 < from.len() <= s.len() && s.subrange(0, from.len() as int) == from {
        to + spec_replace(s.skip(from.len() as int), from, to)
    } else {
        seq![s[0]] + spec_replace(s.skip(1), from, to)
    }
}

/// Replaces every occurrence of `from` in `s` by `to`.
pub fn replace_all(s: &str, from: &str, to: &str) -> (r: String)
    requires
        from@.len() > 0,
    ensures
        r@ == spec_replace(s@, from@, to@),
{
    let mut out = String::new();
    let sl = s.unicode_len();
    let fl = from.unicode_len();
    let mut i: usize = 0;
    proof {
        assert(s@.skip(0) =~= s@);
        assert(Seq::<char>::empty() + spec_replace(s@, from@, to@) =~= spec_replace(
            s@,
            from@,
            to@,
        ));
    }
    while i < sl
        invariant
            0 <= i <= sl,
            sl == s@.len(),
            fl == from@.len(),
            fl > 0,
            spec_replace(s@, from@, to@) == out@ + spec_replace(
                s@.skip(i as int),
                from@,
                to@,
            ),
        decreases sl - i,
    {
        let ghost rest = s@.skip(i as int);
        if substring_eq_at(s, i, from) {
            proof {
                assert(rest.subrange(0, fl as int) =~= s@.subrange(i as int, i + fl));
                assert(rest.skip(fl as int) =~= s@.skip(i + fl));
            }
            out.append(to);
            i = i + fl;
        } else {
            proof {
                assert(rest.len() > 0);
                if 0 < fl <= rest.len() && rest.subrange(0, fl as int) == from@ {
                    assert(rest.subrange(0, fl as int) =~= s@.subrange(
                        i as int,
                        i + fl,
                    ));
                    assert(false);
                }
                assert(rest[0] == s@[i as int]);
                assert(rest.skip(1) =~= s@.skip(i + 1));
            }
            push_char(&mut out, s.get_char(i));
            i = i + 1;
        }
    }
    proof {
        assert(s@.skip(sl as int) =~= Seq::<char>::empty());
        assert(out@ + Seq::<char>::empty() =~= out@);
    }
    out
}

/// Whether a character counts as white space; what std's char::is_whitespace
/// answers, beyond ASCII.
pub uninterp spec fn space_char(c: char) -> bool;

/// Whether a character is a letter or a digit; what std's
/// char::is_alphanumeric answers, beyond ASCII.
pub uninterp spec fn alnum_char(c: char) -> bool;

/// Relies on char::is_whitespace: true exactly for the characters with the
/// Unicode White_Space property, a function of the character alone; among
/// ASCII these are space, tab, line feed, vertical tab, form feed and
/// carriage return.
#[verifier::external_body]
pub fn is_space_char(c: char) -> (r: bool)
    ensures
        r == space_char(c),
        (c as u32) < 128 ==> r == (c == ' ' || c == '\t' || c == '\n' || c == '\u{0b}' || c
            == '\u{0c}' || c == '\r'),
{
    c.is_whitespace()
}

/// Relies on char::is_alphanumeric: true exactly for Unicode alphabetic and
/// numeric characters, a function of the character alone; among ASCII these
/// are the letters and the digits.
#[verifier::external_body]
pub fn is_alnum_char(c: char) -> (r: bool)
    ensures
        r == alnum_char(c),
        (c as u32) < 128 ==> r == ((97 <= c as u32 && c as u32 <= 122) || (65 <= c as u32 && c
            as u32 <= 90) || (48 <= c as u32 && c as u32 <= 57)),
{
    c.is_alphanumeric()
}

/// The lowercase form of a piece of text; what std's str::to_lowercase
/// yields.
pub uninterp spec fn lower_of(s: Seq<char>) -> Seq<char>;

/// Relies on str::to_lowercase: the result is a function of the characters
/// alone, and an empty input stays empty.
#[verifier::external_body]
pub fn lowercase(s: &str) -> (r: String)
    ensures
        r@ == lower_of(s@),
        s@.len() == 0 ==> r@.len() == 0,
{
    s.to_lowercase()
}

/// Looks for a piece of text among the values of a vector.
pub fn vec_contains_str(v: &Vec<String>, s: &str) -> (r: bool)
    ensures
        r == v@.map_values(|p: String| p@).contains(s@),
{
    let ghost views = v@.map_values(|p: String| p@);
    let n = v.len();
    let mut i: usize = 0;
    while i < n
        invariant
            0 <= i <= n,
            n == v@.len(),
            views == v@.map_values(|p: String| p@),
            forall|k: int| 0 <= k < i ==> views[k] != s@,
        decreases n - i,
    {
        if str_eq(v[i].as_str(), s) {
            proof {
                assert(views.contains(s@)) by {
                    assert(views[i as int] == s@);
                }
            }
            return true;
        }
        i = i + 1;
    }
    proof {
        if views.contains(s@) {
            let k = choose|k: int| 0 <= k < views.len() && views[k] == s@;
            assert(false);
        }
    }
    false
}

/// `s` without leading white space.
pub open spec fn spec_trim_start(s: Seq<char>) -> Seq<char>
    decreases s.len(),
{
    if s.len() > 0 && space_char(s[0]) {
        spec_trim_start(s.skip(1))
    } else {
        s
    }
}

/// `s` without trailing white space.
pub open spec fn spec_trim_end(s: Seq<char>) -> Seq<char>
    decreases s.len(),
{
    if s.len() > 0 && space_char(s[s.len() - 1]) {
        spec_trim_end(s.take(s.len() - 1))
    } else {
        s
    }
}

/// `s` without leading and trailing white space, as str::trim yields it.
pub open spec fn spec_trim(s: Seq<char>) -> Seq<char> {
    spec_trim_end(spec_trim_start(s))
}

/// Removes leading and trailing white space.
pub fn trim_str(s: &str) -> (r: String)
    ensures
        r@ == spec_trim(s@),
{
    let len = s.unicode_len();
    let mut a: usize = 0;
    proof {
        assert(s@.skip(0) =~= s@);
    }
    while a < len && is_space_char(s.get_char(a))
        invariant
            0 <= a <= len,
            len == s@.len(),
            spec_trim_start(s@) == spec_trim_start(s@.skip(a as int)),
        decreases len - a,
    {
        proof {
            let rest = s@.skip(a as int);
            assert(rest[0] == s@[a as int]);
            assert(rest.skip(1) =~= s@.skip(a + 1));
        }
        a = a + 1;
    }
    proof {
        let rest = s@.skip(a as int);
        if a == len {
            assert(rest =~= Seq::<char>::empty());
        }
        assert(spec_trim_start(s@) == rest);
        assert(rest =~= s@.subrange(a as int, len as int));
    }
    let mut b: usize = len;
    while b > a && is_space_char(s.get_char(b - 1))
        invariant
            a <= b <= len,
            len == s@.len(),
            spec_trim_start(s@) == s@.subrange(a as int, len as int),
            spec_trim_end(s@.subrange(a as int, len as int)) == spec_trim_end(
                s@.subrange(a as int, b as int),
            ),
        decreases b,
    {
        proof {
            let part = s@.subrange(a as int, b as int);
            assert(part[part.len() - 1] == s@[b - 1]);
            assert(part.take(part.len() - 1) =~= s@.subrange(a as int, b - 1));
        }
        b = b - 1;
    }
    proof {
        let part = s@.subrange(a as int, b as int);
        assert(spec_trim_end(part) == part);
    }
    s.substring_char(a, b).to_owned()
}

/// The pieces laid end to end with `sep` between each two.
pub open spec fn spec_join(ps: Seq<Seq<char>>, sep: Seq<char>) -> Seq<char>
    decreases ps.len(),
{
    if ps.len() == 0 {
        Seq::<char>::empty()
    } else if ps.len() == 1 {
        ps[0]
    } else {
        ps[0] + sep + spec_join(ps.skip(1), sep)
    }
}

pub proof fn lemma_join_push(ps: Seq<Seq<char>>, sep: Seq<char>, p: Seq<char>)
    ensures
        spec_join(ps.push(p), sep) == if ps.len() == 0 {
            p
        } else {
            spec_join(ps, sep) + sep + p
        },
    decreases ps.len(),
{
    reveal_with_fuel(spec_join, 3);
    if ps.len() == 0 {
        assert(ps.push(p)[0] == p);
    } else if ps.len() == 1 {
        assert(ps.push(p).skip(1) =~= seq![p]);
        assert(ps.push(p)[0] == ps[0]);
    } else {
        lemma_join_push(ps.skip(1), sep, p);
        assert(ps.push(p).skip(1) =~= ps.skip(1).push(p));
        assert(ps.push(p)[0] == ps[0]);
        assert(ps[0] + sep + (spec_join(ps.skip(1), sep) + sep + p) =~= (ps[0] + sep
            + spec_join(ps.skip(1), sep)) + sep + p);
    }
}

/// Joins the pieces with `sep` between each two, as a slice join does.
pub fn join_strings(ps: &Vec<String>, sep: &str) -> (r: String)
    ensures
        r@ == spec_join(ps@.map_values(|p: String| p@), sep@),
{
    let mut out = String::new();
    let ghost views = ps@.map_values(|p: String| p@);
    if ps.len() == 0 {
        return out;
    }
    out.append(ps[0].as_str());
    proof {
        assert(views.take(1) =~= seq![views[0]]);
    }
    let mut i: usize = 1;
    while i < ps.len()
        invariant
            1 <= i <= ps@.len(),
            views == ps@.map_values(|p: String| p@),
            out@ == spec_join(views.take(i as int), sep@),
        decreases ps@.len() - i,
    {
        out.append(sep);
        out.append(ps[i].as_str());
        proof {
            lemma_join_push(views.take(i as int), sep@, views[i as int]);
            assert(views.take(i as int).push(views[i as int]) =~= views.take(i + 1));
        }
        i = i + 1;
    }
    proof {
        assert(views.take(ps@.len() as int) =~= views);
    }
    out
}

/// The position of the first occurrence of `sep` in `s`.
pub open spec fn spec_find(s: Seq<char>, sep: char) -> Option<int>
    decreases s.len(),
{
    if s.len() == 0 {
        None
    } else if s[0] == sep {
        Some(0int)
    } else {
        match spec_find(s.skip(1), sep) {
            None => None,
            Some(j) => Some(j + 1),
        }
    }
}

pub proof fn lemma_find_char(s: Seq<char>, sep: char)
    ensures
        match spec_find(s, sep) {
            Some(j) => 0 <= j < s.len() && s[j] == sep && forall|m: int|
                0 <= m < j ==> s[m] != sep,
            None => forall|m: int| 0 <= m < s.len() ==> s[m] != sep,
        },
    decreases s.len(),
{
    if s.len() > 0 && s[0] != sep {
        lemma_find_char(s.skip(1), sep);
        match spec_find(s.skip(1), sep) {
            Some(j) => {
                assert(s[j + 1] == s.skip(1)[j]);
                assert forall|m: int| 0 <= m < j + 1 implies s[m] != sep by {
                    if m >= 1 {
                        assert(s[m] == s.skip(1)[m - 1]);
                    }
                }
            },
            None => {
                assert forall|m: int| 0 <= m < s.len() implies s[m] != sep by {
                    if m >= 1 {
                        assert(s[m] == s.skip(1)[m - 1]);
                    }
                }
            },
        }
    }
}

pub proof fn lemma_find_char_at(s: Seq<char>, sep: char, j: int)
    requires
        0 <= j < s.len(),
        s[j] == sep,
        forall|m: int| 0 <= m < j ==> s[m] != sep,
    ensures
        spec_find(s, sep) == Some(j),
    decreases j,
{
    if j > 0 {
        lemma_find_char_at(s.skip(1), sep, j - 1);
    }
}

pub proof fn lemma_find_char_none(s: Seq<char>, sep: char)
    requires
        forall|m: int| 0 <= m < s.len() ==> s[m] != sep,
    ensures
        spec_find(s, sep) == None::<int>,
    decreases s.len(),
{
    if s.len() > 0 {
        lemma_find_char_none(s.skip(1), sep);
    }
}

/// The pieces of `s` between occurrences of `sep`, in order; an input
/// without the separator yields the one piece `s` itself.
pub open spec fn spec_split(s: Seq<char>, sep: char) -> Seq<Seq<char>>
    decreases s.len(),
    via spec_split_dec
{
    match spec_find(s, sep) {
        None => seq![s],
        Some(j) => seq![s.take(j)] + spec_split(s.skip(j + 1), sep),
    }
}

#[via_fn]
proof fn spec_split_dec(s: Seq<char>, sep: char) {
    lemma_find_char(s, sep);
}

pub proof fn lemma_split_len(s: Seq<char>, sep: char)
    ensures
        spec_split(s, sep).len() >= 1,
    decreases s.len(),
{
    match spec_find(s, sep) {
        None => {},
        Some(j) => {
            lemma_find_char(s, sep);
        },
    }
}

/// Finds the first occurrence of `sep` in `s` at or after `start`.
pub fn find_char_from(s: &str, sep: char, start: usize) -> (r: Option<usize>)
    requires
        start <= s@.len(),
    ensures
        match r {
            Some(k) => start <= k < s@.len() && spec_find(s@.skip(start as int), sep) == Some(
                k - start,
            ),
            None => spec_find(s@.skip(start as int), sep) == None::<int>,
        },
{
    let len = s.unicode_len();
    let mut i: usize = start;
    while i < len
        invariant
            start <= i <= len,
            len == s@.len(),
            forall|m: int| start <= m < i ==> s@[m] != sep,
        decreases len - i,
    {
        if s.get_char(i) == sep {
            proof {
                let rest = s@.skip(start as int);
                assert(rest[i - start] == s@[i as int]);
                assert(forall|m: int| 0 <= m < i - start ==> rest[m] == s@[m + start]);
                lemma_find_char_at(rest, sep, i - start);
            }
            return Some(i);
        }
        i = i + 1;
    }
    proof {
        let rest = s@.skip(start as int);
        assert(forall|m: int| 0 <= m < rest.len() ==> rest[m] == s@[m + start]);
        lemma_find_char_none(rest, sep);
    }
    None
}

/// Splits `s` on `sep`, as str::split does for a one-character pattern.
pub fn split_on_char(s: &str, sep: char) -> (r: Vec<String>)
    ensures
        r@.map_values(|p: String| p@) == spec_split(s@, sep),
{
    let len = s.unicode_len();
    let mut out: Vec<String> = Vec::new();
    let mut start: usize = 0;
    proof {
        assert(s@.skip(0) =~= s@);
        assert(out@.map_values(|p: String| p@) + spec_split(s@, sep) =~= spec_split(s@, sep));
    }
    loop
        invariant_except_break
            0 <= start <= len,
            len == s@.len(),
            spec_split(s@, sep) == out@.map_values(|p: String| p@) + spec_split(
                s@.skip(start as int),
                sep,
            ),
        ensures
            out@.map_values(|p: String| p@) == spec_split(s@, sep),
        decreases len - start,
    {
        let ghost rest = s@.skip(start as int);
        match find_char_from(s, sep, start) {
            Some(k) => {
                let piece = s.substring_char(start, k).to_owned();
                proof {
                    assert(rest.take(k - start) =~= s@.subrange(start as int, k as int));
                    assert(rest.skip(k - start + 1) =~= s@.skip(k + 1));
                    assert((out@ + seq![piece]).map_values(|p: String| p@) =~= out@.map_values(
                        |p: String| p@,
                    ) + seq![piece@]);
                    assert(out@.map_values(|p: String| p@) + (seq![rest.take(k - start)]
                        + spec_split(rest.skip(k - start + 1), sep)) =~= (out@.map_values(
                        |p: String| p@,
                    ) + seq![piece@]) + spec_split(s@.skip(k + 1), sep));
                }
                out.push(piece);
                start = k + 1;
            },
            None => {
                let piece = s.substring_char(start, len).to_owned();
                proof {
                    assert(rest =~= s@.subrange(start as int, len as int));
                    assert((out@ + seq![piece]).map_values(|p: String| p@) =~= out@.map_values(
                        |p: String| p@,
                    ) + seq![rest]);
                }
                out.push(piece);
                break;
            },
        }
    }
    out
}

} // verus!
