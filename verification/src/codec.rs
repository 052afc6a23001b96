//! The wire format of the queue: an envelope travels as a JSON object
//! `{"id":...,"list":...,"payload":{"link":...,"category":...,"title":...}}`
//! with quotes and backslashes escaped inside string values. The producer
//! renders with encode_message, the consumer reads with decode_message, and
//! decoding gives back exactly what was encoded.
use vstd::prelude::*;
use vstd::string::*;
use crate::message::{Deal, DealView, Message, MessageView};
use crate::queue::{ListEntry, ListEntryView};
use crate::text::{push_char, substring_eq_at, spec_matches_at};

verus! {

/// One character on the wire: quote and backslash carry a backslash prefix,
/// everything else stands for itself.
pub open spec fn spec_escape_char(c: char) -> Seq<char> {
    if c == '"' {
        seq!['\\', '"']
    } else if c == '\\' {
        seq!['\\', '\\']
    } else {
        seq![c]
    }
}

/// A string value as it stands between quotes on the wire.
pub open spec fn spec_escape(s: Seq<char>) -> Seq<char>
    decreases s.len(),
{
    if s.len() == 0 {
        s
    } else {
        spec_escape_char(s[0]) + spec_escape(s.skip(1))
    }
}

/// Appends the escaped form of `s` to `out`.
fn append_escaped(out: &mut String, s: &str)
    ensures
        final(out)@ == old(out)@ + spec_escape(s@),
{
    let len = s.unicode_len();
    let mut i: usize = 0;
    proof {
        assert(s@.skip(0) =~= s@);
        assert(old(out)@ + Seq::<char>::empty() =~= old(out)@);
    }
    while i < len
        invariant
            0 <= i <= len,
            len == s@.len(),
            old(out)@ + spec_escape(s@) == out@ + spec_escape(s@.skip(i as int)),
        decreases len - i,
    {
        let c = s.get_char(i);
        let ghost prev = out@;
        proof {
            let rest = s@.skip(i as int);
            assert(rest[0] == s@[i as int]);
            assert(rest.skip(1) =~= s@.skip(i + 1));
        }
        if c == '"' {
            push_char(out, '\\');
            push_char(out, '"');
            proof {
                assert(out@ =~= prev + seq!['\\', '"']);
                assert(prev + (seq!['\\', '"'] + spec_escape(s@.skip(i + 1))) =~= out@
                    + spec_escape(s@.skip(i + 1)));
            }
        } else if c == '\\' {
            push_char(out, '\\');
            push_char(out, '\\');
            proof {
                assert(out@ =~= prev + seq!['\\', '\\']);
                assert(prev + (seq!['\\', '\\'] + spec_escape(s@.skip(i + 1))) =~= out@
                    + spec_escape(s@.skip(i + 1)));
            }
        } else {
            push_char(out, c);
            proof {
                assert(out@ =~= prev + seq![c]);
                assert(prev + (seq![c] + spec_escape(s@.skip(i + 1))) =~= out@ + spec_escape(
                    s@.skip(i + 1),
                ));
            }
        }
        i = i + 1;
    }
    proof {
        assert(s@.skip(len as int) =~= Seq::<char>::empty());
        assert(out@ + Seq::<char>::empty() =~= out@);
    }
}

/// The envelope's rendering on the wire.
pub open spec fn spec_encode_message(m: MessageView) -> Seq<char> {
    "{\"id\":\""@ + spec_escape(m.id) + "\",\"list\":\""@ + spec_escape(m.list)
        + "\",\"payload\":{\"link\":\""@ + spec_escape(m.payload.link)
        + "\",\"category\":\""@ + spec_escape(m.payload.category) + "\",\"title\":\""@
        + spec_escape(m.payload.title) + "\"}}"@
}

/// Renders an envelope for the wire.
pub fn encode_message(m: &Message) -> (r: String)
    ensures
        r@ == spec_encode_message(m@),
{
    let mut out = String::new();
    out.append("{\"id\":\"");
    append_escaped(&mut out, m.id.as_str());
    out.append("\",\"list\":\"");
    append_escaped(&mut out, m.list.as_str());
    out.append("\",\"payload\":{\"link\":\"");
    append_escaped(&mut out, m.payload.link.as_str());
    out.append("\",\"category\":\"");
    append_escaped(&mut out, m.payload.category.as_str());
    out.append("\",\"title\":\"");
    append_escaped(&mut out, m.payload.title.as_str());
    out.append("\"}}");
    proof {
        assert(out@ =~= spec_encode_message(m@));
    }
    out
}

/// A queue entry's rendering on the wire, for the log backend's field set.
pub open spec fn spec_encode_entry(e: ListEntryView) -> Seq<char> {
    "{\"message_id\":\""@ + spec_escape(e.message_id) + "\",\"link\":\""@ + spec_escape(e.link)
        + "\",\"title\":\""@ + spec_escape(e.title) + "\",\"category\":\""@ + spec_escape(
        e.category,
    ) + "\"}"@
}

/// Renders a queue entry for the wire.
pub fn encode_entry(e: &ListEntry) -> (r: String)
    ensures
        r@ == spec_encode_entry(e@),
{
    let mut out = String::new();
    out.append("{\"message_id\":\"");
    append_escaped(&mut out, e.message_id.as_str());
    out.append("\",\"link\":\"");
    append_escaped(&mut out, e.link.as_str());
    out.append("\",\"title\":\"");
    append_escaped(&mut out, e.title.as_str());
    out.append("\",\"category\":\"");
    append_escaped(&mut out, e.category.as_str());
    out.append("\"}");
    proof {
        assert(out@ =~= spec_encode_entry(e@));
    }
    out
}

/// The rest of the input after a required literal, or nothing when the
/// literal is not there.
pub open spec fn spec_expect(s: Seq<char>, lit: Seq<char>) -> Option<Seq<char>> {
    if lit.len() <= s.len() && s.take(lit.len() as int) == lit {
        Some(s.skip(lit.len() as int))
    } else {
        None
    }
}

/// A string value read off the wire up to and including its closing quote:
/// the value and what follows it, or nothing when the input is no
/// well-formed string remainder.
pub open spec fn spec_unescape(s: Seq<char>) -> Option<(Seq<char>, Seq<char>)>
    decreases s.len(),
{
    if s.len() == 0 {
        None
    } else if s[0] == '"' {
        Some((Seq::<char>::empty(), s.skip(1)))
    } else if s[0] == '\\' {
        if s.len() >= 2 && (s[1] == '"' || s[1] == '\\') {
            match spec_unescape(s.skip(2)) {
                Some(p) => Some((seq![s[1]] + p.0, p.1)),
                None => None,
            }
        } else {
            None
        }
    } else {
        match spec_unescape(s.skip(1)) {
            Some(p) => Some((seq![s[0]] + p.0, p.1)),
            None => None,
        }
    }
}

/// What decoding an envelope yields: the envelope whose rendering the input
/// is, read field by field, or nothing for any other input.
pub open spec fn spec_decode_message(s: Seq<char>) -> Option<MessageView> {
    match spec_expect(s, "{\"id\":\""@) {
        None => None,
        Some(r1) => match spec_unescape(r1) {
            None => None,
            Some((id, r2)) => match spec_expect(r2, ",\"list\":\""@) {
                None => None,
                Some(r3) => match spec_unescape(r3) {
                    None => None,
                    Some((list, r4)) => match spec_expect(r4, ",\"payload\":{\"link\":\""@) {
                        None => None,
                        Some(r5) => match spec_unescape(r5) {
                            None => None,
                            Some((link, r6)) => match spec_expect(r6, ",\"category\":\""@) {
                                None => None,
                                Some(r7) => match spec_unescape(r7) {
                                    None => None,
                                    Some((category, r8)) => match spec_expect(
                                        r8,
                                        ",\"title\":\""@,
                                    ) {
                                        None => None,
                                        Some(r9) => match spec_unescape(r9) {
                                            None => None,
                                            Some((title, r10)) => if r10 =~= "}}"@ {
                                                Some(
                                                    MessageView {
                                                        id,
                                                        list,
                                                        payload: DealView { link, category, title },
                                                    },
                                                )
                                            } else {
                                                None
                                            },
                                        },
                                    },
                                },
                            },
                        },
                    },
                },
            },
        },
    }
}

/// Consumes one required literal starting at `i`.
fn expect_lit(s: &str, i: usize, lit: &str) -> (r: Option<usize>)
    requires
        i <= s@.len(),
    ensures
        match r {
            Some(j) => i <= j <= s@.len() && spec_expect(s@.skip(i as int), lit@) == Some(
                s@.skip(j as int),
            ),
            None => spec_expect(s@.skip(i as int), lit@) is None,
        },
{
    let n = s.unicode_len();
    let ll = lit.unicode_len();
    if substring_eq_at(s, i, lit) {
        proof {
            let rest = s@.skip(i as int);
            assert(rest.take(ll as int) =~= s@.subrange(i as int, i + ll));
            assert(rest.skip(ll as int) =~= s@.skip(i + ll));
            assert(i + ll <= n);
        }
        Some(i + ll)
    } else {
        proof {
            let rest = s@.skip(i as int);
            if ll <= rest.len() && rest.take(ll as int) == lit@ {
                assert(s@.subrange(i as int, i + ll) =~= rest.take(ll as int));
                assert(spec_matches_at(s@, i as int, lit@));
            }
        }
        None
    }
}

/// Reads one string value off the wire, starting at `i`, through its
/// closing quote.
fn unescape_from(s: &str, i: usize) -> (r: Option<(String, usize)>)
    requires
        i <= s@.len(),
    ensures
        match r {
            Some(p) => p.1 <= s@.len() && spec_unescape(s@.skip(i as int)) == Some(
                (p.0@, s@.skip(p.1 as int)),
            ),
            None => spec_unescape(s@.skip(i as int)) is None,
        },
{
    let len = s.unicode_len();
    let mut out = String::new();
    let mut j: usize = i;
    loop
        invariant_except_break
            i <= j <= len,
            len == s@.len(),
            spec_unescape(s@.skip(i as int)) == (match spec_unescape(s@.skip(j as int)) {
                Some(p) => Some((out@ + p.0, p.1)),
                None => None::<(Seq<char>, Seq<char>)>,
            }),
        ensures
            match spec_unescape(s@.skip(i as int)) {
                Some(_) => true,
                None => true,
            },
        decreases len - j,
    {
        if j >= len {
            proof {
                assert(s@.skip(j as int) =~= Seq::<char>::empty());
            }
            return None;
        }
        let c = s.get_char(j);
        let ghost rest = s@.skip(j as int);
        let ghost prev = out@;
        proof {
            assert(rest[0] == s@[j as int]);
            assert(rest.skip(1) =~= s@.skip(j + 1));
        }
        if c == '"' {
            proof {
                assert(spec_unescape(rest) == Some((Seq::<char>::empty(), s@.skip(j + 1))));
                assert(out@ + Seq::<char>::empty() =~= out@);
            }
            return Some((out, j + 1));
        } else if c == '\\' {
            if j + 1 >= len {
                proof {
                    assert(rest.len() < 2);
                }
                return None;
            }
            let c2 = s.get_char(j + 1);
            proof {
                assert(rest[1] == s@[j + 1]);
                assert(rest.skip(2) =~= s@.skip(j + 2));
            }
            if c2 == '"' || c2 == '\\' {
                push_char(&mut out, c2);
                proof {
                    assert(out@ =~= prev + seq![c2]);
                    if spec_unescape(s@.skip(j + 2)) is Some {
                        let p = spec_unescape(s@.skip(j + 2))->Some_0;
                        assert(prev + (seq![c2] + p.0) =~= out@ + p.0);
                    }
                }
                j = j + 2;
            } else {
                return None;
            }
        } else {
            push_char(&mut out, c);
            proof {
                assert(out@ =~= prev + seq![c]);
                if spec_unescape(s@.skip(j + 1)) is Some {
                    let p = spec_unescape(s@.skip(j + 1))->Some_0;
                    assert(prev + (seq![c] + p.0) =~= out@ + p.0);
                }
            }
            j = j + 1;
        }
    }
}

pub open spec fn opt_message_view(r: Option<Message>) -> Option<MessageView> {
    match r {
        None => None,
        Some(m) => Some(m@),
    }
}

/// Reads an envelope off the wire; any input that is not the rendering of
/// an envelope yields nothing.
pub fn decode_message(s: &str) -> (r: Option<Message>)
    ensures
        opt_message_view(r) == spec_decode_message(s@),
{
    proof {
        assert(s@.skip(0) =~= s@);
    }
    let i1 = match expect_lit(s, 0, "{\"id\":\"") {
        None => {
            return None;
        },
        Some(j) => j,
    };
    let (id, i2) = match unescape_from(s, i1) {
        None => {
            return None;
        },
        Some(p) => p,
    };
    let i3 = match expect_lit(s, i2, ",\"list\":\"") {
        None => {
            return None;
        },
        Some(j) => j,
    };
    let (list, i4) = match unescape_from(s, i3) {
        None => {
            return None;
        },
        Some(p) => p,
    };
    let i5 = match expect_lit(s, i4, ",\"payload\":{\"link\":\"") {
        None => {
            return None;
        },
        Some(j) => j,
    };
    let (link, i6) = match unescape_from(s, i5) {
        None => {
            return None;
        },
        Some(p) => p,
    };
    let i7 = match expect_lit(s, i6, ",\"category\":\"") {
        None => {
            return None;
        },
        Some(j) => j,
    };
    let (category, i8) = match unescape_from(s, i7) {
        None => {
            return None;
        },
        Some(p) => p,
    };
    let i9 = match expect_lit(s, i8, ",\"title\":\"") {
        None => {
            return None;
        },
        Some(j) => j,
    };
    let (title, i10) = match unescape_from(s, i9) {
        None => {
            return None;
        },
        Some(p) => p,
    };
    let n = s.unicode_len();
    let tail_ok = n - i10 == 2 && substring_eq_at(s, i10, "}}");
    if !tail_ok {
        proof {
            reveal_strlit("}}");
            let r10 = s@.skip(i10 as int);
            if r10 == "}}"@ {
                assert(r10.len() == 2);
                assert(s@.subrange(i10 as int, i10 + 2) =~= r10);
                assert(spec_matches_at(s@, i10 as int, "}}"@));
                assert(false);
            }
        }
        return None;
    }
    proof {
        reveal_strlit("}}");
        let r10 = s@.skip(i10 as int);
        assert(r10 =~= s@.subrange(i10 as int, i10 + 2));
        assert(r10 =~= "}}"@);
    }
    Some(Message { id, list, payload: Deal { link, category, title } })
}

/// Reading back a rendered envelope gives the envelope: the wire format
/// round-trips.
#[verifier::rlimit(100)]
pub proof fn lemma_codec_round_trip(m: MessageView)
    ensures
        spec_decode_message(spec_encode_message(m)) == Some(m),
{
    reveal_strlit("{\"id\":\"");
    reveal_strlit("\",\"list\":\"");
    reveal_strlit(",\"list\":\"");
    reveal_strlit("\",\"payload\":{\"link\":\"");
    reveal_strlit(",\"payload\":{\"link\":\"");
    reveal_strlit("\",\"category\":\"");
    reveal_strlit(",\"category\":\"");
    reveal_strlit("\",\"title\":\"");
    reveal_strlit(",\"title\":\"");
    reveal_strlit("\"}}");
    reveal_strlit("}}");
    reveal_strlit("\"");
    assert("\",\"list\":\""@ =~= "\""@ + ",\"list\":\""@);
    assert("\",\"payload\":{\"link\":\""@ =~= "\""@ + ",\"payload\":{\"link\":\""@);
    assert("\",\"category\":\""@ =~= "\""@ + ",\"category\":\""@);
    assert("\",\"title\":\""@ =~= "\""@ + ",\"title\":\""@);
    assert("\"}}"@ =~= "\""@ + "}}"@);
    let s = spec_encode_message(m);
    let t_id = spec_escape(m.id) + "\""@;
    let t_list = spec_escape(m.list) + "\""@;
    let t_link = spec_escape(m.payload.link) + "\""@;
    let t_cat = spec_escape(m.payload.category) + "\""@;
    let t_title = spec_escape(m.payload.title) + "\""@;
    let r1 = t_id + ",\"list\":\""@ + t_list + ",\"payload\":{\"link\":\""@ + t_link
        + ",\"category\":\""@ + t_cat + ",\"title\":\""@ + t_title + "}}"@;
    lemma_expect_concat("{\"id\":\""@, r1);
    assert(s =~= "{\"id\":\""@ + r1);
    let r2 = ",\"list\":\""@ + t_list + ",\"payload\":{\"link\":\""@ + t_link
        + ",\"category\":\""@ + t_cat + ",\"title\":\""@ + t_title + "}}"@;
    assert(r1 =~= spec_escape(m.id) + "\""@ + r2);
    lemma_unescape_escape(m.id, r2);
    let r3 = t_list + ",\"payload\":{\"link\":\""@ + t_link + ",\"category\":\""@ + t_cat
        + ",\"title\":\""@ + t_title + "}}"@;
    lemma_expect_concat(",\"list\":\""@, r3);
    assert(r2 =~= ",\"list\":\""@ + r3);
    let r4 = ",\"payload\":{\"link\":\""@ + t_link + ",\"category\":\""@ + t_cat
        + ",\"title\":\""@ + t_title + "}}"@;
    assert(r3 =~= spec_escape(m.list) + "\""@ + r4);
    lemma_unescape_escape(m.list, r4);
    let r5 = t_link + ",\"category\":\""@ + t_cat + ",\"title\":\""@ + t_title + "}}"@;
    lemma_expect_concat(",\"payload\":{\"link\":\""@, r5);
    assert(r4 =~= ",\"payload\":{\"link\":\""@ + r5);
    let r6 = ",\"category\":\""@ + t_cat + ",\"title\":\""@ + t_title + "}}"@;
    assert(r5 =~= spec_escape(m.payload.link) + "\""@ + r6);
    lemma_unescape_escape(m.payload.link, r6);
    let r7 = t_cat + ",\"title\":\""@ + t_title + "}}"@;
    lemma_expect_concat(",\"category\":\""@, r7);
    assert(r6 =~= ",\"category\":\""@ + r7);
    let r8 = ",\"title\":\""@ + t_title + "}}"@;
    assert(r7 =~= spec_escape(m.payload.category) + "\""@ + r8);
    lemma_unescape_escape(m.payload.category, r8);
    let r9 = t_title + "}}"@;
    lemma_expect_concat(",\"title\":\""@, r9);
    assert(r8 =~= ",\"title\":\""@ + r9);
    assert(r9 =~= spec_escape(m.payload.title) + "\""@ + "}}"@);
    lemma_unescape_escape(m.payload.title, "}}"@);
}

/// A literal at the front of a concatenation is consumed exactly.
proof fn lemma_expect_concat(lit: Seq<char>, rest: Seq<char>)
    ensures
        spec_expect(lit + rest, lit) == Some(rest),
{
    let s = lit + rest;
    assert(s.take(lit.len() as int) =~= lit);
    assert(s.skip(lit.len() as int) =~= rest);
}

/// Reading a value off the wire undoes escaping: the escaped value, its
/// closing quote and anything after parse back to the value and that rest.
proof fn lemma_unescape_escape(t: Seq<char>, rest: Seq<char>)
    ensures
        spec_unescape(spec_escape(t) + "\""@ + rest) == Some((t, rest)),
    decreases t.len(),
{
    reveal_strlit("\"");
    let s = spec_escape(t) + "\""@ + rest;
    if t.len() == 0 {
        assert(s =~= seq!['"'] + rest);
        assert(s[0] == '"');
        assert(s.skip(1) =~= rest);
    } else {
        let c = t[0];
        lemma_unescape_escape(t.skip(1), rest);
        let s1 = spec_escape(t.skip(1)) + "\""@ + rest;
        if c == '"' || c == '\\' {
            assert(s =~= seq!['\\', c] + s1);
            assert(s[0] == '\\');
            assert(s[1] == c);
            assert(s.skip(2) =~= s1);
            assert(seq![c] + t.skip(1) =~= t);
        } else {
            assert(s =~= seq![c] + s1);
            assert(s[0] == c);
            assert(s[0] != '"' && s[0] != '\\');
            assert(s.skip(1) =~= s1);
            assert(seq![c] + t.skip(1) =~= t);
        }
    }
}

} // verus!
