//! Escaping of titles before they go to the transport, whose rich-text mode
//! treats most punctuation as control characters: every character outside
//! word characters, white space and a small allow-list is prefixed with a
//! backslash. Links are never escaped.
use vstd::prelude::*;
use vstd::string::*;
use crate::text::{alnum_char, space_char, is_alnum_char, is_space_char, push_char};

verus! {

/// The characters the transport passes through unescaped: word characters
/// (letters, digits, the underscore), white space, and the quotes and
/// currency signs titles commonly carry.
pub open spec fn spec_keep(c: char) -> bool {
    alnum_char(c) || space_char(c) || c == '_' || c == '\'' || c == '\u{2019}' || c == '$' || c
        == '\u{20ac}'
}

/// `s` with a backslash before every character that is not kept.
pub open spec fn spec_sanitize(s: Seq<char>) -> Seq<char>
    decreases s.len(),
{
    if s.len() == 0 {
        s
    } else if spec_keep(s[0]) {
        seq![s[0]] + spec_sanitize(s.skip(1))
    } else {
        seq!['\\', s[0]] + spec_sanitize(s.skip(1))
    }
}

fn keep_char(c: char) -> (r: bool)
    ensures
        r == spec_keep(c),
{
    is_alnum_char(c) || is_space_char(c) || c == '_' || c == '\'' || c == '\u{2019}' || c == '$'
        || c == '\u{20ac}'
}

/// Escapes a title for the transport's rich-text mode.
pub fn sanitize_title(s: &str) -> (r: String)
    ensures
        r@ == spec_sanitize(s@),
{
    let len = s.unicode_len();
    let mut out = String::new();
    let mut i: usize = 0;
    proof {
        assert(s@.skip(0) =~= s@);
        assert(Seq::<char>::empty() + spec_sanitize(s@) =~= spec_sanitize(s@));
    }
    while i < len
        invariant
            0 <= i <= len,
            len == s@.len(),
            spec_sanitize(s@) == out@ + spec_sanitize(s@.skip(i as int)),
        decreases len - i,
    {
        let c = s.get_char(i);
        let ghost rest = s@.skip(i as int);
        let ghost prev = out@;
        proof {
            assert(rest[0] == s@[i as int]);
            assert(rest.skip(1) =~= s@.skip(i + 1));
        }
        if keep_char(c) {
            push_char(&mut out, c);
            proof {
                assert(out@ =~= prev + seq![c]);
                assert(prev + (seq![c] + spec_sanitize(s@.skip(i + 1))) =~= out@ + spec_sanitize(
                    s@.skip(i + 1),
                ));
            }
        } else {
            push_char(&mut out, '\\');
            push_char(&mut out, c);
            proof {
                assert(out@ =~= prev + seq!['\\', c]);
                assert(prev + (seq!['\\', c] + spec_sanitize(s@.skip(i + 1))) =~= out@
                    + spec_sanitize(s@.skip(i + 1)));
            }
        }
        i = i + 1;
    }
    proof {
        assert(s@.skip(len as int) =~= Seq::<char>::empty());
        assert(out@ + Seq::<char>::empty() =~= out@);
    }
    out
}

} // verus!
