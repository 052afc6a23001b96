//! Verified decimal rendering and parsing for the counter values that the
//! configuration store keeps as strings.
use vstd::prelude::*;
use vstd::string::*;
use crate::text::push_char;

verus! {

/// The character for one decimal digit.
pub open spec fn spec_digit(d: nat) -> char
    recommends
        d < 10,
{
    if d == 0 {
        '0'
    } else if d == 1 {
        '1'
    } else if d == 2 {
        '2'
    } else if d == 3 {
        '3'
    } else if d == 4 {
        '4'
    } else if d == 5 {
        '5'
    } else if d == 6 {
        '6'
    } else if d == 7 {
        '7'
    } else if d == 8 {
        '8'
    } else {
        '9'
    }
}

/// The numeric value of one character, ten for anything that is no digit.
pub open spec fn spec_digit_val(c: char) -> nat {
    if c == '0' {
        0
    } else if c == '1' {
        1
    } else if c == '2' {
        2
    } else if c == '3' {
        3
    } else if c == '4' {
        4
    } else if c == '5' {
        5
    } else if c == '6' {
        6
    } else if c == '7' {
        7
    } else if c == '8' {
        8
    } else if c == '9' {
        9
    } else {
        10
    }
}

pub open spec fn spec_is_digit(c: char) -> bool {
    spec_digit_val(c) < 10
}

/// The decimal rendering of a number, most significant digit first.
pub open spec fn spec_dec(n: nat) -> Seq<char>
    decreases n,
{
    if n < 10 {
        seq![spec_digit(n)]
    } else {
        spec_dec(n / 10).push(spec_digit(n % 10))
    }
}

pub open spec fn spec_all_digits(s: Seq<char>) -> bool {
    forall|i: int| 0 <= i < s.len() ==> spec_is_digit(#[trigger] s[i])
}

/// The number a digit string denotes, read left to right.
pub open spec fn spec_num_val(s: Seq<char>) -> nat
    decreases s.len(),
{
    if s.len() == 0 {
        0
    } else {
        spec_num_val(s.take(s.len() - 1)) * 10 + spec_digit_val(s[s.len() - 1])
    }
}

/// What parsing a counter string yields: a value if the string is a
/// non-empty run of digits whose value fits, nothing otherwise.
pub open spec fn spec_parse_u64(s: Seq<char>) -> Option<u64> {
    if s.len() > 0 && spec_all_digits(s) && spec_num_val(s) <= u64::MAX {
        Some(spec_num_val(s) as u64)
    } else {
        None
    }
}

fn digit_char(d: u64) -> (c: char)
    requires
        d < 10,
    ensures
        c == spec_digit(d as nat),
{
    if d == 0 {
        '0'
    } else if d == 1 {
        '1'
    } else if d == 2 {
        '2'
    } else if d == 3 {
        '3'
    } else if d == 4 {
        '4'
    } else if d == 5 {
        '5'
    } else if d == 6 {
        '6'
    } else if d == 7 {
        '7'
    } else if d == 8 {
        '8'
    } else {
        '9'
    }
}

fn digit_val(c: char) -> (r: Option<u64>)
    ensures
        match r {
            Some(d) => spec_digit_val(c) == d && d < 10,
            None => !spec_is_digit(c),
        },
{
    match c {
        '0' => Some(0),
        '1' => Some(1),
        '2' => Some(2),
        '3' => Some(3),
        '4' => Some(4),
        '5' => Some(5),
        '6' => Some(6),
        '7' => Some(7),
        '8' => Some(8),
        '9' => Some(9),
        _ => None,
    }
}

/// Renders a number in decimal.
pub fn u64_to_dec(n: u64) -> (r: String)
    ensures
        r@ == spec_dec(n as nat),
    decreases n,
{
    if n < 10 {
        let mut s = String::new();
        push_char(&mut s, digit_char(n));
        proof {
            assert(s@ =~= spec_dec(n as nat));
        }
        s
    } else {
        let mut s = u64_to_dec(n / 10);
        push_char(&mut s, digit_char(n % 10));
        s
    }
}

proof fn lemma_num_val_step(s: Seq<char>, i: int)
    requires
        0 <= i < s.len(),
    ensures
        spec_num_val(s.take(i + 1)) == spec_num_val(s.take(i)) * 10 + spec_digit_val(s[i]),
{
    assert(s.take(i + 1).take(i) =~= s.take(i));
    assert(s.take(i + 1)[i] == s[i]);
}

proof fn lemma_num_val_prefix_mono(s: Seq<char>, i: int, j: int)
    requires
        0 <= i <= j <= s.len(),
    ensures
        spec_num_val(s.take(i)) <= spec_num_val(s.take(j)),
    decreases j - i,
{
    if i < j {
        lemma_num_val_prefix_mono(s, i, j - 1);
        lemma_num_val_step(s, j - 1);
        assert(spec_num_val(s.take(j - 1)) * 10 >= spec_num_val(s.take(j - 1)));
    }
}

/// Parses a decimal counter string.
pub fn parse_u64(s: &str) -> (r: Option<u64>)
    ensures
        r == spec_parse_u64(s@),
{
    let len = s.unicode_len();
    if len == 0 {
        return None;
    }
    let mut acc: u64 = 0;
    let mut i: usize = 0;
    proof {
        assert(s@.take(0) =~= Seq::<char>::empty());
    }
    while i < len
        invariant
            0 <= i <= len,
            len == s@.len(),
            acc == spec_num_val(s@.take(i as int)),
            spec_all_digits(s@.take(i as int)),
        decreases len - i,
    {
        let c = s.get_char(i);
        match digit_val(c) {
            None => {
                proof {
                    assert(!spec_all_digits(s@)) by {
                        assert(s@[i as int] == c);
                    }
                }
                return None;
            },
            Some(d) => {
                let wide: u128 = (acc as u128) * 10 + (d as u128);
                proof {
                    lemma_num_val_step(s@, i as int);
                }
                if wide > u64::MAX as u128 {
                    proof {
                        if spec_all_digits(s@) && spec_num_val(s@) <= u64::MAX {
                            lemma_num_val_prefix_mono(s@, i + 1, s@.len() as int);
                            assert(s@.take(s@.len() as int) =~= s@);
                        }
                    }
                    return None;
                }
                acc = wide as u64;
                proof {
                    assert(forall|k: int|
                        0 <= k < i + 1 ==> spec_is_digit(#[trigger] s@.take(i + 1)[k]));
                }
                i = i + 1;
            },
        }
    }
    proof {
        assert(s@.take(len as int) =~= s@);
    }
    Some(acc)
}

/// Rendering a number and parsing the text gives the number back.
pub proof fn lemma_dec_round_trip(n: u64)
    ensures
        spec_parse_u64(spec_dec(n as nat)) == Some(n),
{
    lemma_dec_digits(n as nat);
    lemma_dec_val(n as nat);
}

proof fn lemma_dec_digits(n: nat)
    ensures
        spec_all_digits(spec_dec(n)),
        spec_dec(n).len() >= 1,
    decreases n,
{
    if n < 10 {
        assert(spec_is_digit(spec_dec(n)[0]));
    } else {
        lemma_dec_digits(n / 10);
        let prev = spec_dec(n / 10);
        assert(forall|i: int|
            0 <= i < prev.len() ==> spec_is_digit(#[trigger] prev.push(spec_digit(n % 10))[i]));
        assert(spec_is_digit(prev.push(spec_digit(n % 10))[prev.len() as int]));
    }
}

proof fn lemma_dec_val(n: nat)
    ensures
        spec_num_val(spec_dec(n)) == n,
    decreases n,
{
    if n < 10 {
        let s = spec_dec(n);
        assert(s.take(s.len() - 1) =~= Seq::<char>::empty());
        assert(spec_digit_val(spec_digit(n)) == n);
        assert(spec_num_val(s) == spec_num_val(s.take(s.len() - 1)) * 10 + spec_digit_val(
            s[s.len() - 1],
        ));
        assert(spec_num_val(spec_dec(n)) == n);
    } else {
        lemma_dec_val(n / 10);
        let prev = spec_dec(n / 10);
        let s = prev.push(spec_digit(n % 10));
        assert(s.take(s.len() - 1) =~= prev);
        assert(spec_digit_val(spec_digit(n % 10)) == n % 10);
        assert(spec_num_val(s) == (n / 10) * 10 + n % 10);
        assert((n / 10) * 10 + n % 10 == n) by {
            vstd::arithmetic::div_mod::lemma_fundamental_div_mod(n as int, 10);
        }
        assert(spec_num_val(spec_dec(n)) == n);
    }
}

} // verus!
