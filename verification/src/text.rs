//! Text helpers shared by search and message formatting: lowercasing (through
//! the standard library), substring search, and decimal formatting.

use vstd::prelude::*;
use vstd::string::*;

verus! {

/// The sequence of characters that `str::to_lowercase` returns for `s`.
/// It depends on the characters of `s` alone.
pub uninterp spec fn lower_of(s: Seq<char>) -> Seq<char>;

/// Relies on str::to_lowercase: the result depends on the characters alone.
#[verifier::external_body]
pub(crate) fn lowercase(s: &str) -> (r: String)
    ensures
        r@ == lower_of(s@),
{
    s.to_lowercase()
}

/// `needle` occurs contiguously somewhere in `s`.
pub open spec fn contains_sub(s: Seq<char>, needle: Seq<char>) -> bool {
    exists|i: int|
        0 <= i && i + needle.len() <= s.len() && #[trigger] s.subrange(i, i + needle.len())
            == needle
}

/// Substring search by direct comparison, character by character.
pub fn contains_str(s: &str, needle: &str) -> (b: bool)
    ensures
        b == contains_sub(s@, needle@),
{
    let n: usize = s.unicode_len();
    let m: usize = needle.unicode_len();
    if m == 0 {
        proof {
            let i: int = 0;
            assert(s@.subrange(i, i + needle@.len()) =~= needle@);
        }
        return true;
    }
    if m > n {
        proof {
            assert forall|i: int|
                0 <= i && i + needle@.len() <= s@.len() implies #[trigger] s@.subrange(
                i,
                i + needle@.len(),
            ) != needle@ by {
                assert(i < 0);
            }
        }
        return false;
    }
    let mut i: usize = 0;
    while i <= n - m
        invariant
            n == s@.len(),
            m == needle@.len(),
            1 <= m <= n,
            i <= n - m + 1,
            forall|k: int| 0 <= k < i ==> #[trigger] s@.subrange(k, k + m) != needle@,
        decreases n - m - i + 1,
    {
        let mut j: usize = 0;
        let mut mismatch = false;
        while j < m
            invariant
                n == s@.len(),
                m == needle@.len(),
                i + m <= n,
                j <= m,
                !mismatch ==> forall|k: int| 0 <= k < j ==> s@[i + k] == needle@[k],
                mismatch ==> s@.subrange(i as int, i + m) != needle@,
            decreases m - j,
        {
            let cs = s.get_char(i + j);
            let cn = needle.get_char(j);
            if cs != cn {
                proof {
                    assert(s@.subrange(i as int, i + m)[j as int] == s@[i + j]);
                }
                mismatch = true;
                j = m;
            } else {
                j = j + 1;
            }
        }
        if !mismatch {
            proof {
                assert(s@.subrange(i as int, i + m) =~= needle@);
            }
            return true;
        }
        i = i + 1;
    }
    proof {
        assert forall|k: int|
            0 <= k && k + needle@.len() <= s@.len() implies #[trigger] s@.subrange(
            k,
            k + needle@.len(),
        ) != needle@ by {
            assert(k < i);
        }
    }
    false
}

/// The decimal digits of `n`, most significant first.
pub open spec fn dec_seq(n: nat) -> Seq<char>
    decreases n,
{
    if n < 10 {
        seq![dec_digit_char(n)]
    } else {
        dec_seq(n / 10).push(dec_digit_char(n % 10))
    }
}

/// The character for one decimal digit; values past nine fall back to '9'.
pub open spec fn dec_digit_char(d: nat) -> char {
    if d == 0 {
        '0'
    } else if d == 1 {
        '1'
    } else if d == 2 {
        '2'
    } else if d == 3 {
        '3'
    } else if d == 4 {
        '4'
    } else if d == 5 {
        '5'
    } else if d == 6 {
        '6'
    } else if d == 7 {
        '7'
    } else if d == 8 {
        '8'
    } else {
        '9'
    }
}

fn dec_digit_str(d: usize) -> (r: &'static str)
    requires
        d < 10,
    ensures
        r@ == seq![dec_digit_char(d as nat)],
{
    let r = if d == 0 {
        "0"
    } else if d == 1 {
        "1"
    } else if d == 2 {
        "2"
    } else if d == 3 {
        "3"
    } else if d == 4 {
        "4"
    } else if d == 5 {
        "5"
    } else if d == 6 {
        "6"
    } else if d == 7 {
        "7"
    } else if d == 8 {
        "8"
    } else {
        "9"
    };
    proof {
        reveal_strlit("0");
        reveal_strlit("1");
        reveal_strlit("2");
        reveal_strlit("3");
        reveal_strlit("4");
        reveal_strlit("5");
        reveal_strlit("6");
        reveal_strlit("7");
        reveal_strlit("8");
        reveal_strlit("9");
        assert(r@ =~= seq![dec_digit_char(d as nat)]);
    }
    r
}

/// `n` written in decimal.
pub fn dec_string(n: usize) -> (r: String)
    ensures
        r@ == dec_seq(n as nat),
    decreases n,
{
    if n < 10 {
        String::from_str(dec_digit_str(n))
    } else {
        let mut r = dec_string(n / 10);
        r.append(dec_digit_str(n % 10));
        proof {
            assert(dec_seq((n / 10) as nat) + seq![dec_digit_char((n % 10) as nat)] =~= dec_seq(
                (n / 10) as nat,
            ).push(dec_digit_char((n % 10) as nat)));
        }
        r
    }
}

} // verus!
