//! Freshness tokens: the cache-validation value derived from a file's
//! last-modified time, rendered as the decimal numeral of seconds since the
//! epoch, and the `ETag` wrapper that carries the quoted form of the token.

use vstd::prelude::*;

verus! {

/// The decimal digit character for `d`.
pub open spec fn digit_char(d: nat) -> char
    recommends
        d < 10,
{
    if d == 0 {
        '0'
    } else if d == 1 {
        '1'
    } else if d == 2 {
        '2'
    } else if d == 3 {
        '3'
    } else if d == 4 {
        '4'
    } else if d == 5 {
        '5'
    } else if d == 6 {
        '6'
    } else if d == 7 {
        '7'
    } else if d == 8 {
        '8'
    } else {
        '9'
    }
}

/// The decimal numeral of `n`, most significant digit first, no leading
/// zeros (except for `n == 0` itself).
pub open spec fn dec_digits(n: nat) -> Seq<char>
    decreases n,
{
    if n < 10 {
        seq![digit_char(n)]
    } else {
        dec_digits(n / 10).push(digit_char(n % 10))
    }
}

/// `s` surrounded by double quotes, as HTTP validator header values are.
pub open spec fn quoted(s: Seq<char>) -> Seq<char> {
    seq!['"'] + s + seq!['"']
}

fn digit_str(d: u64) -> (r: &'static str)
    requires
        d < 10,
    ensures
        r@ == seq![digit_char(d as nat)],
{
    let r: &'static str = if d == 0 {
        "0"
    } else if d == 1 {
        "1"
    } else if d == 2 {
        "2"
    } else if d == 3 {
        "3"
    } else if d == 4 {
        "4"
    } else if d == 5 {
        "5"
    } else if d == 6 {
        "6"
    } else if d == 7 {
        "7"
    } else if d == 8 {
        "8"
    } else {
        "9"
    };
    proof {
        reveal_strlit("0");
        reveal_strlit("1");
        reveal_strlit("2");
        reveal_strlit("3");
        reveal_strlit("4");
        reveal_strlit("5");
        reveal_strlit("6");
        reveal_strlit("7");
        reveal_strlit("8");
        reveal_strlit("9");
        assert(r@ =~= seq![digit_char(d as nat)]);
    }
    r
}

/// Freshness token for a file whose last-modified time is `secs` seconds
/// after the epoch. Two reads of an unchanged file give the same token; a
/// write that updates the modification time changes it.
pub fn freshness_token(secs: u64) -> (r: String)
    ensures
        r@ == dec_digits(secs as nat),
    decreases secs,
{
    if secs < 10 {
        digit_str(secs).to_owned()
    } else {
        let mut r = freshness_token(secs / 10);
        r.append(digit_str(secs % 10));
        proof {
            assert(r@ =~= dec_digits(secs as nat));
        }
        r
    }
}

/// `s` surrounded by double quotes, as an `Etag` header value is written.
pub fn quote_string(s: &str) -> (r: String)
    ensures
        r@ == quoted(s@),
{
    let mut r: String = "\"".to_owned();
    r.append(s);
    r.append("\"");
    proof {
        reveal_strlit("\"");
        assert(r@ =~= quoted(s@));
    }
    r
}

/// A response decorated with an `Etag` validator header whose value is the
/// freshness token of the file served. The second field is the response
/// being decorated; this crate leaves it untouched.
pub struct ETag<R>(pub String, pub R);

impl<R> ETag<R> {
    /// Decorates `inner` with the freshness token of a file whose
    /// last-modified time is `mtime_secs` seconds after the epoch.
    pub fn on(inner: R, mtime_secs: u64) -> (r: ETag<R>)
        ensures
            r.0@ == dec_digits(mtime_secs as nat),
            r.1 == inner,
    {
        ETag(freshness_token(mtime_secs), inner)
    }

    /// The value of the `Etag` header for this response: the token, quoted.
    pub fn header_value(&self) -> (r: String)
        ensures
            r@ == quoted(self.0@),
    {
        quote_string(self.0.as_str())
    }
}

} // verus!
