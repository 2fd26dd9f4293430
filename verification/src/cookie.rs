//! Parsing of a `Cookie` header: `name=value` pairs separated by `;`, the
//! name trimmed of leading whitespace. Parsing stops at the first segment
//! without a `=`; a lookup returns the first pair with the wanted name.

use crate::text::{
    index_of, spec_index_of, spec_trim_start, str_eq, trim_start,
};
use vstd::prelude::*;

verus! {

/// The raw encoded cookie string of one request.
pub struct Cookies<'a>(pub &'a str);

/// What remains of a cookie string after the first `;`: the segment before
/// it and the rest after it (everything / empty when there is none).
pub open spec fn spec_split_semi(s: Seq<char>) -> (Seq<char>, Seq<char>) {
    let sc = spec_index_of(s, ';');
    if sc == -1 {
        (s, Seq::empty())
    } else {
        (s.subrange(0, sc), s.subrange(sc + 1, s.len() as int))
    }
}

/// The pair parsed from one segment: name before the first `=` with leading
/// whitespace trimmed, value after it; absent when the segment has no `=`.
pub open spec fn spec_cookie_pair(seg: Seq<char>) -> Option<(Seq<char>, Seq<char>)> {
    let e = spec_index_of(seg, '=');
    if e == -1 {
        None
    } else {
        Some((spec_trim_start(seg.subrange(0, e)), seg.subrange(e + 1, seg.len() as int)))
    }
}

/// The value of the first pair named `name`, walking segments left to right
/// and stopping at the first malformed one, as the iterator does.
pub open spec fn spec_lookup(s: Seq<char>, name: Seq<char>) -> Option<Seq<char>>
    decreases s.len(),
    via spec_lookup_decreases
{
    if s.len() == 0 {
        None
    } else {
        let seg = spec_split_semi(s).0;
        let rest = spec_split_semi(s).1;
        match spec_cookie_pair(seg) {
            None => None,
            Some(kv) => if kv.0 == name {
                Some(kv.1)
            } else {
                spec_lookup(rest, name)
            },
        }
    }
}

/// Termination witness for `spec_lookup`: the first `;`, when present, lies
/// inside the string, so the rest after it is strictly shorter.
#[via_fn]
proof fn spec_lookup_decreases(s: Seq<char>, name: Seq<char>) {
    crate::text::lemma_index_of(s, ';');
}

impl<'a> Cookies<'a> {
    /// Wraps the encoded cookie string.
    pub fn new(encoded: &'a str) -> (r: Self)
        ensures
            r.0 == encoded,
    {
        Cookies(encoded)
    }

    /// An iterator over the `name=value` pairs.
    pub fn iter(&self) -> (r: CookieIterator<'a>)
        ensures
            r.0 == self.0,
    {
        CookieIterator(self.0)
    }

    /// The value of the first pair named `name`, if any.
    pub fn lookup(&self, name: &str) -> (r: Option<&'a str>)
        ensures
            match r {
                Some(v) => spec_lookup(self.0@, name@) == Some(v@),
                None => spec_lookup(self.0@, name@) is None,
            },
    {
        let mut it = self.iter();
        loop
            invariant
                spec_lookup(self.0@, name@) == spec_lookup(it.0@, name@),
            decreases it.0@.len(),
        {
            match it.next() {
                None => {
                    return None;
                },
                Some((k, v)) => {
                    if str_eq(k, name) {
                        return Some(v);
                    }
                },
            }
        }
    }
}

/// Walks the `name=value` pairs of a cookie string, consuming one
/// `;`-separated segment per step.
pub struct CookieIterator<'a>(pub &'a str);

impl<'a> CookieIterator<'a> {
    /// The pair in the next segment. Absent when the input is exhausted or
    /// the segment has no `=`; either way the segment is consumed.
    pub fn next(&mut self) -> (r: Option<(&'a str, &'a str)>)
        ensures
            final(self).0@ == spec_split_semi(old(self).0@).1,
            match r {
                Some(kv) => spec_cookie_pair(spec_split_semi(old(self).0@).0) == Some(
                    (kv.0@, kv.1@),
                ),
                None => spec_cookie_pair(spec_split_semi(old(self).0@).0) is None,
            },
            r is Some ==> final(self).0@.len() < old(self).0@.len(),
    {
        let s: &'a str = self.0;
        let n = s.unicode_len();
        let seg: &'a str;
        let rest: &'a str;
        match index_of(s, ';') {
            Some(i) => {
                proof {
                    crate::text::lemma_index_of(s@, ';');
                }
                seg = s.substring_char(0, i);
                rest = s.substring_char(i + 1, n);
            },
            None => {
                seg = s;
                rest = "";
                proof {
                    reveal_strlit("");
                    assert(rest@ =~= Seq::<char>::empty());
                }
            },
        }
        self.0 = rest;
        match index_of(seg, '=') {
            None => None,
            Some(e) => {
                proof {
                    crate::text::lemma_index_of(seg@, '=');
                }
                let m = seg.unicode_len();
                let k = trim_start(seg.substring_char(0, e));
                let v = seg.substring_char(e + 1, m);
                Some((k, v))
            },
        }
    }
}

} // verus!
