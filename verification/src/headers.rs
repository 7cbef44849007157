//! The request's header map: names lower-cased and validated on insertion,
//! values validated, entries ordered ascending by name so that header
//! canonicalization scans them in sorted order.

use vstd::prelude::*;
use vstd::string::StringExecFns;

use crate::errors::{Error, Kind};
use crate::strmap::{spec_get, spec_insert, sorted_keys, SortedMap};
use crate::text::{check_header_name, check_header_value, chars_lt, lower_chars, lower_str,
    valid_header_name, valid_header_value};

verus! {

/// Every entry of a header list is legal header syntax.
pub open spec fn entries_valid(s: Seq<(Seq<char>, Seq<char>)>) -> bool {
    forall|i: int|
        0 <= i < s.len() ==> valid_header_name(#[trigger] s[i].0) && valid_header_value(s[i].1)
}

/// Inserting a legal entry keeps every entry legal.
proof fn lemma_insert_entries_valid(s: Seq<(Seq<char>, Seq<char>)>, k: Seq<char>, v: Seq<char>)
    requires
        entries_valid(s),
        valid_header_name(k),
        valid_header_value(v),
    ensures
        entries_valid(spec_insert(s, k, v)),
    decreases s.len(),
{
    if s.len() == 0 {
        let r = spec_insert(s, k, v);
        assert(r == seq![(k, v)]);
        assert forall|i: int| 0 <= i < r.len() implies valid_header_name(#[trigger] r[i].0)
            && valid_header_value(r[i].1) by {
            assert(r[i] == (k, v));
        }
        assert(entries_valid(r));
    } else if chars_lt(s[0].0, k) {
        assert forall|i: int| 0 <= i < s.drop_first().len() implies valid_header_name(
            #[trigger] s.drop_first()[i].0,
        ) && valid_header_value(s.drop_first()[i].1) by {
            assert(s.drop_first()[i] == s[i + 1]);
        }
        lemma_insert_entries_valid(s.drop_first(), k, v);
        let r = seq![s[0]] + spec_insert(s.drop_first(), k, v);
        assert forall|i: int| 0 <= i < r.len() implies valid_header_name(#[trigger] r[i].0)
            && valid_header_value(r[i].1) by {
            if i > 0 {
                assert(r[i] == spec_insert(s.drop_first(), k, v)[i - 1]);
            }
        }
        assert(entries_valid(r));
        assert(spec_insert(s, k, v) == r);
    } else if s[0].0 == k {
        let r = seq![(k, v)] + s.drop_first();
        assert forall|i: int| 0 <= i < r.len() implies valid_header_name(#[trigger] r[i].0)
            && valid_header_value(r[i].1) by {
            if i > 0 {
                assert(r[i] == s.drop_first()[i - 1]);
                assert(s.drop_first()[i - 1] == s[i]);
            }
        }
        assert(entries_valid(r));
        assert(spec_insert(s, k, v) == r);
    } else {
        let r = seq![(k, v)] + s;
        assert forall|i: int| 0 <= i < r.len() implies valid_header_name(#[trigger] r[i].0)
            && valid_header_value(r[i].1) by {
            if i > 0 {
                assert(r[i] == s[i - 1]);
            }
        }
        assert(entries_valid(r));
        assert(spec_insert(s, k, v) == r);
    }
}

/// The header map of a request or a response: names lower-cased, entries
/// in ascending name order.
pub struct HeaderMap {
    map: SortedMap<String>,
}

impl View for HeaderMap {
    type V = Seq<(Seq<char>, Seq<char>)>;

    /// The headers as a sequence of name/value pairs in ascending name
    /// order.
    closed spec fn view(&self) -> Seq<(Seq<char>, Seq<char>)> {
        self.map@
    }
}

impl HeaderMap {
    /// The representation invariant: names ascending, every entry legal
    /// header syntax.
    pub open spec fn wf(&self) -> bool {
        sorted_keys(self@) && entries_valid(self@)
    }

    /// Creates an empty header map.
    pub fn new() -> (r: HeaderMap)
        ensures
            r@ == Seq::<(Seq<char>, Seq<char>)>::empty(),
            r.wf(),
    {
        HeaderMap { map: SortedMap::new() }
    }

    /// The number of headers.
    pub fn len(&self) -> (n: usize)
        ensures
            n == self@.len(),
    {
        self.map.len()
    }

    /// The name and value at position `i` in ascending name order.
    pub fn entry_at(&self, i: usize) -> (e: &(String, String))
        requires
            i < self@.len(),
        ensures
            e.0@ == self@[i as int].0,
            e.1@ == self@[i as int].1,
    {
        self.map.entry_at(i)
    }

    /// Inserts a header. The name is lower-cased first; an entry whose
    /// lower-cased name or whose value is not legal header syntax is
    /// rejected and leaves the map unchanged.
    pub fn insert(&mut self, name: &str, value: &str) -> (r: Result<(), Error>)
        requires
            old(self).wf(),
        ensures
            final(self).wf(),
            match r {
                Ok(()) => valid_header_name(lower_chars(name@)) && valid_header_value(value@)
                    && final(self)@ == spec_insert(old(self)@, lower_chars(name@), value@),
                Err(e) => !(valid_header_name(lower_chars(name@)) && valid_header_value(value@))
                    && final(self)@ == old(self)@ && e.kind == Kind::InvalidHeader,
            },
    {
        let lowered = lower_str(name);
        if !check_header_name(lowered.as_str()) {
            let mut message = String::from_str("invalid header name: ");
            message.append(name);
            return Err(Error::invalid_header(message));
        }
        if !check_header_value(value) {
            let mut message = String::from_str("invalid header value for ");
            message.append(name);
            return Err(Error::invalid_header(message));
        }
        proof {
            lemma_insert_entries_valid(self@, lowered@, value@);
        }
        self.map.insert(lowered, String::from_str(value));
        Ok(())
    }

    /// Looks a header up by name, ignoring ASCII case of the name.
    pub fn get(&self, name: &str) -> (r: Option<&String>)
        ensures
            match r {
                Some(v) => spec_get(self@, lower_chars(name@)) == Some(v@),
                None => spec_get(self@, lower_chars(name@)) is None,
            },
    {
        let lowered = lower_str(name);
        self.map.get(lowered.as_str())
    }
}

} // verus!
