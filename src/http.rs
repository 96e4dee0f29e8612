//! A model of HTTP requests and responses, as far as the response
//! interceptors read and change them.
use vstd::prelude::*;
use vstd::string::StringExecFns;
use crate::text::{ascii_lower_seq, eq_ignore_ascii_case};

verus! {

/// Header names compare without regard to ASCII case.
pub open spec fn header_key(name: Seq<char>) -> Seq<char> {
    ascii_lower_seq(name)
}

/// The value of the last entry whose name matches `k`.
pub open spec fn lookup(s: Seq<(String, String)>, k: Seq<char>) -> Option<Seq<char>>
    decreases s.len(),
{
    if s.len() == 0 {
        None
    } else if header_key(s.last().0@) == k {
        Some(s.last().1@)
    } else {
        lookup(s.drop_last(), k)
    }
}

/// A header map, in the order names were first set. Its view holds the
/// value of each name, keyed by lowercased name; setting a name again
/// replaces its entry in place.
pub struct Headers {
    entries: Vec<(String, String)>,
}

/// The visible value of each name in a log of entries.
pub open spec fn log_view(s: Seq<(String, String)>) -> Map<Seq<char>, Seq<char>> {
    Map::new(|k: Seq<char>| lookup(s, k) is Some, |k: Seq<char>| lookup(s, k)->0)
}

impl View for Headers {
    type V = Map<Seq<char>, Seq<char>>;

    closed spec fn view(&self) -> Map<Seq<char>, Seq<char>> {
        log_view(self.entries@)
    }
}

proof fn lemma_lookup_last(s: Seq<(String, String)>, j: int)
    requires
        0 <= j < s.len(),
        forall|t: int|
            j < t < s.len() ==> header_key((#[trigger] s[t]).0@) != header_key(s[j].0@),
    ensures
        lookup(s, header_key(s[j].0@)) == Some(s[j].1@),
    decreases s.len(),
{
    if j < s.len() - 1 {
        lemma_lookup_last(s.drop_last(), j);
    }
}

/// Replacing an entry by one of the same name changes that name's value
/// where no later entry has the name, and no other name's value.
proof fn lemma_lookup_update(s: Seq<(String, String)>, j: int, e: (String, String), k: Seq<char>)
    requires
        0 <= j < s.len(),
        header_key(e.0@) == header_key(s[j].0@),
        forall|t: int|
            j < t < s.len() ==> header_key((#[trigger] s[t]).0@) != header_key(s[j].0@),
    ensures
        lookup(s.update(j, e), k) == (if k == header_key(s[j].0@) {
            Some(e.1@)
        } else {
            lookup(s, k)
        }),
    decreases s.len(),
{
    let u = s.update(j, e);
    if j == s.len() - 1 {
        assert(u.drop_last() =~= s.drop_last());
    } else {
        assert(u.drop_last() =~= s.drop_last().update(j, e));
        lemma_lookup_update(s.drop_last(), j, e, k);
    }
}

impl Headers {
    pub fn new() -> (r: Headers)
        ensures
            r@ == Map::<Seq<char>, Seq<char>>::empty(),
    {
        let r = Headers { entries: Vec::new() };
        assert(r@ =~= Map::<Seq<char>, Seq<char>>::empty());
        r
    }

    /// The position of the last entry named `name`, if any.
    fn find(&self, name: &str) -> (r: Option<usize>)
        ensures
            r is None ==> lookup(self.entries@, header_key(name@)) is None,
            r matches Some(j) ==> {
                &&& j < self.entries@.len()
                &&& header_key(self.entries@[j as int].0@) == header_key(name@)
                &&& forall|t: int|
                    j < t < self.entries@.len() ==> header_key((#[trigger] self.entries@[t]).0@)
                        != header_key(name@)
            },
    {
        let mut j: usize = self.entries.len();
        assert(self.entries@.subrange(0, j as int) =~= self.entries@);
        while j > 0
            invariant
                j <= self.entries.len(),
                lookup(self.entries@, header_key(name@)) == lookup(
                    self.entries@.subrange(0, j as int),
                    header_key(name@),
                ),
                forall|t: int|
                    j <= t < self.entries@.len() ==> header_key((#[trigger] self.entries@[t]).0@)
                        != header_key(name@),
            decreases j,
        {
            let ghost sub = self.entries@.subrange(0, j as int);
            assert(sub.drop_last() =~= self.entries@.subrange(0, j - 1));
            if eq_ignore_ascii_case(self.entries[j - 1].0.as_str(), name) {
                return Some(j - 1);
            }
            j -= 1;
        }
        None
    }

    /// Sets `name` to `value`, replacing any earlier value of that name.
    pub fn set(&mut self, name: &str, value: &str)
        ensures
            final(self)@ == old(self)@.insert(header_key(name@), value@),
    {
        let ghost before = self.entries@;
        let entry = (String::from_str(name), String::from_str(value));
        match self.find(name) {
            Some(j) => {
                self.entries.set(j, entry);
                proof {
                    assert forall|k: Seq<char>|
                        lookup(self.entries@, k) == (if k == header_key(name@) {
                            Some(value@)
                        } else {
                            lookup(before, k)
                        }) by {
                        lemma_lookup_update(before, j as int, entry, k);
                    }
                }
            },
            None => {
                self.entries.push(entry);
                proof {
                    assert(self.entries@.drop_last() =~= before);
                }
            },
        }
        assert(self@ =~= old(self)@.insert(header_key(name@), value@));
    }

    /// The value of `name`, if it is set.
    pub fn get(&self, name: &str) -> (r: Option<&String>)
        ensures
            r is Some <==> self@.contains_key(header_key(name@)),
            r is Some ==> r->0@ == self@[header_key(name@)],
    {
        match self.find(name) {
            Some(j) => {
                proof {
                    lemma_lookup_last(self.entries@, j as int);
                }
                Some(&self.entries[j].1)
            },
            None => None,
        }
    }

    /// Whether `name` is set.
    pub fn contains(&self, name: &str) -> (r: bool)
        ensures
            r == self@.contains_key(header_key(name@)),
    {
        self.get(name).is_some()
    }

    /// Every entry, in the order names were first set.
    pub fn entries(&self) -> (r: &Vec<(String, String)>)
        ensures
            log_view(r@) == self@,
    {
        &self.entries
    }
}

/// The request methods the interceptors tell apart.
#[derive(Clone, Copy, Debug, PartialEq, Eq, Structural)]
pub enum Method {
    Get,
    Put,
    Post,
    Delete,
    Options,
    Head,
    Trace,
    Connect,
    Patch,
}

/// What the interceptors read of an incoming request.
pub struct Request {
    pub method: Method,
    pub headers: Headers,
}

/// An outgoing response. `body` is `None` while the handler's own body
/// stands, and `Some(bytes)` once an interceptor has replaced it.
pub struct Response {
    pub status: u16,
    pub headers: Headers,
    pub body: Option<Vec<u8>>,
}

impl Response {
    /// A response with the given status, no headers and the handler's body.
    pub fn new(status: u16) -> (r: Response)
        ensures
            r.status == status,
            r.headers@ == Map::<Seq<char>, Seq<char>>::empty(),
            r.body is None,
    {
        Response { status, headers: Headers::new(), body: None }
    }
}

} // verus!
