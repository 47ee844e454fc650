//! Requests and responses.
//!
//! A [`Request`] carries a method, a target, a header mapping and exactly one
//! [`Body`]; a [`Response`] carries a status code, a header mapping and
//! exactly one [`Body`]. Header keys compare case-insensitively (ASCII), and
//! repeated keys keep their insertion order.

use vstd::prelude::*;

use crate::body::Body;

verus! {

/// An HTTP request method.
#[derive(Clone, Copy, Debug, PartialEq, Eq, Structural)]
pub enum Method {
    Get,
    Head,
    Post,
    Put,
    Delete,
    Connect,
    Options,
    Trace,
    Patch,
}

/// The ASCII lower-case fold of one byte.
pub open spec fn fold_byte(b: u8) -> u8 {
    if 65 <= b <= 90 {
        (b + 32) as u8
    } else {
        b
    }
}

/// Whether two header names are equal up to ASCII case.
pub open spec fn names_match(a: Seq<u8>, b: Seq<u8>) -> bool {
    a.map_values(|x: u8| fold_byte(x)) == b.map_values(|x: u8| fold_byte(x))
}

/// The value of the first entry whose name matches `name` up to ASCII case.
pub open spec fn first_match(entries: Seq<(Seq<u8>, Seq<u8>)>, name: Seq<u8>) -> Option<Seq<u8>>
    decreases entries.len(),
{
    if entries.len() == 0 {
        None
    } else if names_match(entries[0].0, name) {
        Some(entries[0].1)
    } else {
        first_match(entries.skip(1), name)
    }
}

/// The values of all entries whose name matches `name` up to ASCII case, in
/// insertion order.
pub open spec fn all_matches(entries: Seq<(Seq<u8>, Seq<u8>)>, name: Seq<u8>) -> Seq<Seq<u8>>
    decreases entries.len(),
{
    if entries.len() == 0 {
        Seq::empty()
    } else if names_match(entries[0].0, name) {
        seq![entries[0].1] + all_matches(entries.skip(1), name)
    } else {
        all_matches(entries.skip(1), name)
    }
}

/// Compares two byte strings for equality up to ASCII case.
pub fn bytes_eq_ignore_case(a: &[u8], b: &[u8]) -> (r: bool)
    ensures
        r == names_match(a@, b@),
{
    let ghost fa = a@.map_values(|x: u8| fold_byte(x));
    let ghost fb = b@.map_values(|x: u8| fold_byte(x));
    if a.len() != b.len() {
        proof {
            assert(fa.len() != fb.len());
        }
        return false;
    }
    let mut i: usize = 0;
    while i < a.len()
        invariant
            a@.len() == b@.len(),
            i <= a@.len(),
            fa == a@.map_values(|x: u8| fold_byte(x)),
            fb == b@.map_values(|x: u8| fold_byte(x)),
            forall|j: int| 0 <= j < i ==> fa[j] == fb[j],
        decreases a@.len() - i,
    {
        let mut ca = a[i];
        let mut cb = b[i];
        if 65 <= ca && ca <= 90 {
            ca = ca + 32;
        }
        if 65 <= cb && cb <= 90 {
            cb = cb + 32;
        }
        if ca != cb {
            proof {
                assert(fa[i as int] != fb[i as int]);
            }
            return false;
        }
        i = i + 1;
    }
    proof {
        assert(fa =~= fb);
    }
    true
}

/// A header mapping: keys compare case-insensitively, repeated keys keep
/// their insertion order.
pub struct Headers {
    entries: Vec<(Vec<u8>, Vec<u8>)>,
}

impl View for Headers {
    type V = Seq<(Seq<u8>, Seq<u8>)>;

    closed spec fn view(&self) -> Seq<(Seq<u8>, Seq<u8>)> {
        self.entries@.map_values(|e: (Vec<u8>, Vec<u8>)| (e.0@, e.1@))
    }
}

impl Headers {
    /// An empty header mapping.
    pub fn new() -> (h: Headers)
        ensures
            h@ == Seq::<(Seq<u8>, Seq<u8>)>::empty(),
    {
        let h = Headers { entries: Vec::new() };
        proof {
            assert(h@ =~= Seq::<(Seq<u8>, Seq<u8>)>::empty());
        }
        h
    }

    /// The number of entries.
    pub fn len(&self) -> (n: usize)
        ensures
            n == self@.len(),
    {
        self.entries.len()
    }

    /// Appends an entry. An entry for a name already present is kept in
    /// addition to the earlier ones, after them.
    pub fn append(&mut self, name: Vec<u8>, value: Vec<u8>)
        ensures
            final(self)@ == old(self)@.push((name@, value@)),
    {
        let ghost pushed = (name@, value@);
        self.entries.push((name, value));
        proof {
            assert(self@ =~= old(self)@.push(pushed));
        }
    }

    /// The value of the first entry whose name equals `name` up to ASCII
    /// case, or `None` when no entry matches.
    pub fn get(&self, name: &[u8]) -> (r: Option<&Vec<u8>>)
        ensures
            match r {
                Some(v) => first_match(self@, name@) == Some(v@),
                None => first_match(self@, name@) is None,
            },
    {
        let ghost whole = self@;
        let mut i: usize = 0;
        proof {
            assert(whole.skip(0) =~= whole);
        }
        while i < self.entries.len()
            invariant
                whole == self@,
                i <= self@.len(),
                first_match(whole, name@) == first_match(whole.skip(i as int), name@),
            decreases self@.len() - i,
        {
            let ghost rest = whole.skip(i as int);
            if bytes_eq_ignore_case(self.entries[i].0.as_slice(), name) {
                proof {
                    assert(rest[0] == whole[i as int]);
                }
                return Some(&self.entries[i].1);
            }
            proof {
                assert(rest[0] == whole[i as int]);
                assert(rest.skip(1) =~= whole.skip(i + 1 as int));
            }
            i = i + 1;
        }
        proof {
            assert(whole.skip(i as int) =~= Seq::<(Seq<u8>, Seq<u8>)>::empty());
        }
        None
    }

    /// The values of all entries whose name equals `name` up to ASCII case,
    /// in insertion order.
    pub fn get_all(&self, name: &[u8]) -> (r: Vec<Vec<u8>>)
        ensures
            r@.map_values(|v: Vec<u8>| v@) == all_matches(self@, name@),
    {
        let ghost whole = self@;
        let mut out: Vec<Vec<u8>> = Vec::new();
        let mut i: usize = 0;
        proof {
            assert(whole.skip(0) =~= whole);
            assert(out@.map_values(|v: Vec<u8>| v@) + all_matches(whole, name@)
                =~= all_matches(whole, name@));
        }
        while i < self.entries.len()
            invariant
                whole == self@,
                i <= self@.len(),
                out@.map_values(|v: Vec<u8>| v@) + all_matches(whole.skip(i as int), name@)
                    == all_matches(whole, name@),
            decreases self@.len() - i,
        {
            let ghost rest = whole.skip(i as int);
            let ghost out_pre = out@.map_values(|v: Vec<u8>| v@);
            proof {
                assert(rest[0] == whole[i as int]);
                assert(rest.skip(1) =~= whole.skip(i + 1 as int));
            }
            if bytes_eq_ignore_case(self.entries[i].0.as_slice(), name) {
                let value = clone_bytes(&self.entries[i].1);
                out.push(value);
                proof {
                    assert(out@.map_values(|v: Vec<u8>| v@) =~= out_pre.push(rest[0].1));
                    assert(out_pre.push(rest[0].1) + all_matches(rest.skip(1), name@)
                        =~= out_pre + (seq![rest[0].1] + all_matches(rest.skip(1), name@)));
                }
            }
            i = i + 1;
        }
        proof {
            assert(whole.skip(i as int) =~= Seq::<(Seq<u8>, Seq<u8>)>::empty());
            assert(out@.map_values(|v: Vec<u8>| v@) + all_matches(whole.skip(i as int), name@)
                =~= out@.map_values(|v: Vec<u8>| v@));
        }
        out
    }
}

/// Copies a byte string.
pub fn clone_bytes(v: &Vec<u8>) -> (r: Vec<u8>)
    ensures
        r@ == v@,
{
    let mut out: Vec<u8> = Vec::new();
    let mut i: usize = 0;
    while i < v.len()
        invariant
            i <= v@.len(),
            out@ == v@.take(i as int),
        decreases v@.len() - i,
    {
        out.push(v[i]);
        proof {
            assert(v@.take(i + 1 as int) =~= v@.take(i as int).push(v@[i as int]));
        }
        i = i + 1;
    }
    proof {
        assert(v@.take(v@.len() as int) =~= v@);
    }
    out
}

/// An HTTP request: method, target, headers and exactly one body.
///
/// The body is consumed by at most one `respond` call.
pub struct Request {
    /// The request method.
    pub method: Method,
    /// The request target, as its bytes on the wire.
    pub target: Vec<u8>,
    /// The request headers.
    pub headers: Headers,
    /// The request payload.
    pub body: Body,
}

impl Request {
    /// A request with the given method and target, no headers and an empty
    /// body.
    pub fn new(method: Method, target: Vec<u8>) -> (r: Request)
        ensures
            r.method == method,
            r.target@ == target@,
            r.headers@ == Seq::<(Seq<u8>, Seq<u8>)>::empty(),
            r.body.is_drained(),
    {
        Request { method, target, headers: Headers::new(), body: Body::empty() }
    }

    /// A request with the given method, target and payload, and no headers.
    pub fn with_body(method: Method, target: Vec<u8>, body: Body) -> (r: Request)
        ensures
            r.method == method,
            r.target@ == target@,
            r.headers@ == Seq::<(Seq<u8>, Seq<u8>)>::empty(),
            r.body == body,
    {
        Request { method, target, headers: Headers::new(), body }
    }
}

/// An HTTP response: status code, headers and exactly one body.
///
/// The body is consumed when the response is written back to the transport.
pub struct Response {
    /// The status code; always within `100..=599`.
    pub status: u16,
    /// The response headers.
    pub headers: Headers,
    /// The response payload.
    pub body: Body,
}

impl Response {
    /// Whether the status code is structurally valid.
    pub open spec fn wf(self) -> bool {
        100 <= self.status <= 599
    }

    /// A response with the given status and payload, and no headers.
    pub fn new(status: u16, body: Body) -> (r: Response)
        requires
            100 <= status <= 599,
        ensures
            r.status == status,
            r.headers@ == Seq::<(Seq<u8>, Seq<u8>)>::empty(),
            r.body == body,
            r.wf(),
    {
        Response { status, headers: Headers::new(), body }
    }
}

} // verus!
