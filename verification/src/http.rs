//! Requests to the marketplace API, sent from inside the signed-in browser
//! page, and the answers they get.

use vstd::prelude::*;
use vstd::string::*;

verus! {

/// The HTTP method of a request.
#[derive(Debug, Clone, Copy, PartialEq, Eq, Structural)]
pub enum RequestMethod {
    Get,
    Post,
    Options,
}

/// What can go wrong while a request is sent from the page.
#[derive(Debug, Clone)]
pub enum RequestError {
    /// The page failed to run the request; the cause's message.
    BackendError { message: String },
    /// The page gave no answer.
    NoResponse,
    /// The page's answer is not the expected JSON; the cause's message.
    InvalidJsonResp { message: String },
}

/// The map that header entries stand for: later entries win.
pub open spec fn entries_map(es: Seq<(String, String)>) -> Map<Seq<char>, Seq<char>>
    decreases es.len(),
{
    if es.len() == 0 {
        Map::empty()
    } else {
        entries_map(es.drop_last()).insert(es.last().0@, es.last().1@)
    }
}

/// No two entries share a key.
pub open spec fn keys_unique(es: Seq<(String, String)>) -> bool {
    forall|i: int, j: int| 0 <= i < j < es.len() ==> (#[trigger] es[i]).0@ != (#[trigger] es[j]).0@
}

/// HTTP headers: a map from names to values.
#[derive(Debug)]
pub struct Headers {
    entries: Vec<(String, String)>,
}

proof fn lemma_entries_map_dom(es: Seq<(String, String)>, k: Seq<char>)
    ensures
        entries_map(es).contains_key(k) <==> exists|i: int| 0 <= i < es.len() && (#[trigger] es[i]).0@ == k,
    decreases es.len(),
{
    if es.len() > 0 {
        lemma_entries_map_dom(es.drop_last(), k);
        if exists|i: int| 0 <= i < es.len() && (#[trigger] es[i]).0@ == k {
            let i = choose|i: int| 0 <= i < es.len() && (#[trigger] es[i]).0@ == k;
            if i < es.len() - 1 {
                assert(es.drop_last()[i] == es[i]);
            }
        }
        if exists|i: int| 0 <= i < es.drop_last().len() && (#[trigger] es.drop_last()[i]).0@ == k {
            let i = choose|i: int| 0 <= i < es.drop_last().len() && (#[trigger] es.drop_last()[i]).0@ == k;
            assert(es[i] == es.drop_last()[i]);
        }
    }
}

proof fn lemma_entries_map_update(es: Seq<(String, String)>, i: int, k: String, v: String)
    requires
        keys_unique(es),
        0 <= i < es.len(),
        es[i].0@ == k@,
    ensures
        entries_map(es.update(i, (k, v))) == entries_map(es).insert(k@, v@),
    decreases es.len(),
{
    let es2 = es.update(i, (k, v));
    if i == es.len() - 1 {
        assert(es2.drop_last() =~= es.drop_last());
        assert(entries_map(es2) =~= entries_map(es).insert(k@, v@));
    } else {
        assert(es2.drop_last() =~= es.drop_last().update(i, (k, v)));
        lemma_entries_map_update(es.drop_last(), i, k, v);
        assert(es.last().0@ != k@);
        assert(entries_map(es2) =~= entries_map(es).insert(k@, v@));
    }
}

impl Headers {
    /// The entries, in insertion order.
    pub closed spec fn entry_seq(&self) -> Seq<(String, String)> {
        self.entries@
    }

    /// No name appears twice.
    #[verifier::type_invariant]
    closed spec fn inv(self) -> bool {
        keys_unique(self.entries@)
    }

    /// The headers as a map from names to values.
    pub closed spec fn map(&self) -> Map<Seq<char>, Seq<char>> {
        entries_map(self.entries@)
    }

    /// No headers.
    pub fn new() -> (r: Headers)
        ensures
            r.map() == Map::<Seq<char>, Seq<char>>::empty(),
            r.entry_seq().len() == 0,
    {
        Headers { entries: Vec::new() }
    }

    /// Sets header `key` to `value`, replacing the value it had.
    pub fn insert(&mut self, key: String, value: String)
        ensures
            final(self).map() == old(self).map().insert(key@, value@),
    {
        let mut h = Headers::new();
        std::mem::swap(&mut h, self);
        let h2 = h.with_entry(key, value);
        *self = h2;
    }

    /// These headers with `key` set to `value`.
    pub fn with_entry(self, key: String, value: String) -> (r: Headers)
        ensures
            r.map() == self.map().insert(key@, value@),
    {
        proof {
            use_type_invariant(&self);
        }
        let Headers { entries } = self;
        let mut entries = entries;
        let n = entries.len();
        let mut i: usize = 0;
        while i < n
            invariant
                n == entries@.len(),
                i <= n,
                keys_unique(entries@),
                entries@ == self.entries@,
                forall|j: int| 0 <= j < i ==> (#[trigger] entries@[j]).0@ != key@,
            decreases n - i,
        {
            if crate::json::str_eq(entries[i].0.as_str(), key.as_str()) {
                let ghost es = entries@;
                proof {
                    lemma_entries_map_update(es, i as int, key, value);
                }
                entries.set(i, (key, value));
                proof {
                    assert forall|a: int, b: int| 0 <= a < b < entries@.len()
                        implies (#[trigger] entries@[a]).0@ != (#[trigger] entries@[b]).0@ by {
                        assert(entries@[a].0@ == es[a].0@);
                        assert(entries@[b].0@ == es[b].0@);
                    }
                }
                return Headers { entries };
            }
            i = i + 1;
        }
        let ghost es = entries@;
        entries.push((key, value));
        proof {
            assert(entries@.drop_last() =~= es);
            assert forall|a: int, b: int| 0 <= a < b < entries@.len()
                implies (#[trigger] entries@[a]).0@ != (#[trigger] entries@[b]).0@ by {
                if b < es.len() {
                    assert(entries@[a] == es[a]);
                    assert(entries@[b] == es[b]);
                } else {
                    assert(entries@[a] == es[a]);
                }
            }
        }
        Headers { entries }
    }

    /// The value of header `key`.
    pub fn get(&self, key: &str) -> (r: Option<&String>)
        ensures
            r is None <==> !self.map().contains_key(key@),
            r matches Some(v) ==> self.map()[key@] == v@,
    {
        proof {
            use_type_invariant(self);
            lemma_entries_map_dom(self.entries@, key@);
        }
        let n = self.entries.len();
        let mut i: usize = 0;
        while i < n
            invariant
                n == self.entries@.len(),
                keys_unique(self.entries@),
                i <= n,
                forall|j: int| 0 <= j < i ==> (#[trigger] self.entries@[j]).0@ != key@,
            decreases n - i,
        {
            if crate::json::str_eq(self.entries[i].0.as_str(), key) {
                proof {
                    lemma_entries_map_value(self.entries@, i as int);
                }
                return Some(&self.entries[i].1);
            }
            i = i + 1;
        }
        None
    }

    /// The entries, in insertion order.
    pub fn entries(&self) -> (r: &Vec<(String, String)>)
        ensures
            r@ == self.entry_seq(),
    {
        &self.entries
    }
}

/// Reading a header just set gives the value set, and the other headers
/// keep theirs.
pub proof fn law_header_read_after_write(h: Headers, key: Seq<char>, value: Seq<char>, other: Seq<char>)
    ensures
        h.map().insert(key, value).contains_key(key),
        h.map().insert(key, value)[key] == value,
        other != key ==> h.map().insert(key, value).contains_key(other) == h.map().contains_key(other),
        (other != key && h.map().contains_key(other)) ==> h.map().insert(key, value)[other] == h.map()[other],
{
}

proof fn lemma_entries_map_value(es: Seq<(String, String)>, i: int)
    requires
        keys_unique(es),
        0 <= i < es.len(),
    ensures
        entries_map(es).contains_key(es[i].0@),
        entries_map(es)[es[i].0@] == es[i].1@,
    decreases es.len(),
{
    if i < es.len() - 1 {
        assert(es.drop_last()[i] == es[i]);
        assert(keys_unique(es.drop_last()));
        lemma_entries_map_value(es.drop_last(), i);
        assert(es.last().0@ != es[i].0@);
    }
}

/// A request to the marketplace API.
#[derive(Debug)]
pub struct Request {
    url: String,
    method: RequestMethod,
    body: Option<String>,
    headers: Headers,
}

/// A request under construction.
#[derive(Debug)]
pub struct RequestBuilder {
    url: String,
    method: Option<RequestMethod>,
    body: Option<String>,
    headers: Headers,
}

/// The page's answer to a request.
#[derive(Debug)]
pub struct Response {
    pub status: u32,
    pub body: Option<String>,
    pub headers: Headers,
}

impl Request {
    pub closed spec fn url_text(&self) -> Seq<char> {
        self.url@
    }

    pub closed spec fn method_value(&self) -> RequestMethod {
        self.method
    }

    pub closed spec fn body_text(&self) -> Option<Seq<char>> {
        match self.body {
            Some(b) => Some(b@),
            None => None,
        }
    }

    pub closed spec fn header_map(&self) -> Map<Seq<char>, Seq<char>> {
        self.headers.map()
    }

    /// A builder for a request to `url`, with no method, body or header yet.
    pub fn builder(url: &str) -> (r: RequestBuilder)
        ensures
            r.url_text() == url@,
            r.method_value() is None,
            r.body_text() is None,
            r.header_map() == Map::<Seq<char>, Seq<char>>::empty(),
    {
        RequestBuilder { url: String::from_str(url), method: None, body: None, headers: Headers::new() }
    }

    pub fn url(&self) -> (r: &String)
        ensures
            r@ == self.url_text(),
    {
        &self.url
    }

    pub fn method(&self) -> (r: RequestMethod)
        ensures
            r == self.method_value(),
    {
        self.method
    }

    pub fn body(&self) -> (r: &Option<String>)
        ensures
            r is None <==> self.body_text() is None,
            r matches Some(b) ==> self.body_text() == Some(b@),
    {
        &self.body
    }

    pub fn headers(&self) -> (r: &Headers)
        ensures
            r.map() == self.header_map(),
    {
        &self.headers
    }
}

impl RequestBuilder {
    pub closed spec fn url_text(&self) -> Seq<char> {
        self.url@
    }

    pub closed spec fn method_value(&self) -> Option<RequestMethod> {
        self.method
    }

    pub closed spec fn body_text(&self) -> Option<Seq<char>> {
        match self.body {
            Some(b) => Some(b@),
            None => None,
        }
    }

    pub closed spec fn header_map(&self) -> Map<Seq<char>, Seq<char>> {
        self.headers.map()
    }

    /// A builder for a request to `url`, with no method, body or header yet.
    pub fn new(url: &str) -> (r: RequestBuilder)
        ensures
            r.url_text() == url@,
            r.method_value() is None,
            r.body_text() is None,
            r.header_map() == Map::<Seq<char>, Seq<char>>::empty(),
    {
        RequestBuilder { url: String::from_str(url), method: None, body: None, headers: Headers::new() }
    }

    /// Sets the method.
    pub fn with_method(self, method: RequestMethod) -> (r: Self)
        ensures
            r.url_text() == self.url_text(),
            r.method_value() == Some(method),
            r.body_text() == self.body_text(),
            r.header_map() == self.header_map(),
    {
        let mut s = self;
        s.method = Some(method);
        s
    }

    /// Sets the body.
    pub fn with_body(self, body: String) -> (r: Self)
        ensures
            r.url_text() == self.url_text(),
            r.method_value() == self.method_value(),
            r.body_text() == Some(body@),
            r.header_map() == self.header_map(),
    {
        let mut s = self;
        s.body = Some(body);
        s
    }

    /// Sets header `key` to `value`.
    pub fn with_header(self, key: &str, value: &str) -> (r: Self)
        ensures
            r.url_text() == self.url_text(),
            r.method_value() == self.method_value(),
            r.body_text() == self.body_text(),
            r.header_map() == self.header_map().insert(key@, value@),
    {
        let mut s = self;
        s.headers.insert(String::from_str(key), String::from_str(value));
        s
    }

    /// The request; its method must have been set.
    pub fn build(self) -> (r: Request)
        requires
            self.method_value() is Some,
        ensures
            r.url_text() == self.url_text(),
            Some(r.method_value()) == self.method_value(),
            r.body_text() == self.body_text(),
            r.header_map() == self.header_map(),
    {
        let method = match self.method {
            Some(m) => m,
            None => RequestMethod::Get,
        };
        Request { url: self.url, method, body: self.body, headers: self.headers }
    }
}

} // verus!
