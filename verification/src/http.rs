//! The values that travel through the server: methods, requests, responses
//! and the parameters taken from a path or a query string.

use crate::text::{
    decimal, from_chars, lemma_split_has_two, push_decimal, same_text, split, split_chars, texts,
    to_chars, uppercase, views,
};
use vstd::hash_map::StringHashMap;
use vstd::prelude::*;
use vstd::std_specs::convert::FromSpecImpl;
use vstd::utf8::encode_utf8;

verus! {

/// The request methods that a route can be bound to.
#[derive(Debug, Clone, Copy, PartialEq, Eq, Structural)]
pub enum Method {
    GET,
    POST,
    PUT,
    DELETE,
    PATCH,
    HEAD,
    OPTIONS,
}

impl Method {
    /// The method that an upper-case token names. A token that names none
    /// stands for `GET`.
    pub open spec fn of_upper(token: Seq<char>) -> Method {
        if token == "GET"@ {
            Method::GET
        } else if token == "POST"@ {
            Method::POST
        } else if token == "PUT"@ {
            Method::PUT
        } else if token == "DELETE"@ {
            Method::DELETE
        } else if token == "PATCH"@ {
            Method::PATCH
        } else if token == "HEAD"@ {
            Method::HEAD
        } else if token == "OPTIONS"@ {
            Method::OPTIONS
        } else {
            Method::GET
        }
    }

    /// The method that a token names, whatever its case.
    pub open spec fn of_token(token: Seq<char>) -> Method {
        Method::of_upper(uppercase(token))
    }

    /// The name of the method, in upper case.
    pub open spec fn name(self) -> Seq<char> {
        match self {
            Method::GET => "GET"@,
            Method::POST => "POST"@,
            Method::PUT => "PUT"@,
            Method::DELETE => "DELETE"@,
            Method::PATCH => "PATCH"@,
            Method::HEAD => "HEAD"@,
            Method::OPTIONS => "OPTIONS"@,
        }
    }

    /// Reads a method from a token that is already in upper case.
    pub fn from_upper(token: &str) -> (m: Method)
        ensures
            m == Method::of_upper(token@),
    {
        if same_text(token, "GET") {
            Method::GET
        } else if same_text(token, "POST") {
            Method::POST
        } else if same_text(token, "PUT") {
            Method::PUT
        } else if same_text(token, "DELETE") {
            Method::DELETE
        } else if same_text(token, "PATCH") {
            Method::PATCH
        } else if same_text(token, "HEAD") {
            Method::HEAD
        } else if same_text(token, "OPTIONS") {
            Method::OPTIONS
        } else {
            Method::GET
        }
    }

    /// The name of the method, in upper case.
    pub fn as_str(&self) -> (s: &'static str)
        ensures
            s@ == self.name(),
    {
        match self {
            Method::GET => "GET",
            Method::POST => "POST",
            Method::PUT => "PUT",
            Method::DELETE => "DELETE",
            Method::PATCH => "PATCH",
            Method::HEAD => "HEAD",
            Method::OPTIONS => "OPTIONS",
        }
    }
}

impl<'a> From<&'a str> for Method {
    /// Reads a method from a token in any case.
    fn from(s: &'a str) -> (m: Method) {
        let upper = s.to_uppercase();
        Method::from_upper(upper.as_str())
    }
}

impl<'a> FromSpecImpl<&'a str> for Method {
    open spec fn obeys_from_spec() -> bool {
        true
    }

    open spec fn from_spec(s: &'a str) -> Method {
        Method::of_token(s@)
    }
}

/// Every method is the one that its own name stands for.
pub proof fn lemma_method_name_round_trip(m: Method)
    ensures
        Method::of_upper(m.name()) == m,
{
    reveal_strlit("GET");
    reveal_strlit("POST");
    reveal_strlit("PUT");
    reveal_strlit("DELETE");
    reveal_strlit("PATCH");
    reveal_strlit("HEAD");
    reveal_strlit("OPTIONS");
    assert("GET"@.len() == 3 && "POST"@.len() == 4 && "PUT"@.len() == 3 && "DELETE"@.len() == 6
        && "PATCH"@.len() == 5 && "HEAD"@.len() == 4 && "OPTIONS"@.len() == 7);
    assert("GET"@[0] == 'G' && "PUT"@[0] == 'P');
    assert("POST"@[0] == 'P' && "HEAD"@[0] == 'H');
}

/// The parameters that a route's pattern took from a path, by name.
pub struct PathParams {
    pub params: StringHashMap<String>,
}

impl View for PathParams {
    type V = Map<Seq<char>, Seq<char>>;

    open spec fn view(&self) -> Map<Seq<char>, Seq<char>> {
        self.params@.map_values(|v: String| v@)
    }
}

impl PathParams {
    /// No parameters.
    pub fn new() -> (p: PathParams)
        ensures
            p@ == Map::<Seq<char>, Seq<char>>::empty(),
    {
        let p = PathParams { params: StringHashMap::new() };
        assert(p@ =~= Map::<Seq<char>, Seq<char>>::empty());
        p
    }

    /// Binds `name` to `value`; an earlier value of `name` is replaced.
    pub fn insert(&mut self, name: String, value: String)
        ensures
            final(self)@ == old(self)@.insert(name@, value@),
    {
        self.params.insert(name, value);
        assert(self@ =~= old(self)@.insert(name@, value@));
    }

    /// The value bound to `name`, if there is one.
    pub fn get(&self, name: &str) -> (r: Option<&String>)
        ensures
            r is Some == self@.contains_key(name@),
            r is Some ==> r->Some_0@ == self@[name@],
    {
        self.params.get(name)
    }

    /// Whether `name` is bound.
    pub fn contains(&self, name: &str) -> (r: bool)
        ensures
            r == self@.contains_key(name@),
    {
        self.params.contains_key(name)
    }

    /// The number of bound names.
    pub fn len(&self) -> (n: usize)
        ensures
            n == self@.len(),
    {
        proof {
            lemma_values_keep_domain(self.params@);
        }
        self.params.len()
    }
}

/// Mapping the values of a map keeps its keys, and so their number.
pub proof fn lemma_values_keep_domain(m: Map<Seq<char>, String>)
    ensures
        m.map_values(|v: String| v@).dom() == m.dom(),
        m.map_values(|v: String| v@).len() == m.len(),
{
    assert(m.map_values(|v: String| v@).dom() =~= m.dom());
}

/// The parameters of a query string: each key with its values, in the order
/// in which they stand in the query.
pub struct QueryParams {
    pub params: StringHashMap<Vec<String>>,
}

impl View for QueryParams {
    type V = Map<Seq<char>, Seq<Seq<char>>>;

    open spec fn view(&self) -> Map<Seq<char>, Seq<Seq<char>>> {
        self.params@.map_values(|v: Vec<String>| texts(v@))
    }
}

/// Whether every `&`-separated part of a query holds a `=`. The empty query
/// has no parts.
pub open spec fn query_well_formed(query: Seq<char>) -> bool {
    query.len() > 0 ==> forall|i: int|
        0 <= i < split(query, '&').len() ==> (#[trigger] split(query, '&')[i]).contains('=')
}

/// What the parts of a query say: in each part the text before the first `=`
/// is a key and the text up to the next `=` is one more value of that key.
pub open spec fn collect_pairs(parts: Seq<Seq<char>>) -> Map<Seq<char>, Seq<Seq<char>>>
    decreases parts.len(),
{
    if parts.len() == 0 {
        Map::empty()
    } else {
        let earlier = collect_pairs(parts.drop_last());
        let fields = split(parts.last(), '=');
        let key = fields[0];
        let values = if earlier.contains_key(key) {
            earlier[key]
        } else {
            Seq::empty()
        };
        earlier.insert(key, values.push(fields[1]))
    }
}

/// The parameters that a query string holds.
pub open spec fn query_map(query: Seq<char>) -> Map<Seq<char>, Seq<Seq<char>>> {
    if query.len() == 0 {
        Map::empty()
    } else {
        collect_pairs(split(query, '&'))
    }
}

impl QueryParams {
    /// No parameters.
    pub fn new() -> (q: QueryParams)
        ensures
            q@ == Map::<Seq<char>, Seq<Seq<char>>>::empty(),
    {
        let q = QueryParams { params: StringHashMap::new() };
        assert(q@ =~= Map::<Seq<char>, Seq<Seq<char>>>::empty());
        q
    }

    /// The values of `key`, if the query held it.
    pub fn get(&self, key: &str) -> (r: Option<&Vec<String>>)
        ensures
            r is Some == self@.contains_key(key@),
            r is Some ==> texts(r->Some_0@) == self@[key@],
    {
        self.params.get(key)
    }

    /// Adds one more value to those of `key`.
    pub fn add(&mut self, key: String, value: String)
        ensures
            final(self)@ == old(self)@.insert(
                key@,
                (if old(self)@.contains_key(key@) {
                    old(self)@[key@]
                } else {
                    Seq::empty()
                }).push(value@),
            ),
    {
        let mut values: Vec<String> = Vec::new();
        match self.params.get(key.as_str()) {
            Some(earlier) => {
                let mut i: usize = 0;
                while i < earlier.len()
                    invariant
                        i <= earlier.len(),
                        values@ == earlier@.take(i as int),
                    decreases earlier.len() - i,
                {
                    values.push(earlier[i].clone());
                    i += 1;
                }
                assert(earlier@.take(earlier.len() as int) == earlier@);
                assert(texts(values@) == old(self)@[key@]);
            },
            None => {
                assert(texts(values@) =~= Seq::<Seq<char>>::empty());
            },
        }
        let ghost before = values@;
        values.push(value);
        assert(texts(values@) =~= texts(before).push(value@));
        self.params.insert(key, values);
        assert(self.params@ == old(self).params@.insert(key@, values));
        assert(self@ =~= old(self)@.insert(
            key@,
            (if old(self)@.contains_key(key@) {
                old(self)@[key@]
            } else {
                Seq::empty()
            }).push(value@),
        ));
    }

    /// Reads a query string, or gives `None` where a part of it holds no `=`.
    pub fn parse(query_str: &str) -> (r: Option<QueryParams>)
        ensures
            r is Some == query_well_formed(query_str@),
            r is Some ==> r->Some_0@ == query_map(query_str@),
    {
        let mut params = QueryParams::new();
        let chars = to_chars(query_str);
        if chars.len() > 0 {
            let parts = split_chars(&chars, '&');
            let mut i: usize = 0;
            while i < parts.len()
                invariant
                    i <= parts.len(),
                    views(parts@) == split(query_str@, '&'),
                    query_str@.len() > 0,
                    params@ == collect_pairs(views(parts@).take(i as int)),
                    forall|j: int| 0 <= j < i ==> (#[trigger] views(parts@)[j]).contains('='),
                decreases parts.len() - i,
            {
                let fields = split_chars(&parts[i], '=');
                proof {
                    lemma_split_has_two(parts@[i as int]@, '=');
                    assert(views(parts@)[i as int] == parts@[i as int]@);
                }
                if fields.len() < 2 {
                    return None;
                }
                let key = from_chars(&fields[0]);
                let value = from_chars(&fields[1]);
                proof {
                    let done = views(parts@).take(i + 1);
                    assert(done.drop_last() == views(parts@).take(i as int));
                    assert(done.last() == parts@[i as int]@);
                    assert(views(fields@)[0] == fields@[0]@);
                    assert(views(fields@)[1] == fields@[1]@);
                }
                params.add(key, value);
                i += 1;
            }
            assert(views(parts@).take(parts.len() as int) == views(parts@));
        }
        Some(params)
    }

    /// Reads a query string in which every `&`-separated part holds a `=`.
    pub fn from(query_str: &str) -> (q: QueryParams)
        requires
            query_well_formed(query_str@),
        ensures
            q@ == query_map(query_str@),
    {
        match QueryParams::parse(query_str) {
            Some(q) => q,
            None => vstd::pervasive::unreached(),
        }
    }
}

/// One request, as a handler sees it.
pub struct Request {
    pub path: String,
    pub method: Method,
    pub headers: StringHashMap<String>,
    pub body: Vec<u8>,
    pub path_params: PathParams,
    pub query_params: QueryParams,
}

/// One response, as a handler gives it.
pub struct Response {
    pub status: u16,
    pub headers: StringHashMap<String>,
    pub body: String,
}

/// The text that goes over the wire for a status and a body: the status line,
/// the length of the body in bytes as the only header, an empty line, and the
/// body.
pub open spec fn envelope(status: nat, body: Seq<char>) -> Seq<char> {
    "HTTP/1.1 "@ + decimal(status) + "\r\nContent-Length: "@ + decimal(encode_utf8(body).len())
        + "\r\n\r\n"@ + body
}

impl Response {
    /// A response with the given status and body, and no headers.
    pub fn new(status: u16, body: String) -> (r: Response)
        ensures
            r.status == status,
            r.body == body,
            r.headers@ == Map::<Seq<char>, String>::empty(),
    {
        Response { status, headers: StringHashMap::new(), body }
    }

    /// The text that goes over the wire for this response.
    pub open spec fn wire(&self) -> Seq<char> {
        envelope(self.status as nat, self.body@)
    }

    /// Writes the response out as it goes over the wire. The headers of the
    /// response are not part of it.
    pub fn to_http(&self) -> (s: String)
        ensures
            s@ == self.wire(),
    {
        let mut out = String::new();
        out.append("HTTP/1.1 ");
        push_decimal(&mut out, self.status as u64);
        out.append("\r\nContent-Length: ");
        let length = self.body.as_str().as_bytes().len();
        push_decimal(&mut out, length as u64);
        out.append("\r\n\r\n");
        out.append(self.body.as_str());
        assert(out@ =~= self.wire());
        out
    }
}

} // verus!
