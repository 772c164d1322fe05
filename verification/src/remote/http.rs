//! The HTTP boundary of the remote connectors, as a trait so that tests can route
//! requests to canned answers instead of the network.

use vstd::prelude::*;

use crate::text::{chars_of, contains_at, contains_str, extend_chars, string_of};

verus! {

/// A minimal HTTP client: POST or GET JSON, answering with the response body.
pub trait HttpClient: Send + Sync {
    fn post_json(&self, url: &str, body: &str, headers: &[(&str, &str)]) -> Result<String, String>;

    fn get_json(&self, url: &str, headers: &[(&str, &str)]) -> Result<String, String>;
}

/// The client that goes to the network; the read timeout is raised for long polling.
pub struct UreqHttp {
    pub read_timeout_ms: u64,
}

impl UreqHttp {
    pub fn new(read_timeout_ms: u64) -> (r: UreqHttp)
        ensures
            r.read_timeout_ms == read_timeout_ms,
    {
        UreqHttp { read_timeout_ms }
    }
}

/// A client that answers from a route table: `(fragment, body)` pairs, the first whose
/// fragment occurs in the URL wins.
pub struct MockHttp {
    pub routes: Vec<(String, String)>,
}

pub open spec fn route_views(r: Seq<(String, String)>) -> Seq<(Seq<char>, Seq<char>)> {
    r.map_values(|p: (String, String)| (p.0@, p.1@))
}

/// The body of the first route whose fragment occurs in `url`.
pub open spec fn spec_route(routes: Seq<(Seq<char>, Seq<char>)>, url: Seq<char>) -> Option<Seq<char>>
    decreases routes.len(),
{
    if routes.len() == 0 {
        None
    } else if contains_at(url, routes[0].0) {
        Some(routes[0].1)
    } else {
        spec_route(routes.drop_first(), url)
    }
}

/// What a request to `url` answers: the routed body, or an error naming the URL.
pub open spec fn spec_mock_answer(routes: Seq<(Seq<char>, Seq<char>)>, url: Seq<char>) -> Result<Seq<char>, Seq<char>> {
    match spec_route(routes, url) {
        Some(b) => Ok(b),
        None => Err("mock: no route for "@ + url),
    }
}

pub open spec fn answer_view(r: Result<String, String>) -> Result<Seq<char>, Seq<char>> {
    match r {
        Ok(s) => Ok(s@),
        Err(e) => Err(e@),
    }
}

impl MockHttp {
    pub fn new(routes: Vec<(String, String)>) -> (m: MockHttp)
        ensures
            m.routes == routes,
    {
        MockHttp { routes }
    }

    fn route(&self, url: &str) -> (r: Result<String, String>)
        ensures
            answer_view(r) == spec_mock_answer(route_views(self.routes@), url@),
    {
        let u = chars_of(url);
        let mut i: usize = 0;
        let ghost rv = route_views(self.routes@);
        assert(rv.skip(0) =~= rv);
        while i < self.routes.len()
            invariant
                i <= self.routes.len(),
                u@ == url@,
                rv == route_views(self.routes@),
                spec_route(rv, url@) == spec_route(rv.skip(i as int), url@),
            decreases self.routes.len() - i,
        {
            let (frag, resp) = &self.routes[i];
            assert(rv.skip(i as int)[0] == (frag@, resp@));
            assert(rv.skip(i as int).drop_first() =~= rv.skip(i + 1));
            if contains_str(&u, frag.as_str()) {
                return Ok(resp.clone());
            }
            i = i + 1;
        }
        let mut e = chars_of("mock: no route for ");
        extend_chars(&mut e, &u);
        Err(string_of(&e))
    }
}

impl HttpClient for MockHttp {
    fn post_json(&self, url: &str, body: &str, headers: &[(&str, &str)]) -> (r: Result<String, String>)
        ensures
            answer_view(r) == spec_mock_answer(route_views(self.routes@), url@),
    {
        self.route(url)
    }

    fn get_json(&self, url: &str, headers: &[(&str, &str)]) -> (r: Result<String, String>)
        ensures
            answer_view(r) == spec_mock_answer(route_views(self.routes@), url@),
    {
        self.route(url)
    }
}

} // verus!
