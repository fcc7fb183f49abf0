//! The target server that stands in for a worker: which answer each request
//! gets.

use vstd::prelude::*;

verus! {

/// What the target server does with a request.
#[derive(Debug, Clone, Copy, PartialEq, Eq, Structural)]
pub enum Route {
    /// A health check: an empty answer with status 200.
    Health,
    /// A greeting: after the configured delay, the request body is sent back
    /// with status 200.
    Hello,
    /// Anything else: an empty answer with status 404.
    NotFound,
}

/// Where `route` sends a request with this method and path.
pub open spec fn route_of(method: Seq<char>, path: Seq<char>) -> Route {
    if method == "GET"@ && path == "/health"@ {
        Route::Health
    } else if method == "GET"@ && path == "/"@ {
        Route::Hello
    } else {
        Route::NotFound
    }
}

/// Whether two texts are equal, character by character.
fn text_eq(a: &str, b: &str) -> (eq: bool)
    ensures
        eq == (a@ == b@),
{
    let n = a.unicode_len();
    if n != b.unicode_len() {
        return false;
    }
    let mut i: usize = 0;
    while i < n
        invariant
            n == a@.len(),
            n == b@.len(),
            i <= n,
            forall|j: int| 0 <= j < i ==> a@[j] == b@[j],
        decreases n - i,
    {
        if a.get_char(i) != b.get_char(i) {
            return false;
        }
        i = i + 1;
    }
    assert(a@ =~= b@);
    true
}

/// Chooses the answer for a request from its method and path: `GET /health`
/// is a health check, `GET /` the greeting, and everything else is not
/// found.
pub fn route(method: &str, path: &str) -> (r: Route)
    ensures
        r == route_of(method@, path@),
        r == Route::Health <==> (method@ == "GET"@ && path@ == "/health"@),
        r == Route::Hello <==> (method@ == "GET"@ && path@ == "/"@),
        r == Route::NotFound <==> (method@ != "GET"@ || (path@ != "/health"@ && path@ != "/"@)),
{
    proof {
        lemma_route_answers(method@, path@);
    }
    if text_eq(method, "GET") {
        if text_eq(path, "/health") {
            return Route::Health;
        }
        if text_eq(path, "/") {
            return Route::Hello;
        }
    }
    Route::NotFound
}

/// What each answer is for: a health check exactly for `GET /health`, the
/// greeting exactly for `GET /`, and not found for every other request; in
/// particular no method but `GET` reaches anything but not found, whatever
/// the path.
pub proof fn lemma_route_answers(method: Seq<char>, path: Seq<char>)
    ensures
        route_of(method, path) == Route::Health <==> (method == "GET"@ && path == "/health"@),
        route_of(method, path) == Route::Hello <==> (method == "GET"@ && path == "/"@),
        route_of(method, path) == Route::NotFound <==> (method != "GET"@ || (path != "/health"@
            && path != "/"@)),
        method != "GET"@ ==> route_of(method, path) == Route::NotFound,
{
    reveal_strlit("/health");
    reveal_strlit("/");
    assert("/health"@ != "/"@) by {
        assert("/health"@.len() != "/"@.len());
    }
}

impl Route {
    /// The status of the answer on this route.
    pub fn status(&self) -> (code: u16)
        ensures
            code == (match self {
                Route::NotFound => 404u16,
                _ => 200u16,
            }),
    {
        match self {
            Route::NotFound => 404,
            _ => 200,
        }
    }
}

} // verus!
