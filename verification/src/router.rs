//! The request-to-response decision of the server: which of the two
//! routes a request hits and exactly what comes back, for every method
//! and path.

use vstd::prelude::*;

use crate::json::{encode_response, response_json};
use crate::model::fixture_departures;
use crate::model::nextrip_response;
use crate::parse::{parse_stop_id, spec_parse_i32};

verus! {

/// One HTTP response: status code, content type where one is set, and body.
pub struct HttpReply {
    pub status: u16,
    pub content_type: Option<String>,
    pub body: String,
}

/// Whether the reply carries exactly the given content type.
pub open spec fn content_type_is(r: HttpReply, ct: Seq<char>) -> bool {
    match r.content_type {
        Some(s) => s@ == ct,
        None => false,
    }
}

/// Whether `p` matches the `/nextrip/{stop_id}` route: the nine-character
/// prefix `/nextrip/` followed by one non-empty segment without a slash.
pub open spec fn is_nextrip_path(p: Seq<char>) -> bool {
    &&& p.len() > 9
    &&& p.subrange(0, 9) == "/nextrip/"@
    &&& forall|i: int| 9 <= i < p.len() ==> p[i] != '/'
}

/// The `stop_id` segment of a `/nextrip/{stop_id}` path.
pub open spec fn nextrip_stop_id(p: Seq<char>) -> Seq<char> {
    p.subrange(9, p.len() as int)
}

/// Character-by-character string equality.
fn str_eq(a: &str, b: &str) -> (r: bool)
    ensures
        r == (a@ == b@),
{
    let na = a.unicode_len();
    let nb = b.unicode_len();
    if na != nb {
        return false;
    }
    let mut i: usize = 0;
    while i < na
        invariant
            na == a@.len(),
            nb == b@.len(),
            na == nb,
            i <= na,
            forall|j: int| 0 <= j < i ==> a@[j] == b@[j],
        decreases na - i,
    {
        let ca = a.get_char(i);
        let cb = b.get_char(i);
        if ca != cb {
            proof {
                assert(a@[i as int] != b@[i as int]);
            }
            return false;
        }
        i += 1;
    }
    proof {
        assert(a@ =~= b@);
    }
    true
}

/// Decides the response for one request, exactly as the server behaves:
/// `GET /hello` greets, `GET /nextrip/{stop_id}` serves the fixed
/// departures as JSON when `stop_id` is a 32-bit integer and is a bad
/// request otherwise, any other path is not found, and any other method
/// is not allowed.
pub fn respond(method: &str, path: &str) -> (r: HttpReply)
    ensures
        method@ != "GET"@ ==> r.status == 405,
        method@ == "GET"@ && path@ == "/hello"@ ==> r.status == 200 && r.body@ == "Hello!"@
            && content_type_is(r, "text/plain; charset=utf-8"@),
        method@ == "GET"@ && is_nextrip_path(path@) && spec_parse_i32(nextrip_stop_id(path@))
            is Some ==> r.status == 200 && r.body@ == response_json(fixture_departures())
            && content_type_is(r, "application/json"@),
        method@ == "GET"@ && is_nextrip_path(path@) && spec_parse_i32(nextrip_stop_id(path@))
            is None ==> r.status == 400,
        method@ == "GET"@ && path@ != "/hello"@ && !is_nextrip_path(path@) ==> r.status == 404,
{
    if !str_eq(method, "GET") {
        return HttpReply { status: 405, content_type: None, body: String::new() };
    }
    if str_eq(path, "/hello") {
        proof {
            reveal_strlit("/hello");
            assert(!is_nextrip_path(path@));
        }
        return HttpReply {
            status: 200,
            content_type: Some("text/plain; charset=utf-8".to_owned()),
            body: "Hello!".to_owned(),
        };
    }
    let n = path.unicode_len();
    if n > 9 {
        let prefix = path.substring_char(0, 9);
        if str_eq(prefix, "/nextrip/") {
            let rest = path.substring_char(9, n);
            let m = rest.unicode_len();
            let mut i: usize = 0;
            while i < m
                invariant
                    method@ == "GET"@,
                    path@ != "/hello"@,
                    n == path@.len(),
                    m == rest@.len(),
                    rest@ == path@.subrange(9, n as int),
                    9 < n,
                    i <= m,
                    forall|j: int| 0 <= j < i ==> rest@[j] != '/',
                decreases m - i,
            {
                let c = rest.get_char(i);
                if c == '/' {
                    proof {
                        assert(path@[9 + i as int] == '/');
                        assert(!is_nextrip_path(path@));
                    }
                    return HttpReply { status: 404, content_type: None, body: String::new() };
                }
                i += 1;
            }
            proof {
                assert(forall|k: int| 9 <= k < path@.len() ==> path@[k] == rest@[k - 9]);
                assert(is_nextrip_path(path@));
                assert(rest@ == nextrip_stop_id(path@));
            }
            if parse_stop_id(rest).is_some() {
                let body = encode_response(&nextrip_response());
                return HttpReply {
                    status: 200,
                    content_type: Some("application/json".to_owned()),
                    body,
                };
            } else {
                return HttpReply { status: 400, content_type: None, body: String::new() };
            }
        }
    }
    proof {
        assert(!is_nextrip_path(path@));
    }
    HttpReply { status: 404, content_type: None, body: String::new() }
}

} // verus!
