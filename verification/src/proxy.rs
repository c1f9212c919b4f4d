//! What a request passes on its way through the proxy in front of the server.
use vstd::prelude::*;

use crate::json::{json_members, JsonValue, JsonView};
use crate::text::{ascii_uppercase, concat, eq_ignore_ascii_case, text_eq};
use crate::text_map::TextMap;
use crate::views::{opt_view, views, Duplicate};

verus! {

/// A header of a request or a response.
#[derive(Debug)]
pub struct Header {
    pub name: String,
    pub value: String,
}

/// [`Header`], as contracts see it.
#[verifier::ext_equal]
pub struct HeaderView {
    pub name: Seq<char>,
    pub value: Seq<char>,
}

impl View for Header {
    type V = HeaderView;

    open spec fn view(&self) -> HeaderView {
        HeaderView {
            name: self.name@,
            value: self.value@,
        }
    }
}

impl Duplicate for Header {
    fn duplicate(&self) -> (r: Self) {
        Header {
            name: self.name.clone(),
            value: self.value.clone(),
        }
    }
}

/// The two names are the same but for the case of ASCII letters.
pub open spec fn same_name(a: Seq<char>, b: Seq<char>) -> bool {
    ascii_uppercase(a) == ascii_uppercase(b)
}

/// A header of a request is passed on: all are but the host.
pub open spec fn passes_in(header: HeaderView) -> bool {
    !same_name(header.name, "host"@)
}

/// A header of a response is passed on: all are but those that tell how its body is sent.
pub open spec fn passes_out(header: HeaderView) -> bool {
    !same_name(header.name, "transfer-encoding"@) && !same_name(header.name, "content-length"@)
}

/// The headers of a request that are passed on, in order.
pub fn request_headers(headers: &Vec<Header>) -> (r: Vec<Header>)
    ensures
        views(r@) == views(headers@).filter(|h: HeaderView| passes_in(h)),
{
    let ghost all = views(headers@);
    let ghost keep = |h: HeaderView| passes_in(h);
    let mut kept: Vec<Header> = Vec::new();
    let mut i: usize = 0;
    proof {
        assert(all.take(0) =~= Seq::empty());
        assert(views(kept@) =~= all.take(0).filter(keep));
    }
    while i < headers.len()
        invariant
            i <= headers@.len(),
            all == views(headers@),
            keep == (|h: HeaderView| passes_in(h)),
            views(kept@) == all.take(i as int).filter(keep),
        decreases headers@.len() - i,
    {
        let ghost before = views(kept@);
        proof {
            assert(all.take(i + 1) =~= all.take(i as int).push(all[i as int]));
            Seq::lemma_filter_push(all.take(i as int), all[i as int], keep);
            assert(all[i as int] == headers@[i as int]@);
        }
        if !eq_ignore_ascii_case(headers[i].name.as_str(), "host") {
            kept.push(headers[i].duplicate());
            proof {
                assert(views(kept@) =~= before.push(all[i as int]));
            }
        }
        i += 1;
    }
    proof {
        assert(all.take(headers@.len() as int) =~= all);
    }
    kept
}

/// The headers of a response that are passed on, in order.
pub fn response_headers(headers: &Vec<Header>) -> (r: Vec<Header>)
    ensures
        views(r@) == views(headers@).filter(|h: HeaderView| passes_out(h)),
{
    let ghost all = views(headers@);
    let ghost keep = |h: HeaderView| passes_out(h);
    let mut kept: Vec<Header> = Vec::new();
    let mut i: usize = 0;
    proof {
        assert(all.take(0) =~= Seq::empty());
        assert(views(kept@) =~= all.take(0).filter(keep));
    }
    while i < headers.len()
        invariant
            i <= headers@.len(),
            all == views(headers@),
            keep == (|h: HeaderView| passes_out(h)),
            views(kept@) == all.take(i as int).filter(keep),
        decreases headers@.len() - i,
    {
        let ghost before = views(kept@);
        proof {
            assert(all.take(i + 1) =~= all.take(i as int).push(all[i as int]));
            Seq::lemma_filter_push(all.take(i as int), all[i as int], keep);
            assert(all[i as int] == headers@[i as int]@);
        }
        let name = headers[i].name.as_str();
        if !eq_ignore_ascii_case(name, "transfer-encoding") && !eq_ignore_ascii_case(
            name,
            "content-length",
        ) {
            kept.push(headers[i].duplicate());
            proof {
                assert(views(kept@) =~= before.push(all[i as int]));
            }
        }
        i += 1;
    }
    proof {
        assert(all.take(headers@.len() as int) =~= all);
    }
    kept
}

/// Where a request is passed on to: the same path of the server, or its root if there is none.
pub open spec fn forwarded(base: Seq<char>, path: Option<Seq<char>>) -> Seq<char> {
    base + match path {
        Some(p) => p,
        None => "/"@,
    }
}

/// Whether a request only asks if the server is there.
pub fn is_health_check(method: &str) -> (r: bool)
    ensures
        r == (method@ == "GET"@),
{
    text_eq(method, "GET")
}

/// What becomes of a request.
#[derive(Debug)]
pub enum Route {
    /// It is answered here, with a JSON object.
    Health { status: u16, content_type: String, body: TextMap<JsonValue> },
    /// It is passed on to the server.
    Forward,
}

/// [`Route`], as contracts see it.
#[verifier::ext_equal]
pub enum RouteView {
    Health { status: u16, content_type: Seq<char>, body: Map<Seq<char>, JsonView> },
    Forward,
}

impl View for Route {
    type V = RouteView;

    open spec fn view(&self) -> RouteView {
        match self {
            Route::Health { status, content_type, body } => RouteView::Health {
                status: *status,
                content_type: content_type@,
                body: json_members(body@),
            },
            Route::Forward => RouteView::Forward,
        }
    }
}

/// What a request is told that only asks if the server is there.
pub open spec fn health_members() -> Map<Seq<char>, JsonView> {
    Map::empty()
        .insert("ok"@, JsonView::Bool(true))
        .insert("server"@, JsonView::String("mem0-memory"@))
        .insert(
        "message"@,
        JsonView::String("mem0 Memory MCP Server. POST JSON-RPC to '/' for MCP requests."@),
    )
}

/// Tells what becomes of a request: one that only asks if the server is there is answered here,
/// and all others are passed on.
pub fn route(method: &str) -> (r: Route)
    ensures
        r@ == (if method@ == "GET"@ {
            RouteView::Health {
                status: 200,
                content_type: "application/json"@,
                body: health_members(),
            }
        } else {
            RouteView::Forward
        }),
{
    if !is_health_check(method) {
        return Route::Forward;
    }
    let mut body: TextMap<JsonValue> = TextMap::new();
    body.insert("ok".to_owned(), JsonValue::Bool(true));
    body.insert("server".to_owned(), JsonValue::String("mem0-memory".to_owned()));
    body.insert(
        "message".to_owned(),
        JsonValue::String(
            "mem0 Memory MCP Server. POST JSON-RPC to '/' for MCP requests.".to_owned(),
        ),
    );
    proof {
        assert(json_members(body@) =~= health_members());
    }
    Route::Health { status: 200, content_type: "application/json".to_owned(), body }
}

/// Where a request is passed on to.
pub fn forward_url(base: &str, path: &Option<String>) -> (r: String)
    ensures
        r@ == forwarded(base@, opt_view(*path)),
{
    match path {
        Some(p) => concat(base, p.as_str()),
        None => concat(base, "/"),
    }
}

/// The headers of a request that are passed on are all but the host, and those of a response all
/// but the length and the encoding of its body, whatever the case of their names.
pub proof fn headers_are_passed_on(header: HeaderView)
    ensures
        passes_in(header) <==> ascii_uppercase(header.name) != "HOST"@,
        passes_out(header) <==> ascii_uppercase(header.name) != "TRANSFER-ENCODING"@
            && ascii_uppercase(header.name) != "CONTENT-LENGTH"@,
{
    reveal_strlit("host");
    reveal_strlit("HOST");
    reveal_strlit("transfer-encoding");
    reveal_strlit("TRANSFER-ENCODING");
    reveal_strlit("content-length");
    reveal_strlit("CONTENT-LENGTH");
    assert(ascii_uppercase("host"@) =~= "HOST"@);
    assert(ascii_uppercase("transfer-encoding"@) =~= "TRANSFER-ENCODING"@);
    assert(ascii_uppercase("content-length"@) =~= "CONTENT-LENGTH"@);
}

/// A request is passed on to where the server is, followed by the path of the request, or by the
/// root if it has none.
pub proof fn requests_keep_their_path(base: Seq<char>, path: Seq<char>)
    ensures
        base.is_prefix_of(forwarded(base, Some(path))),
        forwarded(base, Some(path)).skip(base.len() as int) == path,
        base.is_prefix_of(forwarded(base, None)),
        forwarded(base, None).skip(base.len() as int) == "/"@,
{
    assert(forwarded(base, Some(path)).skip(base.len() as int) =~= path);
    assert(forwarded(base, None).skip(base.len() as int) =~= "/"@);
    assert(base =~= forwarded(base, Some(path)).take(base.len() as int));
    assert(base =~= forwarded(base, None).take(base.len() as int));
}

/// The answer to a health check says that the server is there, and which one it is.
pub proof fn health_checks_are_told_who_is_there()
    ensures
        health_members().contains_key("ok"@),
        health_members()["ok"@] == JsonView::Bool(true),
        health_members().contains_key("server"@),
        health_members()["server"@] == JsonView::String("mem0-memory"@),
        health_members().contains_key("message"@),
        health_members()["message"@] is String,
{
    reveal_strlit("ok");
    reveal_strlit("server");
    reveal_strlit("message");
    assert("ok"@.len() == 2);
    assert("server"@.len() == 6);
    assert("message"@.len() == 7);
}

} // verus!
