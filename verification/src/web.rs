//! What the web front end decides: where a request leads, and what page
//! answers it. Serving the pages is left to the caller.

use vstd::prelude::*;
use vstd::hash_map::StringHashMap;
use vstd::string::*;
use crate::error::{GraphError, GraphErrorView, VertexKey, VertexKeyView};
use crate::graph::Graph;
use crate::model::VertexView;
use crate::pages::{
    entry_body, entry_template, error_body, error_template, outline, submit_body, submit_template,
};
use crate::query::path_answer;

verus! {

/// The parts of a URL, as the `url` crate finds them in its text: the
/// segments of the path, and the pairs of the query with their escapes
/// resolved. `None` where the text is no URL, or a URL without a path of
/// segments.
pub uninterp spec fn url_parts(text: Seq<char>) -> Option<
    (Seq<Seq<char>>, Seq<(Seq<char>, Seq<char>)>),
>;

/// `url::Url::parse`, with the result taken apart by `Url::path_segments`
/// and `Url::query_pairs` and every piece copied out. The result depends on
/// the text alone; what the parts are is left to the crate.
#[verifier::external_body]
fn split_url(text: &str) -> (parts: Option<(Vec<String>, Vec<(String, String)>)>)
    ensures
        url_parts(text@) == match parts {
            Some(found) => Some(found.deep_view()),
            None => None,
        },
{
    let url = url::Url::parse(text).ok()?;
    let path = url.path_segments()?.map(String::from).collect();
    let query = url.query_pairs().map(|(k, v)| (k.into_owned(), v.into_owned())).collect();
    Some((path, query))
}

/// The address that the URL of a request is read against.
pub const BASE_URL: &'static str = "https://localhost/";

/// The query that pairs make: every key with the value of the last pair
/// that has it.
pub open spec fn query_map(pairs: Seq<(Seq<char>, Seq<char>)>) -> Map<Seq<char>, Seq<char>>
    decreases pairs.len(),
{
    if pairs.len() == 0 {
        Map::empty()
    } else {
        query_map(pairs.drop_last()).insert(pairs.last().0, pairs.last().1)
    }
}

/// A query as text: every key with the text of its value.
pub open spec fn query_view(query: Map<Seq<char>, String>) -> Map<Seq<char>, Seq<char>> {
    Map::new(|key: Seq<char>| query.contains_key(key), |key: Seq<char>| query[key]@)
}

/// Collects the pairs of a query in a map. Where a key stands more than
/// once, the last pair counts.
pub fn collect_query(pairs: Vec<(String, String)>) -> (query: StringHashMap<String>)
    ensures
        query_view(query@) == query_map(pairs.deep_view()),
{
    let ghost all = pairs.deep_view();
    let ghost given = pairs@;
    let mut query: StringHashMap<String> = StringHashMap::new();
    proof {
        assert(all.take(0) =~= Seq::empty());
        assert(query_view(query@) =~= query_map(all.take(0)));
    }
    for pair in it: pairs
        invariant
            it.seq() == given,
            all.len() == given.len(),
            forall|k: int| 0 <= k < given.len() ==> (#[trigger] all[k]) == (given[k].0@, given[k].1@),
            query_view(query@) == query_map(all.take(it.index())),
    {
        let ghost n = it.index();
        let ghost before = query@;
        let (key, value) = pair;
        query.insert(key, value);
        proof {
            let upto = all.take(n + 1);
            assert(upto.drop_last() =~= all.take(n));
            assert(upto.last() == all[n]);
            assert(query_view(query@) =~= query_view(before).insert(all[n].0, all[n].1));
        }
    }
    proof {
        assert(all.take(all.len() as int) =~= all);
    }
    query
}

/// The path and the query of a request, given the parts of its URL: the
/// path loses its first segment, which the base address accounts for, and
/// the pairs are collected.
pub open spec fn request_parts(
    parts: Option<(Seq<Seq<char>>, Seq<(Seq<char>, Seq<char>)>)>,
) -> Option<(Seq<Seq<char>>, Map<Seq<char>, Seq<char>>)> {
    match parts {
        Some((path, pairs)) => if path.len() == 0 {
            None
        } else {
            Some((path.skip(1), query_map(pairs)))
        },
        None => None,
    }
}

/// The mathematical value of the parts of a URL.
pub open spec fn parts_view(parts: Option<(Vec<String>, Vec<(String, String)>)>) -> Option<
    (Seq<Seq<char>>, Seq<(Seq<char>, Seq<char>)>),
> {
    match parts {
        Some(given) => Some(given.deep_view()),
        None => None,
    }
}

/// The mathematical value of the path and the query of a request.
pub open spec fn request_view(request: Option<(Vec<String>, StringHashMap<String>)>) -> Option<
    (Seq<Seq<char>>, Map<Seq<char>, Seq<char>>),
> {
    match request {
        Some((path, query)) => Some((path.deep_view(), query_view(query@))),
        None => None,
    }
}

/// Drops the first segment of the path of a URL that was taken apart, and
/// collects the pairs of its query.
pub fn strip_base(parts: Option<(Vec<String>, Vec<(String, String)>)>) -> (result: Option<
    (Vec<String>, StringHashMap<String>),
>)
    ensures
        request_view(result) == request_parts(parts_view(parts)),
{
    match parts {
        Some((path, pairs)) => {
            if path.len() == 0 {
                return None;
            }
            let ghost before = path.deep_view();
            let mut path = path;
            path.remove(0);
            proof {
                assert(path.deep_view() =~= before.skip(1));
            }
            Some((path, collect_query(pairs)))
        },
        None => None,
    }
}

/// Takes the URL of a request apart: the segments of its path, and its
/// query.
pub fn parse_url(raw_url: &str) -> (result: Option<(Vec<String>, StringHashMap<String>)>)
    ensures
        request_view(result) == request_parts(url_parts(BASE_URL@ + raw_url@)),
{
    let mut full = String::from_str(BASE_URL);
    full.append(raw_url);
    strip_base(split_url(full.as_str()))
}

/// The value of `key` in a query, if the query has the key.
pub open spec fn query_value(query: Map<Seq<char>, Seq<char>>, key: Seq<char>) -> Option<
    Seq<char>,
> {
    if query.contains_key(key) {
        Some(query[key])
    } else {
        None
    }
}

/// Where a request leads.
#[derive(Debug, Clone, Copy, PartialEq, Eq, Structural)]
pub enum Route {
    /// The page with the query form.
    Entry,
    /// The page that takes the form's input.
    Submit,
    /// The query itself.
    Path,
    /// A static file, named by the second segment of the path.
    Static,
    /// Nothing.
    NotFound,
}

/// Where the path of a request leads: the empty segment alone to the entry
/// page, `submit` and `path` alone to theirs, `static` with one more
/// segment to a file, anything else nowhere.
pub open spec fn route_of(path: Seq<Seq<char>>) -> Route {
    if path.len() == 1 {
        if path[0] == Seq::<char>::empty() {
            Route::Entry
        } else if path[0] == "submit"@ {
            Route::Submit
        } else if path[0] == "path"@ {
            Route::Path
        } else {
            Route::NotFound
        }
    } else if path.len() == 2 && path[0] == "static"@ {
        Route::Static
    } else {
        Route::NotFound
    }
}

/// Finds where the path of a request leads.
pub fn route(path: &Vec<String>) -> (found: Route)
    ensures
        found == route_of(path.deep_view()),
{
    proof {
        assert(path@.len() > 0 ==> path.deep_view()[0] == path@[0]@);
    }
    if path.len() == 1 {
        if path[0].as_str().is_empty() {
            assert(path@[0]@ =~= Seq::<char>::empty());
            Route::Entry
        } else if path[0] == String::from_str("submit") {
            Route::Submit
        } else if path[0] == String::from_str("path") {
            Route::Path
        } else {
            Route::NotFound
        }
    } else if path.len() == 2 && path[0] == String::from_str("static") {
        Route::Static
    } else {
        Route::NotFound
    }
}

/// The entry page for a query: the error that the query names is shown,
/// and where it names none the error stays hidden.
pub open spec fn entry_page(query: Map<Seq<char>, Seq<char>>) -> Seq<char> {
    match query_value(query, "error"@) {
        Some(message) => outline(entry_body(false, message)),
        None => outline(entry_body(true, Seq::empty())),
    }
}

/// Renders the entry page for the query of a request.
pub fn entry(query: &StringHashMap<String>) -> (page: String)
    ensures
        page@ == entry_page(query_view(query@)),
{
    match query.get("error") {
        Some(message) => entry_template(false, message.clone()),
        None => entry_template(true, String::new()),
    }
}

/// The page that answers the form: with both ends given it sends the
/// browser on to the query, else back to the entry page with a complaint.
pub open spec fn submit_page(query: Map<Seq<char>, Seq<char>>) -> Seq<char> {
    match (query_value(query, "from"@), query_value(query, "to"@)) {
        (Some(from), Some(to)) => outline(
            submit_body(
                "/path?from="@ + from + "&to="@ + to,
                "Please wait while a path is found."@,
            ),
        ),
        _ => outline(
            submit_body(
                "/?error=You must enter a from and a to link."@,
                "You must enter a from and a to link."@,
            ),
        ),
    }
}

/// Renders the page that answers the form.
pub fn submit(query: &StringHashMap<String>) -> (page: String)
    ensures
        page@ == submit_page(query_view(query@)),
{
    match (query.get("from"), query.get("to")) {
        (Some(from), Some(to)) => {
            let mut redirect_url = String::from_str("/path?from=");
            redirect_url.append(from.as_str());
            redirect_url.append("&to=");
            redirect_url.append(to.as_str());
            submit_template(redirect_url, String::from_str("Please wait while a path is found."))
        },
        _ => submit_template(
            String::from_str("/?error=You must enter a from and a to link."),
            String::from_str("You must enter a from and a to link."),
        ),
    }
}

/// The page for a request that lacks what it needs, to go with status 400.
pub fn error_400() -> (page: String)
    ensures
        page@ == outline(error_body(400, "Bad Request"@)),
{
    error_template(400, String::from_str("Bad Request"))
}

/// The page for a request that leads nowhere, to go with status 404.
pub fn error_404() -> (page: String)
    ensures
        page@ == outline(error_body(404, "Page Not Found"@)),
{
    error_template(404, String::from_str("Page Not Found"))
}

/// What to tell the user of a failed query.
pub open spec fn failure_text(e: GraphErrorView) -> Seq<char> {
    match e {
        GraphErrorView::VertexNotFound(VertexKeyView::Label(_)) => "A URL is Invalid"@,
        GraphErrorView::NoPath => "No Path Between Provided URLs"@,
        _ => "Internal Error"@,
    }
}

/// Puts a failed query into words.
pub fn failure_message(e: &GraphError) -> (text: &'static str)
    ensures
        text@ == failure_text(e@),
{
    match e {
        GraphError::VertexNotFound(VertexKey::Label(_)) => "A URL is Invalid",
        GraphError::NoPath => "No Path Between Provided URLs",
        _ => "Internal Error",
    }
}

/// The answer to a path request: the path, or the status and the page to
/// send in its place. A request without both ends is a bad request; a
/// query that fails leads back to the entry page, with the failure in
/// words.
pub open spec fn path_reply(g: Seq<VertexView>, query: Map<Seq<char>, Seq<char>>)
    -> Result<Seq<Seq<char>>, (u16, Seq<char>)> {
    match (query_value(query, "from"@), query_value(query, "to"@)) {
        (Some(from), Some(to)) => match path_answer(g, from, to) {
            Ok(path) => Ok(path),
            Err(e) => Err((200u16, outline(entry_body(false, failure_text(e))))),
        },
        _ => Err((400u16, outline(error_body(400, "Bad Request"@)))),
    }
}

/// Answers a path request.
pub fn get_path(query: &StringHashMap<String>, graph: &Graph) -> (reply: Result<
    Vec<String>,
    (u16, String),
>)
    requires
        graph.wf(),
    ensures
        match reply {
            Ok(path) => path_reply(graph@, query_view(query@)) == Ok::<
                Seq<Seq<char>>,
                (u16, Seq<char>),
            >(path.deep_view()),
            Err(page) => path_reply(graph@, query_view(query@)) == Err::<
                Seq<Seq<char>>,
                (u16, Seq<char>),
            >((page.0, page.1@)),
        },
{
    match (query.get("from"), query.get("to")) {
        (Some(from), Some(to)) => match graph.get_shortest_path(from.clone(), to.clone()) {
            Ok(path) => Ok(path),
            Err(e) => Err(
                (200, entry_template(false, String::from_str(failure_message(&e)))),
            ),
        },
        _ => Err((400, error_400())),
    }
}

} // verus!
