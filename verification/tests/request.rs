use std::collections::HashMap;

use axum::extract::Query;
use gloo::history::{History, HistoryError, MemoryHistory};
use hyper::Uri;
use ssr_server::error::RenderError;
use ssr_server::history::history_outcome;
use ssr_server::request::{check_path, holds, RenderRequest, ServerAppProps};
use ssr_server::route::Route;

fn queries(pairs: &[(&str, &str)]) -> HashMap<String, String> {
    pairs.iter().map(|(name, value)| (name.to_string(), value.to_string())).collect()
}

#[test]
fn holds_finds_a_byte() {
    assert!(holds(b"/a?b", b'?'));
    assert!(!holds(b"/a/b", b'?'));
    assert!(!holds(b"", b'/'));
}

#[test]
fn check_path_accepts_absolute_paths() {
    for path in ["/", "/about", "/a/b/c", "//", "/caf\u{e9}", "/a%3Fb"] {
        assert_eq!(check_path(path), None);
    }
}

#[test]
fn check_path_names_the_fault() {
    assert_eq!(check_path(""), Some(RenderError::RelativePath));
    assert_eq!(check_path("about"), Some(RenderError::RelativePath));
    assert_eq!(check_path("?/"), Some(RenderError::RelativePath));
    assert_eq!(check_path("/?lang=en"), Some(RenderError::QueryInPath));
    assert_eq!(check_path("/a?b#c"), Some(RenderError::QueryInPath));
    assert_eq!(check_path("/a#c?b"), Some(RenderError::QueryInPath));
    assert_eq!(check_path("/a#top"), Some(RenderError::FragmentInPath));
}

#[test]
fn a_request_keeps_path_and_parameters() {
    let request = RenderRequest::new("/about".to_owned(), queries(&[("lang", "en"), ("q", "a b")]))
        .ok()
        .unwrap();
    assert_eq!(request.path(), "/about");
    assert_eq!(request.queries(), &queries(&[("q", "a b"), ("lang", "en")]));
    assert_eq!(request.route(), None);
}

#[test]
fn a_request_with_a_faulty_path_is_refused() {
    assert_eq!(
        RenderRequest::new("about".to_owned(), HashMap::new()).err(),
        Some(RenderError::RelativePath)
    );
    assert_eq!(
        RenderRequest::new("/?lang=en".to_owned(), HashMap::new()).err(),
        Some(RenderError::QueryInPath)
    );
    assert_eq!(
        RenderRequest::new("/#top".to_owned(), HashMap::new()).err(),
        Some(RenderError::FragmentInPath)
    );
}

#[test]
fn props_become_a_request() {
    let props = ServerAppProps { uri: "/".to_owned(), queries: queries(&[("lang", "en")]) };
    let request = props.request().ok().unwrap();
    assert_eq!(request.path(), "/");
    assert_eq!(request.queries().get("lang").map(String::as_str), Some("en"));
    let props = ServerAppProps { uri: "/?lang=en".to_owned(), queries: HashMap::new() };
    assert_eq!(props.request().err(), Some(RenderError::QueryInPath));
}

#[test]
fn root_without_parameters_is_home() {
    let request = RenderRequest::new("/".to_owned(), HashMap::new()).ok().unwrap();
    assert_eq!(request.route(), Some(Route::Home));
    assert!(request.queries().is_empty());
}

#[test]
fn query_parameters_reach_the_history_and_leave_the_route_alone() {
    let uri: Uri = "/?lang=en".parse().unwrap();
    let Query(parameters) = Query::<HashMap<String, String>>::try_from_uri(&uri).unwrap();
    assert_eq!(parameters, queries(&[("lang", "en")]));
    let request = RenderRequest::new(uri.path().to_owned(), parameters).ok().unwrap();
    assert_eq!(request.route(), Some(Route::Home));
    assert_eq!(request.queries(), &queries(&[("lang", "en")]));
    let history = request.history().ok().unwrap();
    assert_eq!(history.len(), 1);
    let location = history.location();
    assert_eq!(location.path(), "/");
    assert_eq!(location.query_str(), "?lang=en");
    assert_eq!(location.query::<HashMap<String, String>>().unwrap(), queries(&[("lang", "en")]));
}

#[test]
fn the_history_stands_at_the_requested_path() {
    let request = RenderRequest::new("/about".to_owned(), HashMap::new()).ok().unwrap();
    let history = request.history().ok().unwrap();
    assert_eq!(history.len(), 1);
    assert_eq!(history.location().path(), "/about");
    assert_eq!(history.location().query_str(), "?");
    assert_eq!(history.location().hash(), "");
}

#[test]
fn the_history_holds_nothing_behind_the_request() {
    let request = RenderRequest::new("/about".to_owned(), queries(&[("lang", "en")])).ok().unwrap();
    let history = request.history().ok().unwrap();
    assert_eq!(history.location().query_str().as_bytes()[0], b'?');
    history.back();
    assert_eq!(history.location().path(), "/about");
    history.forward();
    assert_eq!(history.location().path(), "/about");
    assert_eq!(history.len(), 1);
}

#[test]
fn the_history_is_the_same_each_time() {
    let request = RenderRequest::new("/".to_owned(), queries(&[("lang", "en")])).ok().unwrap();
    let first = request.history().ok().unwrap().location();
    let second = request.history().ok().unwrap().location();
    assert_eq!(first.path(), second.path());
    assert_eq!(first.query_str(), second.query_str());
}

#[test]
fn a_placed_location_keeps_the_history() {
    let history = MemoryHistory::new();
    history.push("/kept");
    let kept = history_outcome(Ok(()), history).ok().unwrap();
    assert_eq!(kept.location().path(), "/kept");
}

#[test]
fn a_failed_placement_is_a_render_error() {
    let failed: Result<(), HistoryError> = MemoryHistory::new().push_with_query("/", 5u32);
    assert!(failed.is_err());
    let history = MemoryHistory::new();
    assert_eq!(history_outcome(failed, history).err(), Some(RenderError::QueryEncoding));
}

fn query_of(pairs: &[(&str, &str)]) -> String {
    let request = RenderRequest::new("/".to_owned(), queries(pairs)).ok().unwrap();
    request.history().ok().unwrap().location().query_str().to_owned()
}

#[test]
fn the_history_is_made_for_every_request() {
    for path in ["/", "/about", "//", "/a/b/", "/caf\u{e9}", "/a%3Fb"] {
        for pairs in [&[][..], &[("lang", "en")][..], &[("", "")][..], &[("a b", "\u{e9}&="), ("c", "d")][..]] {
            let request = RenderRequest::new(path.to_owned(), queries(pairs)).ok().unwrap();
            let history = request.history().ok().unwrap();
            assert_eq!(history.len(), 1);
            assert_eq!(history.location().path(), path);
            assert_eq!(history.location().query::<HashMap<String, String>>().unwrap(), queries(pairs));
        }
    }
}

#[test]
fn no_parameters_give_a_bare_question_mark() {
    assert_eq!(query_of(&[]), "?");
}

#[test]
fn one_parameter_is_written_as_name_and_value() {
    assert_eq!(query_of(&[("lang", "en")]), "?lang=en");
    assert_eq!(query_of(&[("", "")]), "?=");
    assert_eq!(query_of(&[("k", "")]), "?k=");
}

#[test]
fn unchanged_bytes_stay_and_the_rest_is_escaped() {
    assert_eq!(query_of(&[("azAZ09*-._", "x")]), "?azAZ09*-._=x");
    assert_eq!(query_of(&[("q", "a b")]), "?q=a+b");
    assert_eq!(query_of(&[("q", "a+b")]), "?q=a%2Bb");
    assert_eq!(query_of(&[("q", "~!'()")]), "?q=%7E%21%27%28%29");
    assert_eq!(query_of(&[("q", "a&b=c/d?e#f%g")]), "?q=a%26b%3Dc%2Fd%3Fe%23f%25g");
    assert_eq!(query_of(&[("q", "\u{0}\n\u{7f}")]), "?q=%00%0A%7F");
    assert_eq!(query_of(&[("caf\u{e9}", "\u{4e16}\u{1f600}")]), "?caf%C3%A9=%E4%B8%96%F0%9F%98%80");
    assert_eq!(query_of(&[("/:;<>@[]^`{|}", ",\"$\\")]), "?%2F%3A%3B%3C%3E%40%5B%5D%5E%60%7B%7C%7D=%2C%22%24%5C");
}

#[test]
fn several_parameters_are_joined_in_some_order() {
    let query = query_of(&[("a", "1"), ("b", "2")]);
    assert!(query == "?a=1&b=2" || query == "?b=2&a=1");
    let query = query_of(&[("a", "1"), ("b", "2"), ("c", "3")]);
    let mut parts: Vec<&str> = query[1..].split('&').collect();
    parts.sort();
    assert_eq!(parts, vec!["a=1", "b=2", "c=3"]);
    assert_eq!(query.len(), 12);
}
