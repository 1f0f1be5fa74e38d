use ssr_server::compose::{body, document, render, ResponseStream};
use ssr_server::route::{switch, Route};
use ssr_server::shell::ShellFragments;

fn shell() -> ShellFragments {
    ShellFragments::split("<html><head></head><body><main-slot/></body></html>").ok().unwrap()
}

fn markup(route: Route) -> Vec<String> {
    let element = switch(route);
    vec![
        format!("<{} class=\"{}\">", element.tag, element.class),
        element.text.to_owned(),
        format!("</{}>", element.tag),
    ]
}

#[test]
fn render_sends_prefix_fragments_suffix_in_order() {
    let fragments = vec!["<p>".to_owned(), "one".to_owned(), "</p>".to_owned()];
    assert_eq!(
        render(&shell(), &fragments),
        vec!["<html><head></head><body>", "<p>", "one", "</p>", "<main-slot/></body></html>"]
    );
}

#[test]
fn render_without_fragments_sends_the_shell() {
    assert_eq!(
        render(&shell(), &Vec::new()),
        vec!["<html><head></head><body>", "<main-slot/></body></html>"]
    );
    assert_eq!(
        document(&shell(), &Vec::new()),
        "<html><head></head><body><main-slot/></body></html>"
    );
}

#[test]
fn render_keeps_empty_fragments() {
    let fragments = vec!["".to_owned(), "x".to_owned(), "".to_owned()];
    assert_eq!(render(&shell(), &fragments).len(), 5);
    assert_eq!(document(&shell(), &fragments), "<html><head></head><body>x<main-slot/></body></html>");
}

#[test]
fn body_joins_the_chunks() {
    assert_eq!(body(&vec!["a".to_owned(), "".to_owned(), "b\u{e9}".to_owned(), "c".to_owned()]), "ab\u{e9}c");
    assert_eq!(body(&Vec::new()), "");
}

#[test]
fn document_is_the_body_of_the_chunks() {
    let fragments = markup(Route::Home);
    assert_eq!(document(&shell(), &fragments), body(&render(&shell(), &fragments)));
}

#[test]
fn home_page_inside_the_shell() {
    let response = document(&shell(), &markup(Route::Home));
    assert!(response.starts_with("<html><head></head><body>"));
    assert!(response.ends_with("</body></html>"));
    assert!(response.contains("<p class=\"hello second\">Home page</p>"));
    assert_eq!(
        response,
        "<html><head></head><body><p class=\"hello second\">Home page</p><main-slot/></body></html>"
    );
}

#[test]
fn a_response_closes_what_it_opens() {
    let response = document(&shell(), &markup(Route::Home));
    for tag in ["html", "head", "body", "p"] {
        let opened = response.matches(&format!("<{}", tag)).count();
        let closed = response.matches(&format!("</{}>", tag)).count();
        assert_eq!(opened, closed);
    }
}

#[test]
fn rendering_twice_gives_the_same_bytes() {
    let first = document(&shell(), &markup(Route::Home));
    let second = document(&shell(), &markup(Route::Home));
    assert_eq!(first.as_bytes(), second.as_bytes());
    assert_eq!(render(&shell(), &markup(Route::Home)), render(&shell(), &markup(Route::Home)));
}

#[test]
fn a_stream_passes_fragments_through_until_the_end() {
    let shell = shell();
    let (mut stream, first) = ResponseStream::open(&shell);
    assert_eq!(first, "<html><head></head><body>");
    assert!(!stream.is_closed());
    assert_eq!(stream.feed(&shell, Some("<p>".to_owned())), Some("<p>".to_owned()));
    assert_eq!(stream.feed(&shell, Some("</p>".to_owned())), Some("</p>".to_owned()));
    assert!(!stream.is_closed());
    assert_eq!(stream.feed(&shell, None), Some("<main-slot/></body></html>".to_owned()));
    assert!(stream.is_closed());
}

#[test]
fn a_closed_stream_sends_nothing() {
    let shell = shell();
    let (mut stream, _) = ResponseStream::open(&shell);
    assert!(stream.feed(&shell, None).is_some());
    assert_eq!(stream.feed(&shell, Some("late".to_owned())), None);
    assert_eq!(stream.feed(&shell, None), None);
    assert!(stream.is_closed());
}
