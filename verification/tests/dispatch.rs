use ssr_server::dispatch::{content_type, dispatch, status, Action, StaticLookup};
use ssr_server::error::RenderError;

#[test]
fn a_found_file_is_served() {
    assert_eq!(dispatch(StaticLookup::Found), Action::ServeFile);
}

#[test]
fn a_missing_file_is_rendered() {
    assert_eq!(dispatch(StaticLookup::NotFound), Action::Render);
}

#[test]
fn a_failed_lookup_is_no_render() {
    assert_eq!(dispatch(StaticLookup::Failed), Action::Fail);
}

#[test]
fn statuses() {
    assert_eq!(status(Action::ServeFile, None), 200);
    assert_eq!(status(Action::Render, None), 200);
    assert_eq!(status(Action::Render, Some(RenderError::RelativePath)), 500);
    assert_eq!(status(Action::Render, Some(RenderError::QueryEncoding)), 500);
    assert_eq!(status(Action::Fail, None), 500);
}

#[test]
fn render_errors_are_server_errors() {
    for error in [
        RenderError::RelativePath,
        RenderError::QueryInPath,
        RenderError::FragmentInPath,
        RenderError::QueryEncoding,
    ] {
        assert_eq!(error.status(), 500);
    }
}

#[test]
fn render_errors_have_messages() {
    assert_eq!(RenderError::RelativePath.message(), "the request path is not absolute");
    assert_eq!(RenderError::QueryInPath.message(), "the request path holds a query");
    assert_eq!(RenderError::FragmentInPath.message(), "the request path holds a fragment");
    assert_eq!(RenderError::QueryEncoding.message(), "failed to serialize query.");
}

#[test]
fn a_rendered_answer_is_html() {
    assert_eq!(content_type(), "text/html");
}
