use ssr_server::route::{switch, Route};

#[test]
fn home_lives_at_the_root() {
    assert_eq!(Route::Home.to_path(), "/");
    assert_eq!(Route::routes(), vec!["/"]);
}

#[test]
fn recognize_finds_home() {
    assert_eq!(Route::recognize("/"), Some(Route::Home));
    assert_eq!(Route::recognize(""), Some(Route::Home));
    assert_eq!(Route::recognize("//"), Some(Route::Home));
}

#[test]
fn recognize_finds_nothing_elsewhere() {
    for path in ["/about", "/index.html", "///", "/a/", "a", "/?lang=en", "/\u{e9}"] {
        assert_eq!(Route::recognize(path), None);
    }
}

#[test]
fn recognize_inverts_to_path() {
    assert_eq!(Route::recognize(&Route::Home.to_path()), Some(Route::Home));
}

#[test]
fn from_path_takes_the_exact_path() {
    assert_eq!(Route::from_path("/"), Some(Route::Home));
    assert_eq!(Route::from_path(""), None);
    assert_eq!(Route::from_path("//"), None);
    assert_eq!(Route::from_path("/home"), None);
}

#[test]
fn there_is_no_not_found_route() {
    assert_eq!(Route::not_found_route(), None);
}

#[test]
fn switch_shows_the_home_page() {
    let element = switch(Route::Home);
    assert_eq!(element.tag, "p");
    assert_eq!(element.class, "hello second");
    assert_eq!(element.text, "Home page");
}
