//! The pages of the site, the paths they live at, and what each one shows.

use vstd::prelude::*;
use vstd::string::*;
use vstd::utf8::*;

verus! {

/// A page of the site.
#[derive(Clone, Copy, Debug, PartialEq, Eq, Structural)]
pub enum Route {
    /// The landing page, at `/`.
    Home,
}

/// One element of markup: `<tag class="class">text</tag>`.
#[derive(Clone, Copy, Debug)]
pub struct Element {
    pub tag: &'static str,
    pub class: &'static str,
    pub text: &'static str,
}

/// What is left of a path when one `/` at its end, and then one `/` at its
/// start, are dropped. Two paths with the same key name the same page.
pub open spec fn route_key(path: Seq<u8>) -> Seq<u8> {
    let head = if path.len() > 0 && path.last() == 0x2f {
        path.drop_last()
    } else {
        path
    };
    if head.len() > 0 && head[0] == 0x2f {
        head.drop_first()
    } else {
        head
    }
}

/// The page that a request path names, if any.
pub open spec fn resolve(path: Seq<u8>) -> Option<Route> {
    if route_key(path) == route_key(Route::Home.path_bytes()) {
        Some(Route::Home)
    } else {
        None
    }
}

/// The key of the landing page is empty: a path names it when nothing is
/// left of the path.
pub proof fn lemma_home_key()
    ensures
        route_key(Route::Home.path_bytes()) == Seq::<u8>::empty(),
        forall|path: Seq<u8>| resolve(path) is Some <==> route_key(path).len() == 0,
{
    assert(route_key(Route::Home.path_bytes()) =~= Seq::<u8>::empty());
    assert forall|path: Seq<u8>| resolve(path) is Some <==> route_key(path).len() == 0 by {
        if route_key(path).len() == 0 {
            assert(route_key(path) =~= Seq::<u8>::empty());
        }
    }
}

/// The path of a page names that page.
pub proof fn lemma_path_resolves(route: Route)
    ensures
        resolve(route.path_bytes()) == Some(route),
{
}

impl Route {
    /// The bytes of the path that the page lives at.
    pub open spec fn path_bytes(self) -> Seq<u8> {
        match self {
            Route::Home => seq![0x2fu8],
        }
    }

    /// The path that the page lives at.
    pub fn to_path(&self) -> (path: String)
        ensures
            encode_utf8(path@) == self.path_bytes(),
    {
        match self {
            Route::Home => {
                let path = "/";
                proof {
                    reveal_strlit("/");
                    is_ascii_chars_encode_utf8(path@);
                    assert(path.spec_bytes() =~= Route::Home.path_bytes());
                }
                path.to_owned()
            },
        }
    }

    /// The paths of all pages.
    pub fn routes() -> (paths: Vec<&'static str>)
        ensures
            paths@.len() == 1,
            paths@[0].spec_bytes() == Route::Home.path_bytes(),
    {
        let path = "/";
        proof {
            reveal_strlit("/");
            is_ascii_chars_encode_utf8(path@);
            assert(path.spec_bytes() =~= Route::Home.path_bytes());
        }
        let mut paths: Vec<&'static str> = Vec::new();
        paths.push(path);
        paths
    }

    /// The page shown for a path that names none: there is no such page.
    pub fn not_found_route() -> (route: Option<Route>)
        ensures
            route is None,
    {
        None
    }

    /// The page that lives at exactly `path`.
    pub fn from_path(path: &str) -> (route: Option<Route>)
        ensures
            route == if path.spec_bytes() == Route::Home.path_bytes() {
                Some(Route::Home)
            } else {
                None
            },
    {
        let bytes = path.as_bytes();
        if bytes.len() == 1 && bytes[0] == 0x2f {
            assert(bytes@ =~= Route::Home.path_bytes());
            Some(Route::Home)
        } else {
            None
        }
    }

    /// The page that a request path names: the path is compared without one
    /// `/` at its end and one at its start.
    pub fn recognize(pathname: &str) -> (route: Option<Route>)
        ensures
            route == resolve(pathname.spec_bytes()),
    {
        let bytes = pathname.as_bytes();
        let length: usize = bytes.len();
        let end: usize = if length > 0 && bytes[length - 1] == 0x2f {
            length - 1
        } else {
            length
        };
        let start: usize = if end > 0 && bytes[0] == 0x2f {
            1
        } else {
            0
        };
        proof {
            lemma_home_key();
            assert(route_key(bytes@) =~= bytes@.subrange(start as int, end as int));
        }
        if start == end {
            Some(Route::Home)
        } else {
            None
        }
    }
}

/// What a page shows.
pub fn switch(route: Route) -> (element: Element)
    ensures
        match route {
            Route::Home => {
                &&& element.tag@ == "p"@
                &&& element.class@ == "hello second"@
                &&& element.text@ == "Home page"@
            },
        },
{
    match route {
        Route::Home => Element { tag: "p", class: "hello second", text: "Home page" },
    }
}

} // verus!
