//! Server-side rendering around a static HTML shell.
//!
//! The shell document is split once at its `<body>` marker; each response is
//! the part before the marker, the markup rendered for the request, and the
//! part after it, in that order. Texts are modelled by their UTF-8 bytes.

pub mod compose;
pub mod dispatch;
pub mod error;
pub mod form;
pub mod history;
pub mod markup;
pub mod opt;
pub mod request;
pub mod route;
pub mod shell;
pub mod text;
