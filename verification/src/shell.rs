//! The shell document and its two fragments.

use vstd::prelude::*;
use vstd::string::*;
use vstd::utf8::*;

use crate::error::StartupConfigurationError;
use crate::text::{
    find, first_occurrence, lemma_boundary_after_ascii, lemma_first_occurrence, occurs, occurs_at,
};

verus! {

/// The bytes of `<body>`, the tag at which the shell document is split.
pub open spec fn marker() -> Seq<u8> {
    seq![0x3cu8, 0x62u8, 0x6fu8, 0x64u8, 0x79u8, 0x3eu8]
}

/// `cut` is where the first `<body>` in `text` ends.
pub open spec fn cut_at(text: Seq<u8>, cut: int) -> bool {
    first_occurrence(text, marker(), cut - marker().len())
}

/// The two fragments that a document with the bytes `text` is cut into, if
/// it holds the marker: the bytes up to the end of the first `<body>`, and the
/// bytes behind it.
pub open spec fn fragments_of(text: Seq<u8>) -> Option<(Seq<u8>, Seq<u8>)> {
    if occurs(text, marker()) {
        let cut = choose|cut: int| cut_at(text, cut);
        Some((text.subrange(0, cut), text.subrange(cut, text.len() as int)))
    } else {
        None
    }
}

/// A document has one place only where its first `<body>` ends.
pub proof fn lemma_cut_unique(text: Seq<u8>, cut: int, other: int)
    requires
        cut_at(text, cut),
        cut_at(text, other),
    ensures
        cut == other,
{
    if cut < other {
        assert(occurs_at(text, marker(), cut - marker().len()));
    } else if other < cut {
        assert(occurs_at(text, marker(), other - marker().len()));
    }
}

/// The fragments of a document whose first `<body>` ends at `cut` are the
/// bytes before `cut` and the bytes from `cut` on.
pub proof fn lemma_fragments_at(text: Seq<u8>, cut: int)
    requires
        cut_at(text, cut),
    ensures
        fragments_of(text) == Some((text.subrange(0, cut), text.subrange(cut, text.len() as int))),
{
    assert(occurs_at(text, marker(), cut - marker().len()));
    let chosen = choose|chosen: int| cut_at(text, chosen);
    lemma_cut_unique(text, cut, chosen);
}

/// Cutting loses nothing: the two fragments, put together again, are the
/// document byte for byte, and the prefix ends with the marker.
pub proof fn lemma_fragments_reassemble(text: Seq<u8>)
    requires
        occurs(text, marker()),
    ensures
        fragments_of(text) matches Some((prefix, suffix)) && {
            &&& prefix + suffix == text
            &&& cut_at(text, prefix.len() as int)
            &&& cut_at(prefix, prefix.len() as int)
        },
{
    let at = choose|at: int| occurs_at(text, marker(), at);
    let first = lemma_first_occurrence(text, marker(), at);
    let cut = first + marker().len();
    lemma_fragments_at(text, cut);
    let prefix = text.subrange(0, cut);
    assert(prefix + text.subrange(cut, text.len() as int) =~= text);
    lemma_prefix_keeps_first(text, cut);
}

/// The bytes of a document up to the end of its first `<body>` end with the
/// marker and hold it nowhere else.
pub proof fn lemma_prefix_keeps_first(text: Seq<u8>, cut: int)
    requires
        cut_at(text, cut),
    ensures
        cut_at(text.subrange(0, cut), cut),
        text.subrange(0, cut).len() == cut,
{
    let prefix = text.subrange(0, cut);
    let at = cut - marker().len();
    assert(prefix.subrange(at, cut) =~= text.subrange(at, cut));
    assert forall|earlier: int| 0 <= earlier < at implies !occurs_at(prefix, marker(), earlier) by {
        assert(!occurs_at(text, marker(), earlier));
        if earlier + marker().len() <= prefix.len() {
            assert(prefix.subrange(earlier, earlier + marker().len()) =~= text.subrange(
                earlier,
                earlier + marker().len(),
            ));
        }
    }
}

/// A document that holds `<body>` once, between `before` and `after`, is cut
/// into `before` with the marker, and `after`.
pub proof fn lemma_single_marker(before: Seq<u8>, after: Seq<u8>)
    requires
        forall|at: int| occurs_at(before + marker() + after, marker(), at) ==> at == before.len(),
    ensures
        fragments_of(before + marker() + after) == Some((before + marker(), after)),
{
    let text = before + marker() + after;
    let at = before.len() as int;
    let cut = at + marker().len();
    assert(text.subrange(at, cut) =~= marker());
    assert(cut_at(text, cut));
    lemma_fragments_at(text, cut);
    assert(text.subrange(0, cut) =~= before + marker());
    assert(text.subrange(cut, text.len() as int) =~= after);
}

/// A document without `<body>` has no fragments.
pub proof fn lemma_no_marker(text: Seq<u8>)
    requires
        !occurs(text, marker()),
    ensures
        fragments_of(text) is None,
{
}

/// The marker as text.
pub fn marker_text() -> (tag: &'static str)
    ensures
        tag.spec_bytes() == marker(),
{
    let tag = "<body>";
    proof {
        reveal_strlit("<body>");
        is_ascii_chars_encode_utf8(tag@);
        assert(tag.spec_bytes() =~= marker());
    }
    tag
}

/// The shell document cut in two just behind its first `<body>`.
pub struct ShellFragments {
    prefix: String,
    suffix: String,
}

impl ShellFragments {
    /// The bytes sent before the rendered markup.
    pub closed spec fn prefix_bytes(&self) -> Seq<u8> {
        encode_utf8(self.prefix@)
    }

    /// The bytes sent after the rendered markup.
    pub closed spec fn suffix_bytes(&self) -> Seq<u8> {
        encode_utf8(self.suffix@)
    }

    /// The prefix ends with the marker and holds it nowhere else.
    #[verifier::type_invariant]
    pub closed spec fn wf(&self) -> bool {
        cut_at(self.prefix_bytes(), self.prefix_bytes().len() as int)
    }

    /// The document that these fragments were cut from.
    pub open spec fn document(&self) -> Seq<u8> {
        self.prefix_bytes() + self.suffix_bytes()
    }

    /// Cuts `template` behind the first `<body>`; the tag stays in the prefix.
    pub fn split(template: &str) -> (result: Result<ShellFragments, StartupConfigurationError>)
        ensures
            result is Ok <==> occurs(template.spec_bytes(), marker()),
            match result {
                Ok(shell) => {
                    &&& shell.wf()
                    &&& fragments_of(template.spec_bytes()) == Some(
                        (shell.prefix_bytes(), shell.suffix_bytes()),
                    )
                    &&& cut_at(template.spec_bytes(), shell.prefix_bytes().len() as int)
                    &&& shell.document() == template.spec_bytes()
                },
                Err(error) => error == StartupConfigurationError::MarkerNotFound,
            },
    {
        let bytes = template.as_bytes();
        let tag = marker_text().as_bytes();
        match find(bytes, tag) {
            None => Err(StartupConfigurationError::MarkerNotFound),
            Some(at) => {
                let length: usize = bytes.len();
                let cut: usize = at + tag.len();
                proof {
                    encode_utf8_valid_utf8(template@);
                    lemma_boundary_after_ascii(bytes@, cut - 1);
                }
                let (head, tail) = template.split_at(cut);
                let prefix = head.to_owned();
                let suffix = tail.to_owned();
                proof {
                    lemma_prefix_keeps_first(bytes@, cut as int);
                    lemma_fragments_at(bytes@, cut as int);
                    assert(bytes@.subrange(0, cut as int) + bytes@.subrange(
                        cut as int,
                        length as int,
                    ) =~= bytes@);
                }
                Ok(ShellFragments { prefix, suffix })
            },
        }
    }

    /// Prepares the fragments from what reading the shell document gave:
    /// its text, or nothing where it could not be read.
    pub fn startup(template: Option<&str>) -> (result: Result<
        ShellFragments,
        StartupConfigurationError,
    >)
        ensures
            result is Ok <==> template is Some && occurs(template->0.spec_bytes(), marker()),
            match result {
                Ok(shell) => {
                    &&& shell.wf()
                    &&& fragments_of(template->0.spec_bytes()) == Some(
                        (shell.prefix_bytes(), shell.suffix_bytes()),
                    )
                    &&& shell.document() == template->0.spec_bytes()
                },
                Err(error) => error == if template is None {
                    StartupConfigurationError::TemplateUnreadable
                } else {
                    StartupConfigurationError::MarkerNotFound
                },
            },
    {
        match template {
            None => Err(StartupConfigurationError::TemplateUnreadable),
            Some(text) => ShellFragments::split(text),
        }
    }

    /// What is sent before the rendered markup.
    pub fn prefix(&self) -> (text: &str)
        ensures
            text.spec_bytes() == self.prefix_bytes(),
    {
        self.prefix.as_str()
    }

    /// What is sent after the rendered markup.
    pub fn suffix(&self) -> (text: &str)
        ensures
            text.spec_bytes() == self.suffix_bytes(),
    {
        self.suffix.as_str()
    }
}

} // verus!
