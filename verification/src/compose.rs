//! Putting a response together: the shell's prefix, the rendered fragments
//! in the order they were rendered, the shell's suffix.

use vstd::prelude::*;
use vstd::string::*;
use vstd::utf8::*;

use crate::shell::ShellFragments;
use crate::text::lemma_encode_concat;

verus! {

/// The bytes of each text, in order.
pub open spec fn chunk_bytes(chunks: Seq<String>) -> Seq<Seq<u8>> {
    Seq::new(chunks.len(), |i: int| encode_utf8(chunks[i]@))
}

/// The chunks of a response, in the order they are sent.
pub open spec fn response_chunks(shell: ShellFragments, fragments: Seq<Seq<u8>>) -> Seq<Seq<u8>> {
    seq![shell.prefix_bytes()] + fragments + seq![shell.suffix_bytes()]
}

/// The body of a response: what its chunks add up to.
pub open spec fn response_body(shell: ShellFragments, fragments: Seq<Seq<u8>>) -> Seq<u8> {
    shell.prefix_bytes() + fragments.flatten() + shell.suffix_bytes()
}

/// How far a response has come.
#[derive(Clone, Copy, Debug, PartialEq, Eq, Structural)]
pub enum Stage {
    /// The prefix is out; rendered fragments pass through as they come.
    Rendering,
    /// The suffix is out; nothing follows.
    Closed,
}

/// The stage after one more event of the renderer: `more` tells whether it
/// handed out a fragment or ended.
pub open spec fn next_stage(stage: Stage, more: bool) -> Stage {
    if stage == Stage::Rendering && more {
        Stage::Rendering
    } else {
        Stage::Closed
    }
}

/// The chunk sent on an event of the renderer: a fragment goes out as it is,
/// the end of the rendering sends the suffix, and a closed response sends
/// nothing.
pub open spec fn emitted(stage: Stage, shell: ShellFragments, rendered: Option<Seq<u8>>) -> Option<
    Seq<u8>,
> {
    match stage {
        Stage::Closed => None,
        Stage::Rendering => match rendered {
            Some(fragment) => Some(fragment),
            None => Some(shell.suffix_bytes()),
        },
    }
}

/// The bytes of a text that may be absent.
pub open spec fn bytes_of(text: Option<String>) -> Option<Seq<u8>> {
    match text {
        Some(text) => Some(encode_utf8(text@)),
        None => None,
    }
}

/// A response under way. The caller polls the renderer and hands each event
/// to `feed`; what comes back is sent at once, so the order of the chunks is
/// the order of the events.
pub struct ResponseStream {
    stage: Stage,
}

impl ResponseStream {
    /// How far the response has come.
    pub closed spec fn stage(&self) -> Stage {
        self.stage
    }

    /// Starts a response: its first chunk is the shell's prefix.
    pub fn open(shell: &ShellFragments) -> (started: (ResponseStream, String))
        ensures
            started.0.stage() == Stage::Rendering,
            encode_utf8(started.1@) == shell.prefix_bytes(),
    {
        (ResponseStream { stage: Stage::Rendering }, shell.prefix().to_owned())
    }

    /// Tells whether the suffix is out.
    pub fn is_closed(&self) -> (closed: bool)
        ensures
            closed == (self.stage() == Stage::Closed),
    {
        match self.stage {
            Stage::Closed => true,
            Stage::Rendering => false,
        }
    }

    /// Takes one event of the renderer, a fragment or `None` for its end,
    /// and gives the chunk to send, if any.
    pub fn feed(&mut self, shell: &ShellFragments, rendered: Option<String>) -> (chunk: Option<
        String,
    >)
        ensures
            final(self).stage() == next_stage(old(self).stage(), rendered is Some),
            bytes_of(chunk) == emitted(old(self).stage(), *shell, bytes_of(rendered)),
            old(self).stage() == Stage::Rendering && rendered is Some ==> chunk == rendered,
    {
        match self.stage {
            Stage::Closed => None,
            Stage::Rendering => match rendered {
                Some(fragment) => Some(fragment),
                None => {
                    self.stage = Stage::Closed;
                    Some(shell.suffix().to_owned())
                },
            },
        }
    }
}

/// The chunks of a response add up to its body.
pub proof fn lemma_chunks_flatten(shell: ShellFragments, fragments: Seq<Seq<u8>>)
    ensures
        response_chunks(shell, fragments).flatten() == response_body(shell, fragments),
{
    let head = seq![shell.prefix_bytes()] + fragments;
    assert(response_chunks(shell, fragments) =~= head.push(shell.suffix_bytes()));
    head.lemma_flatten_push(shell.suffix_bytes());
    assert(head.drop_first() =~= fragments);
    assert(head.flatten() =~= shell.prefix_bytes() + fragments.flatten());
}

/// A response begins with the shell's prefix and ends with its suffix, and
/// the fragments stand between them in the order they were rendered.
pub proof fn lemma_response_order(shell: ShellFragments, fragments: Seq<Seq<u8>>)
    ensures
        response_chunks(shell, fragments).len() == fragments.len() + 2,
        response_chunks(shell, fragments).first() == shell.prefix_bytes(),
        response_chunks(shell, fragments).last() == shell.suffix_bytes(),
        forall|i: int|
            0 <= i < fragments.len() ==> #[trigger] response_chunks(shell, fragments)[i + 1]
                == fragments[i],
        response_body(shell, fragments).subrange(0, shell.prefix_bytes().len() as int)
            == shell.prefix_bytes(),
        response_body(shell, fragments).subrange(
            response_body(shell, fragments).len() - shell.suffix_bytes().len(),
            response_body(shell, fragments).len() as int,
        ) == shell.suffix_bytes(),
{
    let body = response_body(shell, fragments);
    assert(body.subrange(0, shell.prefix_bytes().len() as int) =~= shell.prefix_bytes());
    assert(body.subrange(body.len() - shell.suffix_bytes().len(), body.len() as int)
        =~= shell.suffix_bytes());
}

/// A response is the shell document with the rendered markup put in just
/// behind its `<body>`: nothing of the document is lost, moved or repeated,
/// and without markup the response is the document itself.
pub proof fn lemma_response_inserts_markup(shell: ShellFragments, fragments: Seq<Seq<u8>>)
    ensures
        response_body(shell, fragments) == shell.document().subrange(
            0,
            shell.prefix_bytes().len() as int,
        ) + fragments.flatten() + shell.document().subrange(
            shell.prefix_bytes().len() as int,
            shell.document().len() as int,
        ),
        fragments.flatten().len() == 0 ==> response_body(shell, fragments) == shell.document(),
{
    let document = shell.document();
    let cut = shell.prefix_bytes().len() as int;
    assert(document.subrange(0, cut) =~= shell.prefix_bytes());
    assert(document.subrange(cut, document.len() as int) =~= shell.suffix_bytes());
    if fragments.flatten().len() == 0 {
        assert(response_body(shell, fragments) =~= document);
    }
}

/// Rendering twice gives the same bytes: a response is determined by the
/// bytes of the shell and of the rendered fragments, and by nothing else.
pub proof fn lemma_response_repeatable(
    first_shell: ShellFragments,
    first: Seq<Seq<u8>>,
    second_shell: ShellFragments,
    second: Seq<Seq<u8>>,
)
    requires
        first_shell.prefix_bytes() == second_shell.prefix_bytes(),
        first_shell.suffix_bytes() == second_shell.suffix_bytes(),
        first == second,
    ensures
        response_chunks(first_shell, first) == response_chunks(second_shell, second),
        response_body(first_shell, first) == response_body(second_shell, second),
{
}

/// The chunks of the response to a request whose markup was rendered as
/// `fragments`, in the order they are sent.
pub fn render(shell: &ShellFragments, fragments: &Vec<String>) -> (chunks: Vec<String>)
    ensures
        chunk_bytes(chunks@) == response_chunks(*shell, chunk_bytes(fragments@)),
{
    let (mut stream, first) = ResponseStream::open(shell);
    let mut chunks: Vec<String> = Vec::new();
    chunks.push(first);
    let count: usize = fragments.len();
    let mut next: usize = 0;
    while next < count
        invariant
            next <= count == fragments@.len(),
            stream.stage() == Stage::Rendering,
            chunk_bytes(chunks@) == seq![shell.prefix_bytes()] + chunk_bytes(fragments@).take(
                next as int,
            ),
        decreases count - next,
    {
        let ghost before = chunks@;
        let chunk = stream.feed(shell, Some(fragments[next].clone()));
        match chunk {
            Some(chunk) => {
                chunks.push(chunk);
            },
            None => {},
        }
        next += 1;
        assert(chunk_bytes(chunks@) =~= chunk_bytes(before).push(
            chunk_bytes(fragments@)[next - 1],
        ));
        assert(seq![shell.prefix_bytes()] + chunk_bytes(fragments@).take(next as int) =~= (seq![
            shell.prefix_bytes(),
        ] + chunk_bytes(fragments@).take(next - 1)).push(chunk_bytes(fragments@)[next - 1]));
    }
    let ghost before = chunks@;
    let last = stream.feed(shell, None);
    match last {
        Some(chunk) => {
            chunks.push(chunk);
        },
        None => {},
    }
    assert(chunk_bytes(fragments@).take(count as int) =~= chunk_bytes(fragments@));
    assert(chunk_bytes(chunks@) =~= chunk_bytes(before).push(shell.suffix_bytes()));
    assert(chunk_bytes(chunks@) =~= response_chunks(*shell, chunk_bytes(fragments@)));
    chunks
}

/// The chunks joined into one text.
pub fn body(chunks: &Vec<String>) -> (text: String)
    ensures
        encode_utf8(text@) == chunk_bytes(chunks@).flatten(),
{
    let mut text = String::new();
    let count: usize = chunks.len();
    let mut next: usize = 0;
    assert(chunk_bytes(chunks@).take(0) =~= Seq::<Seq<u8>>::empty());
    while next < count
        invariant
            next <= count == chunks@.len(),
            encode_utf8(text@) == chunk_bytes(chunks@).take(next as int).flatten(),
        decreases count - next,
    {
        let ghost before = text@;
        text.append(chunks[next].as_str());
        proof {
            lemma_encode_concat(before, chunks@[next as int]@);
            let done = chunk_bytes(chunks@).take(next as int);
            done.lemma_flatten_push(chunk_bytes(chunks@)[next as int]);
            assert(chunk_bytes(chunks@).take(next + 1) =~= done.push(
                chunk_bytes(chunks@)[next as int],
            ));
        }
        next += 1;
    }
    assert(chunk_bytes(chunks@).take(count as int) =~= chunk_bytes(chunks@));
    text
}

/// The whole response to a request whose markup was rendered as `fragments`.
pub fn document(shell: &ShellFragments, fragments: &Vec<String>) -> (text: String)
    ensures
        encode_utf8(text@) == response_body(*shell, chunk_bytes(fragments@)),
{
    let chunks = render(shell, fragments);
    proof {
        lemma_chunks_flatten(*shell, chunk_bytes(fragments@));
    }
    body(&chunks)
}

} // verus!
