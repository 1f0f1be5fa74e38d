//! The nesting of markup: which elements a run of tags opens and closes, and
//! why markup that closes what it opens can be put into a document without
//! harm to the document's own nesting.

use vstd::prelude::*;

use crate::route::Element;

verus! {

/// A tag, with the name of its element.
pub enum Tag {
    /// `<name>`
    Open(Seq<char>),
    /// `</name>`
    Close(Seq<char>),
}

/// The elements that are open after `tags`, where `open` were open before
/// them, the innermost last; `None` where a closing tag does not close the
/// innermost open element.
pub open spec fn nest(open: Seq<Seq<char>>, tags: Seq<Tag>) -> Option<Seq<Seq<char>>>
    decreases tags.len(),
{
    if tags.len() == 0 {
        Some(open)
    } else {
        match tags[0] {
            Tag::Open(name) => nest(open.push(name), tags.drop_first()),
            Tag::Close(name) => if open.len() > 0 && open.last() == name {
                nest(open.drop_last(), tags.drop_first())
            } else {
                None
            },
        }
    }
}

/// The tags close every element they open, innermost first, and no other.
pub open spec fn well_formed(tags: Seq<Tag>) -> bool {
    nest(Seq::empty(), tags) == Some(Seq::<Seq<char>>::empty())
}

/// The tags of one element: it is opened and closed.
pub open spec fn tags_of(element: Element) -> Seq<Tag> {
    seq![Tag::Open(element.tag@), Tag::Close(element.tag@)]
}

/// Reading two runs of tags one after the other is reading the second from
/// where the first ended.
pub proof fn lemma_nest_concat(open: Seq<Seq<char>>, first: Seq<Tag>, second: Seq<Tag>)
    ensures
        nest(open, first + second) == match nest(open, first) {
            Some(between) => nest(between, second),
            None => None,
        },
    decreases first.len(),
{
    if first.len() == 0 {
        assert(first + second =~= second);
    } else {
        assert((first + second)[0] == first[0]);
        assert((first + second).drop_first() =~= first.drop_first() + second);
        match first[0] {
            Tag::Open(name) => {
                lemma_nest_concat(open.push(name), first.drop_first(), second);
            },
            Tag::Close(name) => {
                if open.len() > 0 && open.last() == name {
                    lemma_nest_concat(open.drop_last(), first.drop_first(), second);
                }
            },
        }
    }
}

/// Tags that can be read with some elements open can be read with more
/// elements open beneath them, and leave those as they were.
pub proof fn lemma_nest_frame(beneath: Seq<Seq<char>>, open: Seq<Seq<char>>, tags: Seq<Tag>)
    requires
        nest(open, tags) is Some,
    ensures
        nest(beneath + open, tags) == Some(beneath + nest(open, tags)->0),
    decreases tags.len(),
{
    if tags.len() > 0 {
        match tags[0] {
            Tag::Open(name) => {
                assert((beneath + open).push(name) =~= beneath + open.push(name));
                lemma_nest_frame(beneath, open.push(name), tags.drop_first());
            },
            Tag::Close(name) => {
                assert((beneath + open).last() == open.last());
                assert((beneath + open).drop_last() =~= beneath + open.drop_last());
                lemma_nest_frame(beneath, open.drop_last(), tags.drop_first());
            },
        }
    }
}

/// Well-formed markup leaves the nesting around it unchanged: a document
/// with such markup put into it nests as it does without, wherever it is put
/// and whatever was open before. So the markup introduces no unclosed tag.
pub proof fn lemma_insert_well_formed(
    open: Seq<Seq<char>>,
    before: Seq<Tag>,
    inside: Seq<Tag>,
    after: Seq<Tag>,
)
    requires
        well_formed(inside),
    ensures
        nest(open, before + inside + after) == nest(open, before + after),
        well_formed(before + after) ==> well_formed(before + inside + after),
{
    assert forall|from: Seq<Seq<char>>|
        nest(from, before + inside + after) == nest(from, before + after) by {
        lemma_nest_concat(from, before, after);
        lemma_nest_concat(from, before + inside, after);
        lemma_nest_concat(from, before, inside);
        if nest(from, before) is Some {
            let between = nest(from, before)->0;
            lemma_nest_frame(between, Seq::empty(), inside);
            assert(between + Seq::<Seq<char>>::empty() =~= between);
        }
    }
}

/// Well-formed markup after well-formed markup is well-formed.
pub proof fn lemma_well_formed_concat(first: Seq<Tag>, second: Seq<Tag>)
    requires
        well_formed(first),
        well_formed(second),
    ensures
        well_formed(first + second),
{
    lemma_nest_concat(Seq::empty(), first, second);
}

/// The markup of an element is well-formed: one element, opened and closed.
pub proof fn lemma_element_well_formed(element: Element)
    ensures
        well_formed(tags_of(element)),
{
    let tags = tags_of(element);
    let open = Seq::<Seq<char>>::empty().push(element.tag@);
    assert(tags.drop_first() =~= seq![Tag::Close(element.tag@)]);
    assert(tags.drop_first().drop_first() =~= Seq::<Tag>::empty());
    assert(open.drop_last() =~= Seq::<Seq<char>>::empty());
    assert(nest(open.drop_last(), tags.drop_first().drop_first()) == Some(open.drop_last()));
    assert(nest(open, tags.drop_first()) == Some(Seq::<Seq<char>>::empty()));
}

/// The markup of an element, put into a document, leaves the document's
/// nesting as it was.
pub proof fn lemma_element_in_document(element: Element, before: Seq<Tag>, after: Seq<Tag>)
    requires
        well_formed(before + after),
    ensures
        well_formed(before + tags_of(element) + after),
{
    lemma_element_well_formed(element);
    lemma_insert_well_formed(Seq::empty(), before, tags_of(element), after);
}

} // verus!
