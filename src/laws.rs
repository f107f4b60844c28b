//! Properties of the translation as a whole.

use vstd::prelude::*;

use crate::model::{finish, is_marker, lemma_run_ok, run, step, text, translate, Frame, SPACE};
use crate::tags::{tag, Tag};

verus! {

broadcast use crate::model::lemma_add_empty, crate::model::lemma_add_assoc,
    crate::model::lemma_push_add;

/// A text that starts with a byte that marks nothing up, and holds no marker but
/// spaces.
pub open spec fn plain_text(bytes: Seq<u8>) -> bool {
    &&& bytes.len() > 0
    &&& !is_marker(bytes[0])
    &&& forall|i: int| 0 <= i < bytes.len() ==> !is_marker(#[trigger] bytes[i]) || bytes[i] == SPACE
}

/// After the first `n` bytes of a plain text, a paragraph is open over `Root`, and
/// `<p>` and those bytes are written.
proof fn lemma_plain_prefix(bytes: Seq<u8>, n: int)
    requires
        plain_text(bytes),
        1 <= n <= bytes.len(),
    ensures
        run(seq![Frame::Root], bytes.subrange(0, n)) == (
            seq![Frame::Root, Frame::Paragraph],
            tag(Tag::POpen) + bytes.subrange(0, n),
        ),
    decreases n,
{
    let read = bytes.subrange(0, n);
    assert(read.drop_last() == bytes.subrange(0, n - 1));
    assert(read.last() == bytes[n - 1]);
    if n == 1 {
        assert(bytes.subrange(0, 0) == Seq::<u8>::empty());
        assert(step(seq![Frame::Root], bytes[0]) == text(seq![Frame::Root], seq![bytes[0]]));
        assert(read == seq![bytes[0]]);
    } else {
        lemma_plain_prefix(bytes, n - 1);
        let s = seq![Frame::Root, Frame::Paragraph];
        assert(s.last() == Frame::Paragraph);
        assert(step(s, bytes[n - 1]).0 == s);
        assert(step(s, bytes[n - 1]).1 == seq![bytes[n - 1]]);
        assert(bytes.subrange(0, n - 1).push(bytes[n - 1]) == read);
    }
}

/// A text that is plain (it starts with a byte that marks nothing up, and holds no
/// marker but spaces) becomes one paragraph that holds it unchanged.
pub proof fn plain_text_is_one_paragraph(bytes: Seq<u8>)
    requires
        plain_text(bytes),
    ensures
        translate(bytes) == tag(Tag::POpen) + bytes + tag(Tag::PClose),
{
    lemma_plain_prefix(bytes, bytes.len() as int);
    assert(bytes.subrange(0, bytes.len() as int) == bytes);
    let s = seq![Frame::Root, Frame::Paragraph];
    assert(s.drop_last() == seq![Frame::Root]);
    assert(finish(seq![Frame::Root]) == Seq::<u8>::empty());
    assert(finish(s) == tag(Tag::PClose));
}

/// Whatever is read, the stack of open constructs is never empty and its bottom
/// frame is `Root`: no byte pops it.
pub proof fn root_stays_at_bottom(bytes: Seq<u8>)
    ensures
        run(seq![Frame::Root], bytes).0.len() >= 1,
        run(seq![Frame::Root], bytes).0[0] == Frame::Root,
{
    lemma_run_ok(bytes);
}

} // verus!
