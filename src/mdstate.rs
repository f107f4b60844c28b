//! The translator: a stack of open constructs, read one byte at a time.
//!
//! Each function below reads one class of bytes on the top frame `cur` over the
//! frames `prev`, writes to `out`, and returns the new top frame. Its contract says
//! that it does what the function of the same name in [`crate::model`] describes.

use vstd::prelude::*;

use crate::diagnostics::{self, Diagnostic, Warning};
use crate::frame::{stack_of, views, Linkdata, Linkstatus, State};
use crate::model::{self, frame_ok, stack_ok, Frame};
use crate::model::{
    BACKSLASH, BACKTICK, BANG, CR, DASH, GT, HASH, LBRACKET, LF, LPAREN, LT, RBRACKET, RPAREN,
    SPACE, STAR, UNDERSCORE,
};
use crate::tags::{put_header_close, put_header_open, put_tag, Tag};
use crate::writeto::WtiteTo;

verus! {

broadcast use vstd::seq_lib::group_seq_properties, model::lemma_add_empty, model::lemma_add_assoc,
    model::lemma_push_add;

/// The stack `prev` and `cur` make is `r.0`, and `out` is `out0` followed by `r.1`.
pub open spec fn follows(
    prev: Seq<State>,
    cur: State,
    out: Seq<u8>,
    out0: Seq<u8>,
    r: (Seq<Frame>, Seq<u8>),
) -> bool {
    &&& stack_of(prev, cur) == r.0
    &&& out == out0 + r.1
}

proof fn lemma_stack_of(prev: Seq<State>, cur: State)
    ensures
        stack_of(prev, cur).len() == prev.len() + 1,
        stack_of(prev, cur).last() == cur@,
        stack_of(prev, cur).drop_last() == views(prev),
        stack_ok(stack_of(prev, cur)) ==> frame_ok(cur@),
        stack_ok(stack_of(prev, cur)) && prev.len() > 0 ==> frame_ok(prev.last()@),
        stack_ok(stack_of(prev, cur)) ==> stack_ok(model::fall(stack_of(prev, cur))),
{
    let s = stack_of(prev, cur);
    assert(s.drop_last() == views(prev));
    if stack_ok(s) {
        assert(frame_ok(s[s.len() - 1]));
        if prev.len() > 0 {
            assert(frame_ok(s[prev.len() - 1]));
        }
        let s1 = model::fall(s);
        assert forall|i: int| 0 <= i < s1.len() implies frame_ok(#[trigger] s1[i]) by {
            assert(s1[i] == s[i]);
        }
    }
}

/// Pushes `top` over `cur`.
fn rise(prev: &mut Vec<State>, cur: State, top: State) -> (r: State)
    ensures
        stack_of(final(prev)@, r) == stack_of(old(prev)@, cur).push(top@),
        final(prev)@ == old(prev)@.push(cur),
{
    prev.push(cur);
    top
}

/// Pops `cur`, unless nothing is under it.
fn fall(prev: &mut Vec<State>, cur: State) -> (r: State)
    ensures
        stack_of(final(prev)@, r) == model::fall(stack_of(old(prev)@, cur)),
        stack_ok(stack_of(old(prev)@, cur)) ==> stack_ok(stack_of(final(prev)@, r)),
        stack_ok(stack_of(old(prev)@, cur)) ==> frame_ok(r@),
        old(prev)@.len() > 0 ==> final(prev)@ == old(prev)@.drop_last(),
        old(prev)@.len() > 0 ==> r == old(prev)@.last(),
{
    proof {
        lemma_stack_of(prev@, cur);
    }
    match prev.pop() {
        Some(p) => {
            proof {
                assert(old(prev)@ == prev@.push(p));
                lemma_stack_of(prev@, p);
            }
            p
        },
        None => cur,
    }
}

/// Writes what a pending marker on top stands for.
fn settle(cur: State, prev: &Vec<State>, out: &mut Vec<u8>) -> (r: State)
    requires
        stack_ok(stack_of(prev@, cur)),
    ensures
        follows(prev@, r, final(out)@, old(out)@, model::settle(stack_of(prev@, cur))),
{
    proof {
        lemma_stack_of(prev@, cur);
    }
    match cur {
        State::Italic(true) => {
            put_tag(out, Tag::IOpen);
            State::Italic(false)
        },
        State::Bold(true) => {
            out.push(STAR);
            State::Bold(false)
        },
        State::Header(n, false) => {
            put_header_open(out, n);
            State::Header(n, true)
        },
        other => other,
    }
}

/// The byte `b` alone.
fn one(b: u8) -> (r: [u8; 1])
    ensures
        r@ == seq![b],
{
    let r = [b];
    assert(r@ == seq![b]);
    r
}

/// A space as it is written in an address.
fn url_space() -> (r: [u8; 3])
    ensures
        r@ == crate::tags::tag(Tag::Space),
{
    let r = [37, 50, 48];
    assert(r@ == crate::tags::tag(Tag::Space));
    r
}

/// A link frame, or an image frame if `image`.
pub open spec fn link_state(image: bool, l: Linkdata) -> State {
    if image {
        State::Image(l)
    } else {
        State::Link(l)
    }
}

fn make_link(image: bool, l: Linkdata) -> (r: State)
    ensures
        r == link_state(image, l),
{
    if image {
        State::Image(l)
    } else {
        State::Link(l)
    }
}

/// Writes the source text of a link that breaks off.
fn put_link_text(out: &mut Vec<u8>, l: &Linkdata)
    ensures
        final(out)@ == old(out)@ + model::link_text(l@),
{
    out.push(LBRACKET);
    out.write(l.alt.as_slice());
    match l.status {
        Linkstatus::Alt(0) => {},
        _ => out.push(RBRACKET),
    }
    match l.status {
        Linkstatus::Link => {
            out.push(LPAREN);
            out.write(l.link.as_slice());
        },
        _ => {},
    }
}

/// Text `t` read in a link.
fn link_text_in(
    prev: &mut Vec<State>,
    out: &mut Vec<u8>,
    image: bool,
    l: Linkdata,
    t: &[u8],
) -> (r: State)
    requires
        stack_ok(stack_of(old(prev)@, link_state(image, l))),
    ensures
        follows(
            final(prev)@,
            r,
            final(out)@,
            old(out)@,
            model::link_text_in(stack_of(old(prev)@, link_state(image, l)), l@, t@),
        ),
{
    proof {
        lemma_stack_of(prev@, link_state(image, l));
    }
    let mut l = l;
    match l.status {
        Linkstatus::Alt(0) => {
            l.alt.write(t);
            make_link(image, l)
        },
        Linkstatus::Alt(_) => {
            put_link_text(out, &l);
            out.write(t);
            fall(prev, make_link(image, l))
        },
        Linkstatus::Link => {
            l.link.write(t);
            make_link(image, l)
        },
    }
}

/// Text `t` read where it has no other meaning.
fn text(cur: State, prev: &mut Vec<State>, out: &mut Vec<u8>, t: &[u8]) -> (r: State)
    requires
        stack_ok(stack_of(old(prev)@, cur)),
    ensures
        follows(
            final(prev)@,
            r,
            final(out)@,
            old(out)@,
            model::text(stack_of(old(prev)@, cur), t@),
        ),
{
    proof {
        lemma_stack_of(prev@, cur);
    }
    match cur {
        State::Root => {
            put_tag(out, Tag::POpen);
            out.write(t);
            rise(prev, State::Root, State::Paragraph)
        },
        State::Code(true, n) => {
            if n == 1 {
                put_tag(out, Tag::CodeSpanOpen);
                out.write(t);
                State::Code(false, 1)
            } else if n == 3 {
                put_tag(out, Tag::CodeBlockOpen);
                out.write(t);
                State::Code(false, 3)
            } else {
                out.write(t);
                fall(prev, State::Code(true, n))
            }
        },
        State::Escape => {
            out.write(t);
            fall(prev, State::Escape)
        },
        State::Exclamation => {
            out.push(BANG);
            out.write(t);
            fall(prev, State::Exclamation)
        },
        State::Link(l) => link_text_in(prev, out, false, l, t),
        State::Image(l) => link_text_in(prev, out, true, l, t),
        State::Indent(true, buf) => {
            put_tag(out, Tag::IndentClose);
            out.write(buf.as_slice());
            put_tag(out, Tag::POpen);
            out.write(t);
            let p = fall(prev, State::Indent(true, buf));
            rise(prev, p, State::Paragraph)
        },
        State::Indent(false, buf) => {
            out.write(buf.as_slice());
            put_tag(out, Tag::POpen);
            out.write(t);
            rise(prev, State::Indent(false, Vec::new()), State::Paragraph)
        },
        other => {
            let r = settle(other, prev, out);
            out.write(t);
            r
        },
    }
}

/// `!`: may start an image.
fn bang(cur: State, prev: &mut Vec<State>, out: &mut Vec<u8>) -> (r: State)
    requires
        stack_ok(stack_of(old(prev)@, cur)),
    ensures
        follows(final(prev)@, r, final(out)@, old(out)@, model::bang(stack_of(old(prev)@, cur))),
{
    proof {
        lemma_stack_of(prev@, cur);
    }
    match cur {
        State::Root => {
            put_tag(out, Tag::POpen);
            let p = rise(prev, State::Root, State::Paragraph);
            rise(prev, p, State::Exclamation)
        },
        State::Exclamation => {
            out.push(BANG);
            State::Exclamation
        },
        State::Indent(true, buf) => {
            put_tag(out, Tag::IndentClose);
            out.write(buf.as_slice());
            let p = fall(prev, State::Indent(true, buf));
            rise(prev, p, State::Exclamation)
        },
        State::Indent(false, buf) => rise(prev, State::Indent(false, buf), State::Exclamation),
        other => {
            let p = settle(other, prev, out);
            rise(prev, p, State::Exclamation)
        },
    }
}

/// `\`: the next byte is text.
fn backslash(cur: State, prev: &mut Vec<State>, out: &mut Vec<u8>) -> (r: State)
    requires
        stack_ok(stack_of(old(prev)@, cur)),
    ensures
        follows(
            final(prev)@,
            r,
            final(out)@,
            old(out)@,
            model::backslash(stack_of(old(prev)@, cur)),
        ),
{
    proof {
        lemma_stack_of(prev@, cur);
    }
    match cur {
        State::Exclamation => {
            out.push(BANG);
            State::Escape
        },
        other => {
            let p = settle(other, prev, out);
            rise(prev, p, State::Escape)
        },
    }
}

/// `#`: starts a header, or raises its level.
fn hash(cur: State, prev: &mut Vec<State>, out: &mut Vec<u8>) -> (r: State)
    requires
        stack_ok(stack_of(old(prev)@, cur)),
    ensures
        follows(final(prev)@, r, final(out)@, old(out)@, model::hash(stack_of(old(prev)@, cur))),
{
    proof {
        lemma_stack_of(prev@, cur);
    }
    match cur {
        State::Root => rise(prev, State::Root, State::Header(1, false)),
        State::Indent(true, buf) => {
            put_tag(out, Tag::IndentClose);
            out.write(buf.as_slice());
            let p = fall(prev, State::Indent(true, buf));
            rise(prev, p, State::Header(1, false))
        },
        State::Indent(false, buf) => rise(prev, State::Indent(false, buf), State::Header(1, false)),
        State::Header(n, p) => {
            if n < 6 {
                State::Header(n + 1, p)
            } else {
                State::Header(n, p)
            }
        },
        other => text(other, prev, out, &one(HASH)),
    }
}

/// A space.
fn space(cur: State, prev: &mut Vec<State>, out: &mut Vec<u8>) -> (r: State)
    requires
        stack_ok(stack_of(old(prev)@, cur)),
    ensures
        follows(final(prev)@, r, final(out)@, old(out)@, model::space(stack_of(old(prev)@, cur))),
{
    proof {
        lemma_stack_of(prev@, cur);
    }
    match cur {
        State::Root => {
            put_tag(out, Tag::IndentOpen);
            rise(prev, State::Root, State::Indent(false, Vec::new()))
        },
        State::Header(n, false) => {
            put_header_open(out, n);
            State::Header(n, true)
        },
        State::Link(l) => {
            if l.is_link() {
                link_text_in(prev, out, false, l, &url_space())
            } else {
                text(State::Link(l), prev, out, &one(SPACE))
            }
        },
        State::Image(l) => {
            if l.is_link() {
                link_text_in(prev, out, true, l, &url_space())
            } else {
                text(State::Image(l), prev, out, &one(SPACE))
            }
        },
        State::Indent(_, buf) => State::Indent(false, buf),
        State::List(true, opened) => {
            if !opened {
                put_tag(out, Tag::UlOpen);
            }
            put_tag(out, Tag::LiOpen);
            rise(prev, State::List(false, true), State::ListItem)
        },
        State::List(false, opened) => State::List(false, opened),
        other => text(other, prev, out, &one(SPACE)),
    }
}

/// `[`: starts a link, or an image after `!`.
fn open_bracket(cur: State, prev: &mut Vec<State>, out: &mut Vec<u8>) -> (r: State)
    requires
        stack_ok(stack_of(old(prev)@, cur)),
    ensures
        follows(
            final(prev)@,
            r,
            final(out)@,
            old(out)@,
            model::open_bracket(stack_of(old(prev)@, cur)),
        ),
{
    proof {
        lemma_stack_of(prev@, cur);
    }
    match cur {
        State::Root => {
            put_tag(out, Tag::POpen);
            let p = rise(prev, State::Root, State::Paragraph);
            rise(prev, p, State::Link(Linkdata::new()))
        },
        State::Exclamation => State::Image(Linkdata::new()),
        State::Indent(true, buf) => {
            put_tag(out, Tag::IndentClose);
            out.write(buf.as_slice());
            let p = fall(prev, State::Indent(true, buf));
            rise(prev, p, State::Link(Linkdata::new()))
        },
        State::Indent(false, buf) => rise(
            prev,
            State::Indent(false, buf),
            State::Link(Linkdata::new()),
        ),
        other => {
            let p = settle(other, prev, out);
            rise(prev, p, State::Link(Linkdata::new()))
        },
    }
}

/// Writes a complete link or image.
fn put_link_html(out: &mut Vec<u8>, image: bool, l: &Linkdata)
    ensures
        final(out)@ == old(out)@ + model::link_html(link_state(image, *l)@, l@),
{
    if image {
        put_tag(out, Tag::ImgOpen);
        out.write(l.link.as_slice());
        put_tag(out, Tag::ImgAlt);
        out.write(l.alt.as_slice());
        put_tag(out, Tag::AttrEnd);
    } else {
        put_tag(out, Tag::AnchorOpen);
        out.write(l.link.as_slice());
        put_tag(out, Tag::AttrEnd);
        out.write(l.alt.as_slice());
        put_tag(out, Tag::AnchorClose);
    }
}

/// `(`, `]` or `)` in a link.
fn link_char(
    prev: &mut Vec<State>,
    out: &mut Vec<u8>,
    image: bool,
    l: Linkdata,
    b: u8,
) -> (r: State)
    requires
        stack_ok(stack_of(old(prev)@, link_state(image, l))),
    ensures
        follows(
            final(prev)@,
            r,
            final(out)@,
            old(out)@,
            model::link_char(stack_of(old(prev)@, link_state(image, l)), l@, b),
        ),
{
    proof {
        lemma_stack_of(prev@, link_state(image, l));
    }
    let mut l = l;
    if b == LPAREN {
        match l.status {
            Linkstatus::Alt(0) | Linkstatus::Link => {
                put_link_text(out, &l);
                out.push(b);
                fall(prev, make_link(image, l))
            },
            Linkstatus::Alt(_) => {
                l.status = Linkstatus::Link;
                make_link(image, l)
            },
        }
    } else if b == RBRACKET {
        match l.status {
            Linkstatus::Alt(0) => {
                l.status = Linkstatus::Alt(1);
                make_link(image, l)
            },
            Linkstatus::Alt(_) => {
                put_link_text(out, &l);
                out.push(b);
                fall(prev, make_link(image, l))
            },
            Linkstatus::Link => link_text_in(prev, out, image, l, &one(b)),
        }
    } else {
        match l.status {
            Linkstatus::Link => {
                put_link_html(out, image, &l);
                fall(prev, make_link(image, l))
            },
            _ => link_text_in(prev, out, image, l, &one(b)),
        }
    }
}

/// `(`, `]` or `)`.
fn close_char(cur: State, prev: &mut Vec<State>, out: &mut Vec<u8>, b: u8) -> (r: State)
    requires
        stack_ok(stack_of(old(prev)@, cur)),
    ensures
        follows(
            final(prev)@,
            r,
            final(out)@,
            old(out)@,
            model::close_char(stack_of(old(prev)@, cur), b),
        ),
{
    proof {
        lemma_stack_of(prev@, cur);
    }
    match cur {
        State::Link(l) => link_char(prev, out, false, l, b),
        State::Image(l) => link_char(prev, out, true, l, b),
        State::Indent(_, buf) => {
            put_tag(out, Tag::IndentClose);
            out.write(buf.as_slice());
            put_tag(out, Tag::POpen);
            out.push(b);
            State::Paragraph
        },
        other => text(other, prev, out, &one(b)),
    }
}

/// Ends a line below a `!` or in a paragraph.
fn end_line(cur: State, prev: &mut Vec<State>, out: &mut Vec<u8>, b: u8) -> (r: State)
    requires
        stack_ok(stack_of(old(prev)@, cur)),
    ensures
        follows(
            final(prev)@,
            r,
            final(out)@,
            old(out)@,
            model::end_line(stack_of(old(prev)@, cur), b),
        ),
    decreases old(prev)@.len(),
{
    proof {
        lemma_stack_of(prev@, cur);
    }
    if prev.len() == 0 {
        out.push(b);
        return cur;
    }
    match cur {
        State::Paragraph => {
            put_tag(out, Tag::PClose);
            let p = fall(prev, State::Paragraph);
            end_line(p, prev, out, b)
        },
        State::Header(n, h) => {
            put_header_close(out, n);
            let p = fall(prev, State::Header(n, h));
            end_line(p, prev, out, b)
        },
        State::Indent(_, buf) => {
            let mut buf = buf;
            buf.push(b);
            State::Indent(true, buf)
        },
        other => {
            out.push(b);
            other
        },
    }
}

/// Pops every frame down to `Root`, closing the paragraphs among them.
fn unwind(cur: State, prev: &mut Vec<State>, out: &mut Vec<u8>) -> (r: State)
    ensures
        follows(final(prev)@, r, final(out)@, old(out)@, model::unwind(stack_of(old(prev)@, cur))),
    decreases old(prev)@.len(),
{
    proof {
        lemma_stack_of(prev@, cur);
    }
    if prev.len() == 0 {
        return cur;
    }
    match cur {
        State::Root => State::Root,
        State::Paragraph => {
            put_tag(out, Tag::PClose);
            let p = fall(prev, State::Paragraph);
            unwind(p, prev, out)
        },
        other => {
            let p = fall(prev, other);
            unwind(p, prev, out)
        },
    }
}

/// A line break `b`.
fn newline(cur: State, prev: &mut Vec<State>, out: &mut Vec<u8>, b: u8) -> (r: State)
    requires
        stack_ok(stack_of(old(prev)@, cur)),
    ensures
        follows(
            final(prev)@,
            r,
            final(out)@,
            old(out)@,
            model::newline(stack_of(old(prev)@, cur), b),
        ),
{
    proof {
        lemma_stack_of(prev@, cur);
    }
    match cur {
        State::Header(n, h) => {
            put_header_close(out, n);
            out.push(b);
            fall(prev, State::Header(n, h))
        },
        State::Paragraph => end_line(State::Paragraph, prev, out, b),
        State::Code(c, count) => {
            if count == 1 {
                put_tag(out, Tag::CodeSpanClose);
                let p = fall(prev, State::Code(c, count));
                let r = unwind(p, prev, out);
                out.push(b);
                r
            } else if count == 2 {
                out.push(b);
                fall(prev, State::Code(c, count))
            } else {
                out.push(b);
                State::Code(c, count)
            }
        },
        State::Link(l) => {
            put_link_text(out, &l);
            out.push(b);
            fall(prev, State::Link(l))
        },
        State::Image(l) => {
            put_link_text(out, &l);
            out.push(b);
            fall(prev, State::Image(l))
        },
        State::Indent(_, buf) => {
            let mut buf = buf;
            buf.push(b);
            State::Indent(true, buf)
        },
        State::Exclamation => {
            out.push(BANG);
            let p = fall(prev, State::Exclamation);
            end_line(p, prev, out, b)
        },
        State::ListItem => {
            put_tag(out, Tag::LiClose);
            out.push(b);
            fall(prev, State::ListItem)
        },
        State::Rule(n) => {
            put_tag(out, Tag::Hr);
            out.push(b);
            fall(prev, State::Rule(n))
        },
        other => {
            out.push(b);
            other
        },
    }
}

/// A backtick.
fn backtick(cur: State, prev: &mut Vec<State>, out: &mut Vec<u8>) -> (r: State)
    requires
        stack_ok(stack_of(old(prev)@, cur)),
    ensures
        follows(
            final(prev)@,
            r,
            final(out)@,
            old(out)@,
            model::backtick(stack_of(old(prev)@, cur)),
        ),
{
    proof {
        lemma_stack_of(prev@, cur);
    }
    match cur {
        State::Root => {
            put_tag(out, Tag::POpen);
            let p = rise(prev, State::Root, State::Paragraph);
            rise(prev, p, State::Code(true, 1))
        },
        State::Code(counting, n) => {
            let x = n + 1;
            if counting {
                if x == 6 {
                    put_tag(out, Tag::CodeBlockClose);
                    fall(prev, State::Code(counting, n))
                } else {
                    State::Code(true, x)
                }
            } else if x == 2 {
                put_tag(out, Tag::CodeSpanClose);
                fall(prev, State::Code(counting, n))
            } else {
                State::Code(true, x)
            }
        },
        State::Indent(true, buf) => {
            put_tag(out, Tag::IndentClose);
            out.write(buf.as_slice());
            put_tag(out, Tag::POpen);
            let p = fall(prev, State::Indent(true, buf));
            let q = rise(prev, p, State::Paragraph);
            rise(prev, q, State::Code(true, 1))
        },
        State::Indent(false, buf) => {
            put_tag(out, Tag::POpen);
            let q = rise(prev, State::Indent(false, buf), State::Paragraph);
            rise(prev, q, State::Code(true, 1))
        },
        State::Exclamation => {
            out.push(BANG);
            State::Code(true, 1)
        },
        other => {
            let p = settle(other, prev, out);
            rise(prev, p, State::Code(true, 1))
        },
    }
}

/// `*`.
fn star(cur: State, prev: &mut Vec<State>, out: &mut Vec<u8>) -> (r: State)
    requires
        stack_ok(stack_of(old(prev)@, cur)),
    ensures
        follows(final(prev)@, r, final(out)@, old(out)@, model::star(stack_of(old(prev)@, cur))),
{
    proof {
        lemma_stack_of(prev@, cur);
    }
    match cur {
        State::Root => {
            put_tag(out, Tag::POpen);
            let p = rise(prev, State::Root, State::Paragraph);
            rise(prev, p, State::Italic(true))
        },
        State::Indent(true, buf) => {
            put_tag(out, Tag::IndentClose);
            out.write(buf.as_slice());
            put_tag(out, Tag::POpen);
            let p = fall(prev, State::Indent(true, buf));
            let q = rise(prev, p, State::Paragraph);
            rise(prev, q, State::Italic(true))
        },
        State::Indent(false, buf) => {
            put_tag(out, Tag::POpen);
            let q = rise(prev, State::Indent(false, buf), State::Paragraph);
            rise(prev, q, State::Italic(true))
        },
        State::Exclamation => {
            out.push(BANG);
            State::Italic(true)
        },
        State::Italic(true) => {
            put_tag(out, Tag::BOpen);
            State::Bold(false)
        },
        State::Italic(false) => {
            put_tag(out, Tag::IClose);
            fall(prev, State::Italic(false))
        },
        State::Bold(true) => {
            put_tag(out, Tag::BClose);
            fall(prev, State::Bold(true))
        },
        State::Bold(false) => State::Bold(true),
        State::Paragraph => rise(prev, State::Paragraph, State::Italic(true)),
        State::Underline => rise(prev, State::Underline, State::Italic(true)),
        State::Header(n, h) => {
            let p = settle(State::Header(n, h), prev, out);
            rise(prev, p, State::Italic(true))
        },
        other => text(other, prev, out, &one(STAR)),
    }
}

/// Settles the pending marker on top and opens underlined text over it.
fn open_underline(cur: State, prev: &mut Vec<State>, out: &mut Vec<u8>) -> (r: State)
    requires
        stack_ok(stack_of(old(prev)@, cur)),
    ensures
        ({
            let (s1, o) = model::settle(stack_of(old(prev)@, cur));
            follows(
                final(prev)@,
                r,
                final(out)@,
                old(out)@,
                (s1.push(Frame::Underline), o + crate::tags::tag(Tag::UOpen)),
            )
        }),
{
    let p = settle(cur, prev, out);
    put_tag(out, Tag::UOpen);
    rise(prev, p, State::Underline)
}

/// `_`.
fn underscore(cur: State, prev: &mut Vec<State>, out: &mut Vec<u8>) -> (r: State)
    requires
        stack_ok(stack_of(old(prev)@, cur)),
    ensures
        follows(
            final(prev)@,
            r,
            final(out)@,
            old(out)@,
            model::underscore(stack_of(old(prev)@, cur)),
        ),
{
    proof {
        lemma_stack_of(prev@, cur);
    }
    match cur {
        State::Root => {
            put_tag(out, Tag::POpen);
            put_tag(out, Tag::UOpen);
            let p = rise(prev, State::Root, State::Paragraph);
            rise(prev, p, State::Underline)
        },
        State::Indent(true, buf) => {
            put_tag(out, Tag::IndentClose);
            out.write(buf.as_slice());
            put_tag(out, Tag::POpen);
            put_tag(out, Tag::UOpen);
            let p = fall(prev, State::Indent(true, buf));
            let q = rise(prev, p, State::Paragraph);
            rise(prev, q, State::Underline)
        },
        State::Indent(false, buf) => {
            put_tag(out, Tag::UOpen);
            rise(prev, State::Indent(false, buf), State::Underline)
        },
        State::Underline => {
            put_tag(out, Tag::UClose);
            fall(prev, State::Underline)
        },
        State::Exclamation => {
            out.push(BANG);
            put_tag(out, Tag::UOpen);
            State::Underline
        },
        State::Paragraph => {
            put_tag(out, Tag::UOpen);
            rise(prev, State::Paragraph, State::Underline)
        },
        State::Header(n, h) => open_underline(State::Header(n, h), prev, out),
        State::Bold(p) => open_underline(State::Bold(p), prev, out),
        State::Italic(p) => open_underline(State::Italic(p), prev, out),
        other => text(other, prev, out, &one(UNDERSCORE)),
    }
}

/// `-`.
fn dash(cur: State, prev: &mut Vec<State>, out: &mut Vec<u8>) -> (r: State)
    requires
        stack_ok(stack_of(old(prev)@, cur)),
    ensures
        follows(final(prev)@, r, final(out)@, old(out)@, model::dash(stack_of(old(prev)@, cur))),
{
    proof {
        lemma_stack_of(prev@, cur);
    }
    match cur {
        State::Root => rise(prev, State::Root, State::List(true, false)),
        State::Indent(true, buf) => {
            put_tag(out, Tag::IndentClose);
            out.write(buf.as_slice());
            let p = fall(prev, State::Indent(true, buf));
            rise(prev, p, State::List(true, false))
        },
        State::Indent(false, buf) => {
            out.write(buf.as_slice());
            rise(prev, State::Indent(false, Vec::new()), State::List(true, false))
        },
        State::List(true, false) => State::Rule(2),
        State::List(true, true) => {
            put_tag(out, Tag::UlClose);
            let p = fall(prev, State::List(true, true));
            rise(prev, p, State::Rule(2))
        },
        State::List(false, opened) => State::List(true, opened),
        State::Rule(n) => {
            if n < 255 {
                State::Rule(n + 1)
            } else {
                State::Rule(n)
            }
        },
        other => text(other, prev, out, &one(DASH)),
    }
}

/// `b` escaped, as the bytes to write.
fn escape_byte(b: u8) -> (r: Vec<u8>)
    ensures
        r@ == model::escaped(b),
{
    let mut v: Vec<u8> = Vec::new();
    if b == LT {
        put_tag(&mut v, Tag::Lt);
    } else if b == GT {
        put_tag(&mut v, Tag::Gt);
    } else {
        v.push(b);
    }
    v
}

/// Whether `b` marks up text.
fn marker(b: u8) -> (r: bool)
    ensures
        r == model::is_marker(b),
{
    b == LF || b == CR || b == SPACE || b == BANG || b == HASH || b == LPAREN || b == RPAREN || b
        == STAR || b == DASH || b == LBRACKET || b == BACKSLASH || b == RBRACKET || b == UNDERSCORE
        || b == BACKTICK
}

/// Whether `b` is text in frame `cur` whatever its class.
fn plain(cur: &State, b: u8) -> (r: bool)
    ensures
        r == model::plain_in(cur@, b),
{
    match cur {
        State::Code(_, _) => b != BACKTICK && b != LF && b != CR,
        State::Link(_) | State::Image(_) => !(b == SPACE || b == LPAREN || b == RBRACKET || b
            == RPAREN || b == LF || b == CR),
        _ => !marker(b),
    }
}

/// One byte read on top of `cur`, by its class.
fn dispatch(cur: State, prev: &mut Vec<State>, out: &mut Vec<u8>, b: u8) -> (r: State)
    requires
        stack_ok(stack_of(old(prev)@, cur)),
    ensures
        follows(
            final(prev)@,
            r,
            final(out)@,
            old(out)@,
            model::dispatch(stack_of(old(prev)@, cur), b),
        ),
{
    proof {
        lemma_stack_of(prev@, cur);
    }
    let escape = match &cur {
        State::Escape => true,
        _ => false,
    };
    if escape {
        let p = fall(prev, cur);
        let t = escape_byte(b);
        text(p, prev, out, t.as_slice())
    } else if plain(&cur, b) {
        text(cur, prev, out, &one(b))
    } else if b == BANG {
        bang(cur, prev, out)
    } else if b == BACKSLASH {
        backslash(cur, prev, out)
    } else if b == HASH {
        hash(cur, prev, out)
    } else if b == SPACE {
        space(cur, prev, out)
    } else if b == LBRACKET {
        open_bracket(cur, prev, out)
    } else if b == LPAREN || b == RBRACKET || b == RPAREN {
        close_char(cur, prev, out, b)
    } else if b == LF || b == CR {
        newline(cur, prev, out, b)
    } else if b == BACKTICK {
        backtick(cur, prev, out)
    } else if b == STAR {
        star(cur, prev, out)
    } else if b == UNDERSCORE {
        underscore(cur, prev, out)
    } else {
        dash(cur, prev, out)
    }
}

/// Whether `b` ends the list on top.
fn ends_list(cur: &State, b: u8) -> (r: bool)
    ensures
        r == model::breaks_list(cur@, b),
{
    match cur {
        State::List(dash, _) => b != SPACE && b != DASH && !((b == LF || b == CR) && !*dash),
        _ => false,
    }
}

/// Closes the list on top and the indented block under it, and opens a paragraph.
fn leave_list(cur: State, prev: &mut Vec<State>, out: &mut Vec<u8>) -> (r: State)
    requires
        stack_ok(stack_of(old(prev)@, cur)),
        cur@ is List,
    ensures
        follows(
            final(prev)@,
            r,
            final(out)@,
            old(out)@,
            model::leave_list(stack_of(old(prev)@, cur)),
        ),
{
    proof {
        lemma_stack_of(prev@, cur);
    }
    match cur {
        State::List(dash, opened) => {
            if opened {
                put_tag(out, Tag::UlClose);
            }
            let p = fall(prev, State::List(dash, opened));
            let q = match p {
                State::Indent(e, buf) => {
                    put_tag(out, Tag::IndentClose);
                    out.write(buf.as_slice());
                    fall(prev, State::Indent(e, buf))
                },
                other => other,
            };
            put_tag(out, Tag::POpen);
            if dash {
                out.push(DASH);
            }
            rise(prev, q, State::Paragraph)
        },
        other => other,
    }
}

/// One byte read on top of `cur`.
fn step(cur: State, prev: &mut Vec<State>, out: &mut Vec<u8>, b: u8) -> (r: State)
    requires
        stack_ok(stack_of(old(prev)@, cur)),
    ensures
        follows(final(prev)@, r, final(out)@, old(out)@, model::step(stack_of(old(prev)@, cur), b)),
{
    proof {
        lemma_stack_of(prev@, cur);
    }
    if ends_list(&cur, b) {
        let p = leave_list(cur, prev, out);
        proof {
            model::lemma_leave_list_ok(stack_of(old(prev)@, cur));
        }
        dispatch(p, prev, out, b)
    } else {
        dispatch(cur, prev, out, b)
    }
}

/// The warning that byte `b` gets when `cur` is on top.
fn warning_of(cur: &State, b: u8) -> (r: Option<Warning>)
    ensures
        r == diagnostics::warning(cur@, b),
{
    let newline = b == LF || b == CR;
    match cur {
        State::Header(n, opened) => {
            if b == HASH && *n >= 6 {
                Some(Warning::HeaderTooDeep)
            } else if newline && !*opened {
                Some(Warning::EmptyHeader)
            } else {
                None
            }
        },
        State::Bold(true) => {
            if b != STAR && !newline {
                Some(Warning::StrayStar)
            } else {
                None
            }
        },
        State::Code(counting, n) => {
            if b == BACKTICK {
                None
            } else if *n == 1 && newline {
                Some(Warning::LineBreakInCode)
            } else if *counting && (*n == 2 || (!newline && *n != 1 && *n != 3)) {
                Some(Warning::UnexpectedCodeMarkers)
            } else {
                None
            }
        },
        State::Link(_) | State::Image(_) => {
            if newline {
                Some(Warning::LineBreakInLink)
            } else {
                None
            }
        },
        State::List(true, _) => {
            if b != SPACE && b != DASH {
                Some(Warning::DashWithoutSpace)
            } else {
                None
            }
        },
        _ => None,
    }
}

/// Writes what the open frames write when the input ends, from the top down.
fn close_all(cur: State, prev: &mut Vec<State>, out: &mut Vec<u8>)
    ensures
        final(out)@ == old(out)@ + model::finish(stack_of(old(prev)@, cur)),
    decreases old(prev)@.len(),
{
    proof {
        lemma_stack_of(prev@, cur);
    }
    if prev.len() == 0 {
        return ;
    }
    match &cur {
        State::List(_, true) => put_tag(out, Tag::UlClose),
        State::Paragraph => put_tag(out, Tag::PClose),
        State::Indent(_, buf) => {
            put_tag(out, Tag::IndentClose);
            out.write(buf.as_slice());
        },
        _ => {},
    }
    let p = fall(prev, cur);
    close_all(p, prev, out);
}

/// The state of a translation: the open constructs, innermost on top.
pub struct MDS {
    current: State,
    previous: Vec<State>,
}

impl View for MDS {
    type V = Seq<Frame>;

    closed spec fn view(&self) -> Seq<Frame> {
        stack_of(self.previous@, self.current)
    }
}

impl MDS {
    /// A translator that has read nothing.
    pub fn new() -> (r: MDS)
        ensures
            r@ == seq![Frame::Root],
    {
        let r = MDS { current: State::Root, previous: Vec::new() };
        assert(views(r.previous@) == Seq::<Frame>::empty());
        r
    }

    /// Whether nothing is open.
    pub fn is_none(&self) -> (r: bool)
        ensures
            r == (self@.last() is Root),
    {
        match self.current {
            State::Root => true,
            _ => false,
        }
    }

    /// Whether a paragraph is innermost.
    pub fn is_paragraph(&self) -> (r: bool)
        ensures
            r == (self@.last() is Paragraph),
    {
        match self.current {
            State::Paragraph => true,
            _ => false,
        }
    }

    /// Whether a list whose `<ul>` is written is innermost.
    pub fn is_ulist(&self) -> (r: bool)
        ensures
            r == (self@.last() matches Frame::List(_, true)),
    {
        match self.current {
            State::List(_, true) => true,
            _ => false,
        }
    }

    /// Whether an indented block is innermost.
    pub fn is_intend(&self) -> (r: bool)
        ensures
            r == (self@.last() is Indent),
    {
        match self.current {
            State::Indent(_, _) => true,
            _ => false,
        }
    }

    /// Reads one byte.
    fn feed(&mut self, b: u8, out: &mut Vec<u8>)
        requires
            stack_ok(old(self)@),
        ensures
            final(self)@ == model::step(old(self)@, b).0,
            final(out)@ == old(out)@ + model::step(old(self)@, b).1,
            stack_ok(final(self)@),
    {
        let mut cur = State::Root;
        std::mem::swap(&mut cur, &mut self.current);
        let r = step(cur, &mut self.previous, out, b);
        self.current = r;
        proof {
            model::lemma_step_ok(old(self)@, b);
        }
    }

    /// Ends the input: closes what is open.
    fn finish(self, out: &mut Vec<u8>)
        ensures
            final(out)@ == old(out)@ + model::finish(self@),
    {
        let MDS { current, previous } = self;
        let mut previous = previous;
        close_all(current, &mut previous, out);
    }

    /// The warning that byte `b` gets here.
    fn warning(&self, b: u8) -> (r: Option<Warning>)
        ensures
            r == diagnostics::warning(self@.last(), b),
    {
        proof {
            lemma_stack_of(self.previous@, self.current);
        }
        warning_of(&self.current, b)
    }

    /// Translates a Markdown text into an HTML fragment.
    pub fn parse(bytes: Vec<u8>) -> (r: Vec<u8>)
        ensures
            r@ == model::translate(bytes@),
    {
        let (out, _) = MDS::parse_with_diagnostics(bytes);
        out
    }

    /// Translates a Markdown text into an HTML fragment, with a record of each byte
    /// that is malformed where it stands.
    pub fn parse_with_diagnostics(bytes: Vec<u8>) -> (r: (Vec<u8>, Vec<Diagnostic>))
        ensures
            r.0@ == model::translate(bytes@),
            r.1@ == diagnostics::diagnostics(bytes@),
    {
        let mut m = MDS::new();
        let capacity = if bytes.len() <= usize::MAX / 2 {
            bytes.len() * 2
        } else {
            bytes.len()
        };
        let mut out: Vec<u8> = Vec::with_capacity(capacity);
        let mut found: Vec<Diagnostic> = Vec::new();
        let mut i: usize = 0;
        let mut line: usize = 1;
        let mut start: usize = 0;
        proof {
            model::lemma_root_ok();
            assert(bytes@.subrange(0, 0) == Seq::<u8>::empty());
        }
        while i < bytes.len()
            invariant
                0 <= i <= bytes@.len(),
                stack_ok(m@),
                (m@, out@) == model::run(seq![Frame::Root], bytes@.subrange(0, i as int)),
                found@ == diagnostics::diagnostics(bytes@.subrange(0, i as int)),
                start <= i,
                i - start == diagnostics::trailing(bytes@.subrange(0, i as int)),
                i < bytes@.len() ==> line == diagnostics::count_lf(bytes@.subrange(0, i as int))
                    + 1,
            decreases bytes@.len() - i,
        {
            let ghost read = bytes@.subrange(0, i as int);
            proof {
                diagnostics::lemma_count_lf_bound(read);
            }
            let b = bytes[i];
            match m.warning(b) {
                Some(w) => found.push(Diagnostic { line, column: i - start + 1, warning: w }),
                None => {},
            }
            m.feed(b, &mut out);
            if b == LF || b == CR {
                start = i + 1;
            }
            if b == LF && i + 1 < bytes.len() {
                line = line + 1;
            }
            i = i + 1;
            proof {
                let now = bytes@.subrange(0, i as int);
                assert(now.drop_last() == read);
                assert(now.last() == b);
            }
        }
        assert(bytes@.subrange(0, bytes@.len() as int) == bytes@);
        m.finish(&mut out);
        (out, found)
    }
}

} // verus!
