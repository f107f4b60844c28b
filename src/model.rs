//! The translator as a mathematical state machine.
//!
//! A stack of frames is read one byte at a time. Each byte may change the top of
//! the stack, push frames on it or pop frames from it, and yields a piece of output.
//! The bottom frame is `Root`, which is never popped. When the input ends, the open
//! frames are closed from the top down.

use vstd::prelude::*;

use crate::frame::Linkstatus;
use crate::tags::{header_close, header_open, tag, Tag};

verus! {

/// Line feed.
pub const LF: u8 = 10;

/// Carriage return.
pub const CR: u8 = 13;

/// Space.
pub const SPACE: u8 = 32;

/// `!`
pub const BANG: u8 = 33;

/// `#`
pub const HASH: u8 = 35;

/// `(`
pub const LPAREN: u8 = 40;

/// `)`
pub const RPAREN: u8 = 41;

/// `*`
pub const STAR: u8 = 42;

/// `-`
pub const DASH: u8 = 45;

/// `<`
pub const LT: u8 = 60;

/// `>`
pub const GT: u8 = 62;

/// `[`
pub const LBRACKET: u8 = 91;

/// `\`
pub const BACKSLASH: u8 = 92;

/// `]`
pub const RBRACKET: u8 = 93;

/// `_`
pub const UNDERSCORE: u8 = 95;

/// A backtick.
pub const BACKTICK: u8 = 96;

/// An open construct.
pub enum Frame {
    /// Nothing is open: the bottom of every stack.
    Root,
    /// A header of the given level; `true` once its start tag is written.
    Header(u8, bool),
    /// Running text in `<p>`.
    Paragraph,
    /// A block opened by a leading space; `true` after a line break, while it is not
    /// yet known whether the block goes on. The bytes are held back until then.
    Indent(bool, Seq<u8>),
    /// Bold text; `true` after one `*` of the closing pair.
    Bold(bool),
    /// Italic text; `true` right after its `*`, while it may still turn into bold.
    Italic(bool),
    /// Underlined text.
    Underline,
    /// Code; `true` while backticks are being counted, with their count.
    /// One backtick makes a span, three a block.
    Code(bool, u8),
    /// A link `[text](address)` being read.
    Link(LinkModel),
    /// An image `![text](source)` being read.
    Image(LinkModel),
    /// A `!` that may start an image.
    Exclamation,
    /// A `\`: the next byte is text.
    Escape,
    /// A list; `true` after a `-` not yet followed by a space, and `true` once
    /// `<ul>` is written.
    List(bool, bool),
    /// A list item.
    ListItem,
    /// A horizontal rule, with the number of its dashes.
    Rule(u8),
}

/// A link or an image being read.
pub struct LinkModel {
    pub status: Linkstatus,
    pub alt: Seq<u8>,
    pub link: Seq<u8>,
}

/// Appending nothing leaves a sequence as it is.
pub broadcast proof fn lemma_add_empty<A>(a: Seq<A>)
    ensures
        #[trigger] (a + Seq::<A>::empty()) == a,
{
    assert(a + Seq::<A>::empty() =~= a);
}

/// Concatenation is associative.
pub broadcast proof fn lemma_add_assoc<A>(a: Seq<A>, b: Seq<A>, c: Seq<A>)
    ensures
        #[trigger] ((a + b) + c) == a + (b + c),
{
    assert((a + b) + c =~= a + (b + c));
}

/// Pushing an element appends the sequence of that element.
pub broadcast proof fn lemma_push_add<A>(a: Seq<A>, x: A)
    ensures
        #[trigger] a.push(x) == a + seq![x],
{
    assert(a.push(x) =~= a + seq![x]);
}

/// A frame within the bounds that its fields are kept in.
pub open spec fn frame_ok(f: Frame) -> bool {
    match f {
        Frame::Header(n, _) => 1 <= n <= 6,
        Frame::Code(counting, n) => 1 <= n <= 5 && (!counting ==> (n == 1 || n == 3)),
        _ => true,
    }
}

/// A stack that the translator can be in: `Root` at the bottom, and every frame
/// within its bounds.
pub open spec fn stack_ok(s: Seq<Frame>) -> bool {
    &&& s.len() >= 1
    &&& s[0] == Frame::Root
    &&& forall|i: int| 0 <= i < s.len() ==> frame_ok(#[trigger] s[i])
}

pub open spec fn is_newline(b: u8) -> bool {
    b == LF || b == CR
}

/// The bytes that mark up text; every other byte is text wherever it stands.
pub open spec fn is_marker(b: u8) -> bool {
    ||| is_newline(b)
    ||| b == SPACE
    ||| b == BANG
    ||| b == HASH
    ||| b == LPAREN
    ||| b == RPAREN
    ||| b == STAR
    ||| b == DASH
    ||| b == LBRACKET
    ||| b == BACKSLASH
    ||| b == RBRACKET
    ||| b == UNDERSCORE
    ||| b == BACKTICK
}

/// Pops the top frame; the bottom frame stays.
pub open spec fn fall(s: Seq<Frame>) -> Seq<Frame> {
    if s.len() > 1 {
        s.drop_last()
    } else {
        s
    }
}

/// Replaces the top frame.
pub open spec fn switch(s: Seq<Frame>, f: Frame) -> Seq<Frame> {
    s.drop_last().push(f)
}

/// A link whose `[` has just been read.
pub open spec fn new_link() -> LinkModel {
    LinkModel { status: Linkstatus::Alt(0), alt: seq![], link: seq![] }
}

/// `l` in a frame of the same kind as `f`: an image if `f` is one, else a link.
pub open spec fn same_kind(f: Frame, l: LinkModel) -> Frame {
    if f is Image {
        Frame::Image(l)
    } else {
        Frame::Link(l)
    }
}

/// Replaces the link on top of `s` by `l`, of the same kind.
pub open spec fn relink(s: Seq<Frame>, l: LinkModel) -> Seq<Frame> {
    switch(s, same_kind(s.last(), l))
}

/// The source text of a link read so far, written back when the link breaks off.
pub open spec fn link_text(l: LinkModel) -> Seq<u8> {
    seq![LBRACKET] + l.alt + (if l.status == Linkstatus::Alt(0) {
        seq![]
    } else {
        seq![RBRACKET]
    }) + (if l.status is Link {
        seq![LPAREN] + l.link
    } else {
        seq![]
    })
}

/// The HTML of a complete link or image.
pub open spec fn link_html(f: Frame, l: LinkModel) -> Seq<u8> {
    if f is Image {
        tag(Tag::ImgOpen) + l.link + tag(Tag::ImgAlt) + l.alt + tag(Tag::AttrEnd)
    } else {
        tag(Tag::AnchorOpen) + l.link + tag(Tag::AttrEnd) + l.alt + tag(Tag::AnchorClose)
    }
}

/// An escaped byte: `<` and `>` as entities, any other byte as it is.
pub open spec fn escaped(b: u8) -> Seq<u8> {
    if b == LT {
        tag(Tag::Lt)
    } else if b == GT {
        tag(Tag::Gt)
    } else {
        seq![b]
    }
}

/// Writes what a pending marker on top stands for, before anything else opens.
pub open spec fn settle(s: Seq<Frame>) -> (Seq<Frame>, Seq<u8>) {
    match s.last() {
        Frame::Italic(true) => (switch(s, Frame::Italic(false)), tag(Tag::IOpen)),
        Frame::Bold(true) => (switch(s, Frame::Bold(false)), seq![STAR]),
        Frame::Header(n, false) => (switch(s, Frame::Header(n, true)), header_open(n)),
        _ => (s, seq![]),
    }
}

/// Text `t` read into the buffers of the link on top of `s`.
pub open spec fn link_text_in(s: Seq<Frame>, l: LinkModel, t: Seq<u8>) -> (Seq<Frame>, Seq<u8>) {
    match l.status {
        Linkstatus::Alt(0) => (
            relink(s, LinkModel { status: l.status, alt: l.alt + t, link: l.link }),
            seq![],
        ),
        Linkstatus::Alt(_) => (fall(s), link_text(l) + t),
        Linkstatus::Link => (
            relink(s, LinkModel { status: l.status, alt: l.alt, link: l.link + t }),
            seq![],
        ),
    }
}

/// Text `t` read where it has no other meaning.
pub open spec fn text(s: Seq<Frame>, t: Seq<u8>) -> (Seq<Frame>, Seq<u8>) {
    match s.last() {
        Frame::Root => (s.push(Frame::Paragraph), tag(Tag::POpen) + t),
        Frame::Code(true, n) => if n == 1 {
            (switch(s, Frame::Code(false, 1)), tag(Tag::CodeSpanOpen) + t)
        } else if n == 3 {
            (switch(s, Frame::Code(false, 3)), tag(Tag::CodeBlockOpen) + t)
        } else {
            (fall(s), t)
        },
        Frame::Escape => (fall(s), t),
        Frame::Exclamation => (fall(s), seq![BANG] + t),
        Frame::Link(l) => link_text_in(s, l, t),
        Frame::Image(l) => link_text_in(s, l, t),
        Frame::Indent(true, buf) => (
            fall(s).push(Frame::Paragraph),
            tag(Tag::IndentClose) + buf + tag(Tag::POpen) + t,
        ),
        Frame::Indent(false, buf) => (
            switch(s, Frame::Indent(false, seq![])).push(Frame::Paragraph),
            buf + tag(Tag::POpen) + t,
        ),
        _ => {
            let (s1, o) = settle(s);
            (s1, o + t)
        },
    }
}

/// `!`: may start an image.
pub open spec fn bang(s: Seq<Frame>) -> (Seq<Frame>, Seq<u8>) {
    match s.last() {
        Frame::Root => (s.push(Frame::Paragraph).push(Frame::Exclamation), tag(Tag::POpen)),
        Frame::Exclamation => (s, seq![BANG]),
        Frame::Indent(true, buf) => (
            fall(s).push(Frame::Exclamation),
            tag(Tag::IndentClose) + buf,
        ),
        Frame::Indent(false, _) => (s.push(Frame::Exclamation), seq![]),
        _ => {
            let (s1, o) = settle(s);
            (s1.push(Frame::Exclamation), o)
        },
    }
}

/// `\`: the next byte is text.
pub open spec fn backslash(s: Seq<Frame>) -> (Seq<Frame>, Seq<u8>) {
    match s.last() {
        Frame::Exclamation => (switch(s, Frame::Escape), seq![BANG]),
        _ => {
            let (s1, o) = settle(s);
            (s1.push(Frame::Escape), o)
        },
    }
}

/// `#`: starts a header at the start of a line, or raises its level, up to 6.
pub open spec fn hash(s: Seq<Frame>) -> (Seq<Frame>, Seq<u8>) {
    match s.last() {
        Frame::Root => (s.push(Frame::Header(1, false)), seq![]),
        Frame::Indent(true, buf) => (
            fall(s).push(Frame::Header(1, false)),
            tag(Tag::IndentClose) + buf,
        ),
        Frame::Indent(false, _) => (s.push(Frame::Header(1, false)), seq![]),
        Frame::Header(n, p) => if n < 6 {
            (switch(s, Frame::Header((n + 1) as u8, p)), seq![])
        } else {
            (s, seq![])
        },
        _ => text(s, seq![HASH]),
    }
}

/// A space: opens an indented block at the start of a line, writes a header's
/// start tag, starts a list item, or is `%20` in an address.
pub open spec fn space(s: Seq<Frame>) -> (Seq<Frame>, Seq<u8>) {
    match s.last() {
        Frame::Root => (s.push(Frame::Indent(false, seq![])), tag(Tag::IndentOpen)),
        Frame::Header(n, false) => (switch(s, Frame::Header(n, true)), header_open(n)),
        Frame::Link(l) => if l.status is Link {
            link_text_in(s, l, tag(Tag::Space))
        } else {
            text(s, seq![SPACE])
        },
        Frame::Image(l) => if l.status is Link {
            link_text_in(s, l, tag(Tag::Space))
        } else {
            text(s, seq![SPACE])
        },
        Frame::Indent(_, buf) => (switch(s, Frame::Indent(false, buf)), seq![]),
        Frame::List(true, opened) => (
            switch(s, Frame::List(false, true)).push(Frame::ListItem),
            (if opened {
                seq![]
            } else {
                tag(Tag::UlOpen)
            }) + tag(Tag::LiOpen),
        ),
        Frame::List(false, _) => (s, seq![]),
        _ => text(s, seq![SPACE]),
    }
}

/// `[`: starts a link, or an image after `!`.
pub open spec fn open_bracket(s: Seq<Frame>) -> (Seq<Frame>, Seq<u8>) {
    match s.last() {
        Frame::Root => (
            s.push(Frame::Paragraph).push(Frame::Link(new_link())),
            tag(Tag::POpen),
        ),
        Frame::Exclamation => (switch(s, Frame::Image(new_link())), seq![]),
        Frame::Indent(true, buf) => (
            fall(s).push(Frame::Link(new_link())),
            tag(Tag::IndentClose) + buf,
        ),
        Frame::Indent(false, _) => (s.push(Frame::Link(new_link())), seq![]),
        _ => {
            let (s1, o) = settle(s);
            (s1.push(Frame::Link(new_link())), o)
        },
    }
}

/// `(`, `]` or `)` in the link on top of `s`.
pub open spec fn link_char(s: Seq<Frame>, l: LinkModel, b: u8) -> (Seq<Frame>, Seq<u8>) {
    if b == LPAREN {
        match l.status {
            Linkstatus::Alt(0) => (fall(s), link_text(l) + seq![b]),
            Linkstatus::Alt(_) => (
                relink(s, LinkModel { status: Linkstatus::Link, alt: l.alt, link: l.link }),
                seq![],
            ),
            Linkstatus::Link => (fall(s), link_text(l) + seq![b]),
        }
    } else if b == RBRACKET {
        match l.status {
            Linkstatus::Alt(0) => (
                relink(s, LinkModel { status: Linkstatus::Alt(1), alt: l.alt, link: l.link }),
                seq![],
            ),
            Linkstatus::Alt(_) => (fall(s), link_text(l) + seq![b]),
            Linkstatus::Link => link_text_in(s, l, seq![b]),
        }
    } else {
        match l.status {
            Linkstatus::Link => (fall(s), link_html(s.last(), l)),
            _ => link_text_in(s, l, seq![b]),
        }
    }
}

/// `(`, `]` or `)`: they drive links; elsewhere they are text.
pub open spec fn close_char(s: Seq<Frame>, b: u8) -> (Seq<Frame>, Seq<u8>) {
    match s.last() {
        Frame::Link(l) => link_char(s, l, b),
        Frame::Image(l) => link_char(s, l, b),
        Frame::Indent(_, buf) => (
            switch(s, Frame::Paragraph),
            tag(Tag::IndentClose) + buf + tag(Tag::POpen) + seq![b],
        ),
        _ => text(s, seq![b]),
    }
}

/// Ends a line below a `!` or in a paragraph: closes paragraphs and headers down to
/// an indented block, which keeps the line break, or down to anything else, after
/// which the line break is written.
pub open spec fn end_line(s: Seq<Frame>, b: u8) -> (Seq<Frame>, Seq<u8>)
    decreases s.len(),
{
    if s.len() <= 1 {
        (s, seq![b])
    } else {
        match s.last() {
            Frame::Paragraph => {
                let (s1, o) = end_line(s.drop_last(), b);
                (s1, tag(Tag::PClose) + o)
            },
            Frame::Header(n, _) => {
                let (s1, o) = end_line(s.drop_last(), b);
                (s1, header_close(n) + o)
            },
            Frame::Indent(_, buf) => (switch(s, Frame::Indent(true, buf.push(b))), seq![]),
            _ => (s, seq![b]),
        }
    }
}

/// Pops every frame down to `Root`, closing the paragraphs among them.
pub open spec fn unwind(s: Seq<Frame>) -> (Seq<Frame>, Seq<u8>)
    decreases s.len(),
{
    if s.len() <= 1 || s.last() is Root {
        (s, seq![])
    } else {
        let (s1, o) = unwind(s.drop_last());
        (s1, (if s.last() is Paragraph {
            tag(Tag::PClose)
        } else {
            seq![]
        }) + o)
    }
}

/// A line break `b`: ends headers, paragraphs, list items, rules, links and code
/// spans.
pub open spec fn newline(s: Seq<Frame>, b: u8) -> (Seq<Frame>, Seq<u8>) {
    match s.last() {
        Frame::Header(n, _) => (fall(s), header_close(n) + seq![b]),
        Frame::Paragraph => end_line(s, b),
        Frame::Code(_, count) => if count == 1 {
            let (s1, o) = unwind(fall(s));
            (s1, tag(Tag::CodeSpanClose) + o + seq![b])
        } else if count == 2 {
            (fall(s), seq![b])
        } else {
            (s, seq![b])
        },
        Frame::Link(l) => (fall(s), link_text(l) + seq![b]),
        Frame::Image(l) => (fall(s), link_text(l) + seq![b]),
        Frame::Indent(_, buf) => (switch(s, Frame::Indent(true, buf.push(b))), seq![]),
        Frame::Exclamation => {
            let (s1, o) = end_line(fall(s), b);
            (s1, seq![BANG] + o)
        },
        Frame::ListItem => (fall(s), tag(Tag::LiClose) + seq![b]),
        Frame::Rule(_) => (fall(s), tag(Tag::Hr) + seq![b]),
        _ => (s, seq![b]),
    }
}

/// A backtick: counts the markers of code, which one backtick opens and closes as a
/// span, and three as a block.
pub open spec fn backtick(s: Seq<Frame>) -> (Seq<Frame>, Seq<u8>) {
    match s.last() {
        Frame::Root => (
            s.push(Frame::Paragraph).push(Frame::Code(true, 1)),
            tag(Tag::POpen),
        ),
        Frame::Code(counting, n) => {
            let x = (n + 1) as u8;
            if counting {
                if x == 6 {
                    (fall(s), tag(Tag::CodeBlockClose))
                } else {
                    (switch(s, Frame::Code(true, x)), seq![])
                }
            } else if x == 2 {
                (fall(s), tag(Tag::CodeSpanClose))
            } else {
                (switch(s, Frame::Code(true, x)), seq![])
            }
        },
        Frame::Indent(true, buf) => (
            fall(s).push(Frame::Paragraph).push(Frame::Code(true, 1)),
            tag(Tag::IndentClose) + buf + tag(Tag::POpen),
        ),
        Frame::Indent(false, _) => (
            s.push(Frame::Paragraph).push(Frame::Code(true, 1)),
            tag(Tag::POpen),
        ),
        Frame::Exclamation => (switch(s, Frame::Code(true, 1)), seq![BANG]),
        _ => {
            let (s1, o) = settle(s);
            (s1.push(Frame::Code(true, 1)), o)
        },
    }
}

/// `*`: opens italic text, turns it into bold when doubled, and closes either.
pub open spec fn star(s: Seq<Frame>) -> (Seq<Frame>, Seq<u8>) {
    match s.last() {
        Frame::Root => (s.push(Frame::Paragraph).push(Frame::Italic(true)), tag(Tag::POpen)),
        Frame::Indent(true, buf) => (
            fall(s).push(Frame::Paragraph).push(Frame::Italic(true)),
            tag(Tag::IndentClose) + buf + tag(Tag::POpen),
        ),
        Frame::Indent(false, _) => (
            s.push(Frame::Paragraph).push(Frame::Italic(true)),
            tag(Tag::POpen),
        ),
        Frame::Exclamation => (switch(s, Frame::Italic(true)), seq![BANG]),
        Frame::Italic(true) => (switch(s, Frame::Bold(false)), tag(Tag::BOpen)),
        Frame::Italic(false) => (fall(s), tag(Tag::IClose)),
        Frame::Bold(true) => (fall(s), tag(Tag::BClose)),
        Frame::Bold(false) => (switch(s, Frame::Bold(true)), seq![]),
        Frame::Paragraph => (s.push(Frame::Italic(true)), seq![]),
        Frame::Underline => (s.push(Frame::Italic(true)), seq![]),
        Frame::Header(_, _) => {
            let (s1, o) = settle(s);
            (s1.push(Frame::Italic(true)), o)
        },
        _ => text(s, seq![STAR]),
    }
}

/// `_`: opens and closes underlined text.
pub open spec fn underscore(s: Seq<Frame>) -> (Seq<Frame>, Seq<u8>) {
    match s.last() {
        Frame::Root => (
            s.push(Frame::Paragraph).push(Frame::Underline),
            tag(Tag::POpen) + tag(Tag::UOpen),
        ),
        Frame::Indent(true, buf) => (
            fall(s).push(Frame::Paragraph).push(Frame::Underline),
            tag(Tag::IndentClose) + buf + tag(Tag::POpen) + tag(Tag::UOpen),
        ),
        Frame::Indent(false, _) => (s.push(Frame::Underline), tag(Tag::UOpen)),
        Frame::Underline => (fall(s), tag(Tag::UClose)),
        Frame::Exclamation => (switch(s, Frame::Underline), seq![BANG] + tag(Tag::UOpen)),
        Frame::Paragraph => (s.push(Frame::Underline), tag(Tag::UOpen)),
        Frame::Header(_, _) | Frame::Bold(_) | Frame::Italic(_) => {
            let (s1, o) = settle(s);
            (s1.push(Frame::Underline), o + tag(Tag::UOpen))
        },
        _ => text(s, seq![UNDERSCORE]),
    }
}

/// `-`: starts a list item at the start of a line; two or more in a row make a
/// horizontal rule.
pub open spec fn dash(s: Seq<Frame>) -> (Seq<Frame>, Seq<u8>) {
    match s.last() {
        Frame::Root => (s.push(Frame::List(true, false)), seq![]),
        Frame::Indent(true, buf) => (
            fall(s).push(Frame::List(true, false)),
            tag(Tag::IndentClose) + buf,
        ),
        Frame::Indent(false, buf) => (
            switch(s, Frame::Indent(false, seq![])).push(Frame::List(true, false)),
            buf,
        ),
        Frame::List(true, false) => (switch(s, Frame::Rule(2)), seq![]),
        Frame::List(true, true) => (fall(s).push(Frame::Rule(2)), tag(Tag::UlClose)),
        Frame::List(false, opened) => (switch(s, Frame::List(true, opened)), seq![]),
        Frame::Rule(n) => (
            switch(
                s,
                Frame::Rule(
                    if n < 255 {
                        (n + 1) as u8
                    } else {
                        n
                    },
                ),
            ),
            seq![],
        ),
        _ => text(s, seq![DASH]),
    }
}

/// Whether `b` is text in frame `f` whatever its class: in code all but backticks and
/// line breaks, in a link or an image all but what drives it, and elsewhere all but
/// the markers.
pub open spec fn plain_in(f: Frame, b: u8) -> bool {
    match f {
        Frame::Code(_, _) => b != BACKTICK && !is_newline(b),
        Frame::Link(_) | Frame::Image(_) => !(b == SPACE || b == LPAREN || b == RBRACKET || b
            == RPAREN || is_newline(b)),
        _ => !is_marker(b),
    }
}

/// One byte read on top of `s`, by its class.
pub open spec fn dispatch(s: Seq<Frame>, b: u8) -> (Seq<Frame>, Seq<u8>) {
    if s.last() is Escape {
        text(fall(s), escaped(b))
    } else if plain_in(s.last(), b) {
        text(s, seq![b])
    } else if b == BANG {
        bang(s)
    } else if b == BACKSLASH {
        backslash(s)
    } else if b == HASH {
        hash(s)
    } else if b == SPACE {
        space(s)
    } else if b == LBRACKET {
        open_bracket(s)
    } else if b == LPAREN || b == RBRACKET || b == RPAREN {
        close_char(s, b)
    } else if is_newline(b) {
        newline(s, b)
    } else if b == BACKTICK {
        backtick(s)
    } else if b == STAR {
        star(s)
    } else if b == UNDERSCORE {
        underscore(s)
    } else {
        dash(s)
    }
}

/// Whether `b` ends the list on top: anything but a space, a `-`, or a line break
/// after an item.
pub open spec fn breaks_list(f: Frame, b: u8) -> bool {
    match f {
        Frame::List(dash, _) => b != SPACE && b != DASH && !(is_newline(b) && !dash),
        _ => false,
    }
}

/// Closes the list on top and the indented block under it, and opens a paragraph,
/// which starts with the `-` that no space followed.
pub open spec fn leave_list(s: Seq<Frame>) -> (Seq<Frame>, Seq<u8>) {
    let (dash, opened) = match s.last() {
        Frame::List(d, o) => (d, o),
        _ => (false, false),
    };
    let s1 = fall(s);
    let (s2, flushed) = match s1.last() {
        Frame::Indent(_, buf) => (fall(s1), tag(Tag::IndentClose) + buf),
        _ => (s1, seq![]),
    };
    (
        s2.push(Frame::Paragraph),
        (if opened {
            tag(Tag::UlClose)
        } else {
            seq![]
        }) + flushed + tag(Tag::POpen) + (if dash {
            seq![DASH]
        } else {
            seq![]
        }),
    )
}

/// One byte read on `s`: the next stack, and what is written.
pub open spec fn step(s: Seq<Frame>, b: u8) -> (Seq<Frame>, Seq<u8>) {
    if breaks_list(s.last(), b) {
        let (s1, o1) = leave_list(s);
        let (s2, o2) = dispatch(s1, b);
        (s2, o1 + o2)
    } else {
        dispatch(s, b)
    }
}

/// The bytes read one after another from `s`: the stack at the end, and what is
/// written.
pub open spec fn run(s: Seq<Frame>, bytes: Seq<u8>) -> (Seq<Frame>, Seq<u8>)
    decreases bytes.len(),
{
    if bytes.len() == 0 {
        (s, seq![])
    } else {
        let (s1, o1) = run(s, bytes.drop_last());
        let (s2, o2) = step(s1, bytes.last());
        (s2, o1 + o2)
    }
}

/// What a frame writes when the input ends while it is open: lists, paragraphs and
/// indented blocks are closed; any other frame is dropped with what it holds back.
pub open spec fn closing(f: Frame) -> Seq<u8> {
    match f {
        Frame::List(_, true) => tag(Tag::UlClose),
        Frame::Paragraph => tag(Tag::PClose),
        Frame::Indent(_, buf) => tag(Tag::IndentClose) + buf,
        _ => seq![],
    }
}

/// What closing the open frames writes, from the top down to `Root`.
pub open spec fn finish(s: Seq<Frame>) -> Seq<u8>
    decreases s.len(),
{
    if s.len() <= 1 {
        seq![]
    } else {
        closing(s.last()) + finish(s.drop_last())
    }
}

/// The HTML for a Markdown text.
pub open spec fn translate(bytes: Seq<u8>) -> Seq<u8> {
    let (s, o) = run(seq![Frame::Root], bytes);
    o + finish(s)
}

/// The stack of a translator that has read nothing.
pub proof fn lemma_root_ok()
    ensures
        stack_ok(seq![Frame::Root]),
{
    assert(frame_ok(seq![Frame::Root][0]));
}

/// Reading any bytes from the stack of a translator that has read nothing keeps the
/// stack well formed.
pub proof fn lemma_run_ok(bytes: Seq<u8>)
    ensures
        stack_ok(run(seq![Frame::Root], bytes).0),
    decreases bytes.len(),
{
    if bytes.len() == 0 {
        lemma_root_ok();
    } else {
        lemma_run_ok(bytes.drop_last());
        lemma_step_ok(run(seq![Frame::Root], bytes.drop_last()).0, bytes.last());
    }
}

pub proof fn lemma_top_ok(s: Seq<Frame>)
    requires
        stack_ok(s),
    ensures
        frame_ok(s.last()),
{
    assert(frame_ok(s[s.len() - 1]));
}

pub broadcast proof fn lemma_push_ok(s: Seq<Frame>, f: Frame)
    requires
        stack_ok(s),
        frame_ok(f),
    ensures
        #[trigger] stack_ok(s.push(f)),
{
    assert forall|i: int| 0 <= i < s.push(f).len() implies frame_ok(#[trigger] s.push(f)[i]) by {
        if i < s.len() {
            assert(s.push(f)[i] == s[i]);
        }
    }
    assert(s.push(f)[0] == s[0]);
}

pub broadcast proof fn lemma_fall_ok(s: Seq<Frame>)
    requires
        stack_ok(s),
    ensures
        #[trigger] stack_ok(fall(s)),
{
    assert forall|i: int| 0 <= i < fall(s).len() implies frame_ok(#[trigger] fall(s)[i]) by {
        assert(fall(s)[i] == s[i]);
    }
    assert(fall(s)[0] == s[0]);
}

pub broadcast proof fn lemma_switch_ok(s: Seq<Frame>, f: Frame)
    requires
        stack_ok(s),
        frame_ok(f),
        !(s.last() is Root),
    ensures
        #[trigger] stack_ok(switch(s, f)),
{
    let t = switch(s, f);
    assert(s.len() > 1);
    assert(t[0] == s[0]);
    assert forall|i: int| 0 <= i < t.len() implies frame_ok(#[trigger] t[i]) by {
        if i < s.len() - 1 {
            assert(t[i] == s[i]);
        }
    }
}

proof fn lemma_drop_last_ok(s: Seq<Frame>)
    requires
        stack_ok(s),
        s.len() > 1,
    ensures
        stack_ok(s.drop_last()),
{
    assert(fall(s) == s.drop_last());
    lemma_fall_ok(s);
}

proof fn lemma_end_line_ok(s: Seq<Frame>, b: u8)
    requires
        stack_ok(s),
    ensures
        stack_ok(end_line(s, b).0),
    decreases s.len(),
{
    broadcast use lemma_switch_ok;

    if s.len() > 1 {
        lemma_drop_last_ok(s);
        lemma_end_line_ok(s.drop_last(), b);
    }
}

proof fn lemma_unwind_ok(s: Seq<Frame>)
    requires
        stack_ok(s),
    ensures
        stack_ok(unwind(s).0),
    decreases s.len(),
{
    if s.len() > 1 {
        lemma_drop_last_ok(s);
        lemma_unwind_ok(s.drop_last());
    }
}

proof fn lemma_settle_ok(s: Seq<Frame>)
    requires
        stack_ok(s),
    ensures
        stack_ok(settle(s).0),
{
    broadcast use lemma_switch_ok;

    lemma_top_ok(s);
}

proof fn lemma_text_ok(s: Seq<Frame>, t: Seq<u8>)
    requires
        stack_ok(s),
    ensures
        stack_ok(text(s, t).0),
{
    broadcast use lemma_switch_ok, lemma_push_ok, lemma_fall_ok;

    lemma_top_ok(s);
    lemma_settle_ok(s);
}

/// Closing a list keeps the stack well formed.
pub proof fn lemma_leave_list_ok(s: Seq<Frame>)
    requires
        stack_ok(s),
    ensures
        stack_ok(leave_list(s).0),
{
    broadcast use lemma_push_ok, lemma_fall_ok;

}

proof fn lemma_dispatch_ok(s: Seq<Frame>, b: u8)
    requires
        stack_ok(s),
    ensures
        stack_ok(dispatch(s, b).0),
{
    broadcast use lemma_switch_ok, lemma_push_ok, lemma_fall_ok;

    lemma_top_ok(s);
    lemma_text_ok(s, seq![b]);
    lemma_text_ok(s, seq![HASH]);
    lemma_text_ok(s, seq![SPACE]);
    lemma_text_ok(s, seq![STAR]);
    lemma_text_ok(s, seq![UNDERSCORE]);
    lemma_text_ok(s, seq![DASH]);
    lemma_text_ok(s, tag(Tag::Space));
    lemma_text_ok(fall(s), escaped(b));
    lemma_settle_ok(s);
    lemma_end_line_ok(s, b);
    lemma_end_line_ok(fall(s), b);
    lemma_unwind_ok(fall(s));
}

/// Every step keeps the stack well formed.
pub proof fn lemma_step_ok(s: Seq<Frame>, b: u8)
    requires
        stack_ok(s),
    ensures
        stack_ok(step(s, b).0),
{
    lemma_leave_list_ok(s);
    lemma_dispatch_ok(s, b);
    lemma_dispatch_ok(leave_list(s).0, b);
}

} // verus!
