//! The frames that the translator keeps on its stack, as executable values.

use vstd::prelude::*;

use crate::model::{Frame, LinkModel};

verus! {

/// How far a link or an image has been read.
#[derive(Clone, Copy, Debug, PartialEq, Eq, Structural)]
pub enum Linkstatus {
    /// Reading the text: `0` after `[`, `1` after the `]` that ends it, while `(` is expected.
    Alt(u8),
    /// Reading the address, after `(`.
    Link,
}

impl Linkstatus {
    /// Whether the text is still being read.
    pub fn is_alt(&self) -> (r: bool)
        ensures
            r == (*self is Alt),
    {
        match self {
            Linkstatus::Alt(_) => true,
            Linkstatus::Link => false,
        }
    }

    /// Whether a `]` is expected to end the text.
    pub fn alt_expects_closure(&self) -> (r: bool)
        ensures
            r == (*self == Linkstatus::Alt(0)),
    {
        match self {
            Linkstatus::Alt(0) => true,
            _ => false,
        }
    }

    /// Whether the text has ended and a `(` is expected.
    pub fn alt_expects_url(&self) -> (r: bool)
        ensures
            r == (*self == Linkstatus::Alt(1)),
    {
        match self {
            Linkstatus::Alt(1) => true,
            _ => false,
        }
    }

    /// Whether the address is being read.
    pub fn is_link(&self) -> (r: bool)
        ensures
            r == (*self is Link),
    {
        match self {
            Linkstatus::Alt(_) => false,
            Linkstatus::Link => true,
        }
    }
}

/// A link or an image being read: its status, its text and its address.
#[derive(Debug)]
pub struct Linkdata {
    pub status: Linkstatus,
    pub alt: Vec<u8>,
    pub link: Vec<u8>,
}

impl View for Linkdata {
    type V = LinkModel;

    open spec fn view(&self) -> LinkModel {
        LinkModel { status: self.status, alt: self.alt@, link: self.link@ }
    }
}

impl Linkdata {
    /// A link whose `[` has just been read.
    pub fn new() -> (r: Linkdata)
        ensures
            r@ == crate::model::new_link(),
    {
        Linkdata { status: Linkstatus::Alt(0), alt: Vec::new(), link: Vec::new() }
    }

    /// Whether the text is still being read.
    pub fn is_alt(&self) -> (r: bool)
        ensures
            r == (self.status is Alt),
    {
        self.status.is_alt()
    }

    /// Whether the address is being read.
    pub fn is_link(&self) -> (r: bool)
        ensures
            r == (self.status is Link),
    {
        self.status.is_link()
    }

    /// Whether a `]` is expected to end the text.
    pub fn alt_expects_closure(&self) -> (r: bool)
        ensures
            r == (self.status == Linkstatus::Alt(0)),
    {
        self.status.alt_expects_closure()
    }

    /// Whether the text has ended and a `(` is expected.
    pub fn alt_expects_url(&self) -> (r: bool)
        ensures
            r == (self.status == Linkstatus::Alt(1)),
    {
        self.status.alt_expects_url()
    }
}

/// One open construct; see [`Frame`] for what each one means.
#[derive(Debug)]
pub enum State {
    Root,
    Header(u8, bool),
    Paragraph,
    Indent(bool, Vec<u8>),
    Bold(bool),
    Italic(bool),
    Underline,
    Code(bool, u8),
    Link(Linkdata),
    Image(Linkdata),
    Exclamation,
    Escape,
    List(bool, bool),
    ListItem,
    Rule(u8),
}

impl View for State {
    type V = Frame;

    open spec fn view(&self) -> Frame {
        match self {
            State::Root => Frame::Root,
            State::Header(n, p) => Frame::Header(*n, *p),
            State::Paragraph => Frame::Paragraph,
            State::Indent(e, buf) => Frame::Indent(*e, buf@),
            State::Bold(p) => Frame::Bold(*p),
            State::Italic(p) => Frame::Italic(*p),
            State::Underline => Frame::Underline,
            State::Code(p, n) => Frame::Code(*p, *n),
            State::Link(l) => Frame::Link(l@),
            State::Image(l) => Frame::Image(l@),
            State::Exclamation => Frame::Exclamation,
            State::Escape => Frame::Escape,
            State::List(d, o) => Frame::List(*d, *o),
            State::ListItem => Frame::ListItem,
            State::Rule(n) => Frame::Rule(*n),
        }
    }
}

/// The frames that a sequence of states stands for.
pub open spec fn views(v: Seq<State>) -> Seq<Frame> {
    v.map_values(|f: State| f@)
}

/// The stack that a parent stack and a top frame make.
pub open spec fn stack_of(prev: Seq<State>, cur: State) -> Seq<Frame> {
    views(prev).push(cur@)
}

} // verus!
