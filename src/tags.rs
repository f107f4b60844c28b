//! The fixed pieces of HTML that the translator writes.

use vstd::prelude::*;

use crate::writeto::WtiteTo;

verus! {

/// A fixed piece of HTML.
#[derive(Clone, Copy, Debug, PartialEq, Eq)]
pub enum Tag {
    /// Opens a paragraph: `<p>`
    POpen,
    /// Closes a paragraph: `</p>`
    PClose,
    /// Opens a code block: `<div class="code"><code class="code">`
    CodeBlockOpen,
    /// Closes a code block: `</code></div>`
    CodeBlockClose,
    /// Opens an inline code span: `<span class="code"><code class="code">`
    CodeSpanOpen,
    /// Closes an inline code span: `</code></span>`
    CodeSpanClose,
    /// Opens an indented block: `<div class="intend">`
    IndentOpen,
    /// Closes an indented block: `</div>`
    IndentClose,
    /// Opens italic text: `<i>`
    IOpen,
    /// Closes italic text: `</i>`
    IClose,
    /// Opens bold text: `<b>`
    BOpen,
    /// Closes bold text: `</b>`
    BClose,
    /// Opens underlined text: `<u>`
    UOpen,
    /// Closes underlined text: `</u>`
    UClose,
    /// Opens a list item: `<li>`
    LiOpen,
    /// Closes a list item: `</li>`
    LiClose,
    /// Opens an unordered list: `<ul>`
    UlOpen,
    /// Closes an unordered list: `</ul>`
    UlClose,
    /// A horizontal rule: `<hr>`
    Hr,
    /// Starts an anchor, up to its address: `<a href="`
    AnchorOpen,
    /// Closes an anchor: `</a>`
    AnchorClose,
    /// Starts an image, up to its source: `<img src="`
    ImgOpen,
    /// Separates an image's source from its text: `" alt="`
    ImgAlt,
    /// Ends the last attribute of a start tag: `">`
    AttrEnd,
    /// The entity for `<`: `&lt;`
    Lt,
    /// The entity for `>`: `&gt;`
    Gt,
    /// A space inside an address: `%20`
    Space,
}

/// The bytes of a tag.
pub open spec fn tag(t: Tag) -> Seq<u8> {
    match t {
        Tag::POpen => seq![60u8, 112u8, 62u8],
        Tag::PClose => seq![60u8, 47u8, 112u8, 62u8],
        Tag::CodeBlockOpen => seq![
            60u8, 100u8, 105u8, 118u8, 32u8, 99u8, 108u8, 97u8, 115u8, 115u8, 61u8, 34u8, 99u8,
            111u8, 100u8, 101u8, 34u8, 62u8, 60u8, 99u8, 111u8, 100u8, 101u8, 32u8, 99u8, 108u8,
            97u8, 115u8, 115u8, 61u8, 34u8, 99u8, 111u8, 100u8, 101u8, 34u8, 62u8,
        ],
        Tag::CodeBlockClose => seq![
            60u8, 47u8, 99u8, 111u8, 100u8, 101u8, 62u8, 60u8, 47u8, 100u8, 105u8, 118u8, 62u8,
        ],
        Tag::CodeSpanOpen => seq![
            60u8, 115u8, 112u8, 97u8, 110u8, 32u8, 99u8, 108u8, 97u8, 115u8, 115u8, 61u8, 34u8,
            99u8, 111u8, 100u8, 101u8, 34u8, 62u8, 60u8, 99u8, 111u8, 100u8, 101u8, 32u8, 99u8,
            108u8, 97u8, 115u8, 115u8, 61u8, 34u8, 99u8, 111u8, 100u8, 101u8, 34u8, 62u8,
        ],
        Tag::CodeSpanClose => seq![
            60u8, 47u8, 99u8, 111u8, 100u8, 101u8, 62u8, 60u8, 47u8, 115u8, 112u8, 97u8, 110u8,
            62u8,
        ],
        Tag::IndentOpen => seq![
            60u8, 100u8, 105u8, 118u8, 32u8, 99u8, 108u8, 97u8, 115u8, 115u8, 61u8, 34u8, 105u8,
            110u8, 116u8, 101u8, 110u8, 100u8, 34u8, 62u8,
        ],
        Tag::IndentClose => seq![60u8, 47u8, 100u8, 105u8, 118u8, 62u8],
        Tag::IOpen => seq![60u8, 105u8, 62u8],
        Tag::IClose => seq![60u8, 47u8, 105u8, 62u8],
        Tag::BOpen => seq![60u8, 98u8, 62u8],
        Tag::BClose => seq![60u8, 47u8, 98u8, 62u8],
        Tag::UOpen => seq![60u8, 117u8, 62u8],
        Tag::UClose => seq![60u8, 47u8, 117u8, 62u8],
        Tag::LiOpen => seq![60u8, 108u8, 105u8, 62u8],
        Tag::LiClose => seq![60u8, 47u8, 108u8, 105u8, 62u8],
        Tag::UlOpen => seq![60u8, 117u8, 108u8, 62u8],
        Tag::UlClose => seq![60u8, 47u8, 117u8, 108u8, 62u8],
        Tag::Hr => seq![60u8, 104u8, 114u8, 62u8],
        Tag::AnchorOpen => seq![60u8, 97u8, 32u8, 104u8, 114u8, 101u8, 102u8, 61u8, 34u8],
        Tag::AnchorClose => seq![60u8, 47u8, 97u8, 62u8],
        Tag::ImgOpen => seq![60u8, 105u8, 109u8, 103u8, 32u8, 115u8, 114u8, 99u8, 61u8, 34u8],
        Tag::ImgAlt => seq![34u8, 32u8, 97u8, 108u8, 116u8, 61u8, 34u8],
        Tag::AttrEnd => seq![34u8, 62u8],
        Tag::Lt => seq![38u8, 108u8, 116u8, 59u8],
        Tag::Gt => seq![38u8, 103u8, 116u8, 59u8],
        Tag::Space => seq![37u8, 50u8, 48u8],
    }
}

/// Appends the bytes of `t` to `out`.
pub fn put_tag(out: &mut Vec<u8>, t: Tag)
    ensures
        final(out)@ == old(out)@ + tag(t),
{
    match t {
        Tag::POpen => out.write(&[60, 112, 62]),
        Tag::PClose => out.write(&[60, 47, 112, 62]),
        Tag::CodeBlockOpen => out.write(
            &[
                60, 100, 105, 118, 32, 99, 108, 97, 115, 115, 61, 34, 99, 111, 100, 101, 34, 62,
                60, 99, 111, 100, 101, 32, 99, 108, 97, 115, 115, 61, 34, 99, 111, 100, 101, 34,
                62,
            ],
        ),
        Tag::CodeBlockClose => out.write(
            &[
                60, 47, 99, 111, 100, 101, 62, 60, 47, 100, 105, 118, 62,
            ],
        ),
        Tag::CodeSpanOpen => out.write(
            &[
                60, 115, 112, 97, 110, 32, 99, 108, 97, 115, 115, 61, 34, 99, 111, 100, 101, 34,
                62, 60, 99, 111, 100, 101, 32, 99, 108, 97, 115, 115, 61, 34, 99, 111, 100, 101,
                34, 62,
            ],
        ),
        Tag::CodeSpanClose => out.write(
            &[
                60, 47, 99, 111, 100, 101, 62, 60, 47, 115, 112, 97, 110, 62,
            ],
        ),
        Tag::IndentOpen => out.write(
            &[
                60, 100, 105, 118, 32, 99, 108, 97, 115, 115, 61, 34, 105, 110, 116, 101, 110, 100,
                34, 62,
            ],
        ),
        Tag::IndentClose => out.write(&[60, 47, 100, 105, 118, 62]),
        Tag::IOpen => out.write(&[60, 105, 62]),
        Tag::IClose => out.write(&[60, 47, 105, 62]),
        Tag::BOpen => out.write(&[60, 98, 62]),
        Tag::BClose => out.write(&[60, 47, 98, 62]),
        Tag::UOpen => out.write(&[60, 117, 62]),
        Tag::UClose => out.write(&[60, 47, 117, 62]),
        Tag::LiOpen => out.write(&[60, 108, 105, 62]),
        Tag::LiClose => out.write(&[60, 47, 108, 105, 62]),
        Tag::UlOpen => out.write(&[60, 117, 108, 62]),
        Tag::UlClose => out.write(&[60, 47, 117, 108, 62]),
        Tag::Hr => out.write(&[60, 104, 114, 62]),
        Tag::AnchorOpen => out.write(&[60, 97, 32, 104, 114, 101, 102, 61, 34]),
        Tag::AnchorClose => out.write(&[60, 47, 97, 62]),
        Tag::ImgOpen => out.write(&[60, 105, 109, 103, 32, 115, 114, 99, 61, 34]),
        Tag::ImgAlt => out.write(&[34, 32, 97, 108, 116, 61, 34]),
        Tag::AttrEnd => out.write(&[34, 62]),
        Tag::Lt => out.write(&[38, 108, 116, 59]),
        Tag::Gt => out.write(&[38, 103, 116, 59]),
        Tag::Space => out.write(&[37, 50, 48]),
    }
}

/// The digit that names a header level.
pub open spec fn level_digit(n: u8) -> u8 {
    (n + 48) as u8
}

/// The start tag of a header of level `n`.
pub open spec fn header_open(n: u8) -> Seq<u8> {
    seq![60u8, 104u8, level_digit(n), 62u8]
}

/// The end tag of a header of level `n`.
pub open spec fn header_close(n: u8) -> Seq<u8> {
    seq![60u8, 47u8, 104u8, level_digit(n), 62u8]
}

/// Appends the start tag of a header of level `n` to `out`.
pub fn put_header_open(out: &mut Vec<u8>, n: u8)
    requires
        1 <= n <= 6,
    ensures
        final(out)@ == old(out)@ + header_open(n),
{
    out.write(&[60, 104, n + 48, 62]);
}

/// Appends the end tag of a header of level `n` to `out`.
pub fn put_header_close(out: &mut Vec<u8>, n: u8)
    requires
        1 <= n <= 6,
    ensures
        final(out)@ == old(out)@ + header_close(n),
{
    out.write(&[60, 47, 104, n + 48, 62]);
}

} // verus!
