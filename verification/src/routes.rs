//! The small decisions of the routes: the content types of pages and fonts,
//! and which font a name stands for.

use crate::text::same_text;
use vstd::prelude::*;
use vstd::string::*;

verus! {

/// The content type of every page and fragment.
pub const PAGE_TYPE: &'static str = "text/html; charset=utf-8";

/// The content type of the fonts.
pub const FONT_TYPE: &'static str = "font/ttf";

/// The fonts that the server carries.
#[derive(Clone, Copy, Debug, PartialEq, Eq, Structural)]
pub enum Font {
    Regular,
    Italic,
    Bold,
    BoldItalic,
}

/// The font that is served under `name`: one of four exact names, and
/// nothing under any other.
pub open spec fn font_of(name: Seq<char>) -> Option<Font> {
    if name == "UbuntuMono-Regular.ttf"@ {
        Some(Font::Regular)
    } else if name == "UbuntuMono-Italic.ttf"@ {
        Some(Font::Italic)
    } else if name == "UbuntuMono-Bold.ttf"@ {
        Some(Font::Bold)
    } else if name == "UbuntuMono-BoldItalic.ttf"@ {
        Some(Font::BoldItalic)
    } else {
        None
    }
}

/// The font that is served under `name`, if there is one.
pub fn font_named(name: &str) -> (font: Option<Font>)
    ensures
        font == font_of(name@),
{
    if same_text(name, "UbuntuMono-Regular.ttf") {
        Some(Font::Regular)
    } else if same_text(name, "UbuntuMono-Italic.ttf") {
        Some(Font::Italic)
    } else if same_text(name, "UbuntuMono-Bold.ttf") {
        Some(Font::Bold)
    } else if same_text(name, "UbuntuMono-BoldItalic.ttf") {
        Some(Font::BoldItalic)
    } else {
        None
    }
}

} // verus!
