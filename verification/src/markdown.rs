//! Notes as markup: wiki links expanded, then markdown rendered.

use crate::wiki::{expanded, process_wiki_links};
use vstd::prelude::*;

verus! {

/// Which additions to plain markdown the renderer understands.
#[derive(Clone, Copy, Debug, PartialEq, Eq, Structural)]
pub struct MarkdownOptions {
    /// `~~text~~` is struck through.
    pub strikethrough: bool,
    /// Tables.
    pub table: bool,
    /// Bare addresses become links.
    pub autolink: bool,
    /// List items that start with `[ ]` or `[x]` get a checkbox.
    pub tasklist: bool,
    /// Footnotes.
    pub footnotes: bool,
    /// Markup written in the note passes through as it is.
    pub raw_html: bool,
}

/// What the notes are rendered with: every addition, and markup passed
/// through, since the notes are the user's own.
pub open spec fn note_options() -> MarkdownOptions {
    MarkdownOptions {
        strikethrough: true,
        table: true,
        autolink: true,
        tasklist: true,
        footnotes: true,
        raw_html: true,
    }
}

/// The markup that the markdown renderer makes of `text` with `options`.
pub uninterp spec fn markdown_html(text: Seq<char>, options: MarkdownOptions) -> Seq<char>;

/// Trusted: hands `text` to `comrak::markdown_to_html`, with `options` copied
/// field by field onto comrak's defaults. Claimed of it: that the markup
/// depends on the text and these options alone.
#[verifier::external_body]
fn to_html(text: &str, options: &MarkdownOptions) -> (html: String)
    ensures
        html@ == markdown_html(text@, *options),
{
    let mut o = comrak::Options::default();
    o.extension.strikethrough = options.strikethrough;
    o.extension.table = options.table;
    o.extension.autolink = options.autolink;
    o.extension.tasklist = options.tasklist;
    o.extension.footnotes = options.footnotes;
    o.render.unsafe_ = options.raw_html;
    comrak::markdown_to_html(text, &o)
}

/// The markup of a note with the text `content`.
pub open spec fn rendered(content: Seq<char>) -> Seq<char> {
    markdown_html(expanded(content), note_options())
}

/// Rendering is a function of the text: two notes with the same text have
/// the same markup, and so has one note rendered twice.
pub proof fn lemma_same_text_same_markup(a: &str, b: &str)
    requires
        a@ == b@,
    ensures
        rendered(a@) == rendered(b@),
{
}

/// Renders the note `content`: its wiki links become markdown links, and
/// the markdown becomes markup.
///
/// The markup is a function of `content`: rendering the same text again
/// gives the same markup.
pub fn render_markdown(content: &str) -> (html: String)
    ensures
        html@ == rendered(content@),
{
    let options = MarkdownOptions {
        strikethrough: true,
        table: true,
        autolink: true,
        tasklist: true,
        footnotes: true,
        raw_html: true,
    };
    let processed = process_wiki_links(content);
    to_html(processed.as_str(), &options)
}

} // verus!
