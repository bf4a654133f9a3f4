//! The page around a piece of content: the whole document for a fresh visit,
//! title and content alone for a client that has the document already.

use crate::escape::{escaped, html_escape};
use vstd::prelude::*;
use vstd::string::*;

verus! {

/// The document up to the title.
pub const PAGE_OPEN: &'static str =
    "<!DOCTYPE html>\n<html lang=\"en\">\n<head>\n    <meta charset=\"UTF-8\">\n    <meta name=\"viewport\" content=\"width=device-width, initial-scale=1.0\">\n    <title>";

/// From the title to the style sheet.
pub const PAGE_STYLE: &'static str =
    " - para</title>\n    <style>";

/// From the style sheet to the first script.
pub const PAGE_HTMX: &'static str =
    "</style>\n    <script>";

/// Between the first and the second script.
pub const PAGE_MERMAID: &'static str =
    "</script>\n    <script>";

/// From the second script to the value of the search field.
pub const PAGE_SEARCH: &'static str =
    "</script>\n    <script>\n        (function() {\n            var w = localStorage.getItem('para-sidebar-width');\n            if (w) document.documentElement.style.setProperty('--sidebar-width', w + 'px');\n        })();\n    </script>\n</head>\n<body>\n    <nav class=\"navbar\">\n        <form class=\"search-form\" action=\"/search\" method=\"get\" hx-get=\"/search\" hx-target=\"main\" hx-push-url=\"true\">\n            <input type=\"text\" name=\"q\" placeholder=\"Search notes...\" value=\"";

/// From the search field to the navigation tree.
pub const PAGE_SIDEBAR: &'static str =
    "\" />\n            <button type=\"submit\">Search</button>\n        </form>\n    </nav>\n    <div class=\"content-wrapper\">\n        <div class=\"sidebar\" hx-boost=\"true\" hx-target=\"main\" hx-push-url=\"true\">\n            ";

/// From the navigation tree to the content.
pub const PAGE_MAIN: &'static str =
    "\n            <script>\n                (function() {\n                    var expanded = JSON.parse(localStorage.getItem('para-expanded-dirs') || '[]');\n                    document.querySelectorAll('.file-tree li.dir').forEach(function(li) {\n                        var link = li.querySelector(':scope > a');\n                        var path = link ? link.getAttribute('href') : null;\n                        if (path && expanded.indexOf(path) !== -1) {\n                            li.classList.add('expanded');\n                        }\n                    });\n                })();\n            </script>\n            <div class=\"resize-handle\"></div>\n        </div>\n        <main hx-boost=\"true\" hx-target=\"main\" hx-push-url=\"true\">\n            ";

/// From the content to the last script.
pub const PAGE_SCRIPT: &'static str =
    "\n        </main>\n    </div>\n    <script>";

/// The end of the document.
pub const PAGE_CLOSE: &'static str =
    "</script>\n</body>\n</html>";

/// The style sheet and the scripts that the document carries with it.
pub struct Assets {
    /// The style sheet.
    pub style: String,
    /// The script that loads content in place.
    pub htmx: String,
    /// The script that draws diagrams.
    pub mermaid: String,
    /// The page's own script.
    pub script: String,
}

/// The title line of every page.
pub open spec fn title_text(title: Seq<char>) -> Seq<char> {
    title + " - para"@
}

/// The whole document: `content` under `title`, beside the navigation tree
/// `file_tree`, with `query`, escaped, in the search field.
pub open spec fn document(
    title: Seq<char>,
    content: Seq<char>,
    file_tree: Seq<char>,
    query: Seq<char>,
    assets: Assets,
) -> Seq<char> {
    PAGE_OPEN@ + title + PAGE_STYLE@ + assets.style@ + PAGE_HTMX@ + assets.htmx@ + PAGE_MERMAID@
        + assets.mermaid@ + PAGE_SEARCH@ + escaped(query) + PAGE_SIDEBAR@ + file_tree + PAGE_MAIN@
        + content + PAGE_SCRIPT@ + assets.script@ + PAGE_CLOSE@
}

/// What a client that has the document already is sent: the new title and
/// the content.
pub open spec fn fragment(title: Seq<char>, content: Seq<char>) -> Seq<char> {
    "<title>"@ + title + " - para</title>"@ + content
}

/// The body of the answer: the fragment for a partial request, the whole
/// document otherwise.
pub open spec fn response_body(
    title: Seq<char>,
    content: Seq<char>,
    file_tree: Seq<char>,
    query: Seq<char>,
    partial: bool,
    assets: Assets,
) -> Seq<char> {
    if partial {
        fragment(title, content)
    } else {
        document(title, content, file_tree, query, assets)
    }
}

/// Puts `content` into the whole document.
pub fn wrap_html(
    title: &str,
    content: &str,
    file_tree: &str,
    search_query: &str,
    assets: &Assets,
) -> (html: String)
    ensures
        html@ == document(title@, content@, file_tree@, search_query@, *assets),
{
    let query = html_escape(search_query);
    let mut html = String::new();
    html.append(PAGE_OPEN);
    html.append(title);
    html.append(PAGE_STYLE);
    html.append(assets.style.as_str());
    html.append(PAGE_HTMX);
    html.append(assets.htmx.as_str());
    html.append(PAGE_MERMAID);
    html.append(assets.mermaid.as_str());
    html.append(PAGE_SEARCH);
    html.append(query.as_str());
    html.append(PAGE_SIDEBAR);
    html.append(file_tree);
    html.append(PAGE_MAIN);
    html.append(content);
    html.append(PAGE_SCRIPT);
    html.append(assets.script.as_str());
    html.append(PAGE_CLOSE);
    assert(html@ =~= document(title@, content@, file_tree@, search_query@, *assets));
    html
}

/// The body of the answer for `content` under `title`: title and content
/// alone when the request is `partial`, the whole document otherwise.
pub fn build_response(
    title: &str,
    content: &str,
    file_tree: &str,
    query: &str,
    partial: bool,
    assets: &Assets,
) -> (html: String)
    ensures
        html@ == response_body(title@, content@, file_tree@, query@, partial, *assets),
{
    if partial {
        let mut html = String::new();
        html.append("<title>");
        html.append(title);
        html.append(" - para</title>");
        html.append(content);
        html
    } else {
        wrap_html(title, content, file_tree, query, assets)
    }
}

} // verus!
