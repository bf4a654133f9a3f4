//! The page of a directory that has no note of its own: its visible entries,
//! one level deep.

use crate::error::ServeError;
use crate::text::{chars_of, ends_with};
use crate::tree::{
    hidden, is_hidden, is_note_name, lemma_entries_readable, listing_readable, name_order,
    names_of, readable, sort_order, Entry, Listing, Node, MAX_DEPTH,
};
use vstd::prelude::*;
use vstd::string::*;

verus! {

/// The row of one entry: a link for a visible directory or note, nothing for
/// anything else.
pub open spec fn row_html(e: Entry) -> Seq<char> {
    if is_hidden(e.name@) {
        Seq::empty()
    } else {
        match e.node {
            Node::Directory(_) => "  <li><a href=\""@ + e.name@ + "/\">"@ + e.name@
                + "/</a></li>\n"@,
            Node::File => if is_note_name(e.name@) {
                "  <li><a href=\""@ + e.name@ + "\">"@ + e.name@ + "</a></li>\n"@
            } else {
                Seq::empty()
            },
            Node::Unknown => Seq::empty(),
        }
    }
}

/// The rows of the entries at the indices `order`, in that order.
pub open spec fn rows_html(entries: Seq<Entry>, order: Seq<usize>) -> Seq<char>
    decreases order.len(),
{
    if order.len() == 0 {
        Seq::empty()
    } else {
        rows_html(entries, order.drop_last()) + row_html(entries[order.last() as int])
    }
}

/// Whether the listing of a directory could be read: the directory itself
/// and the type of each of its visible entries.
pub open spec fn directory_readable(l: Listing) -> bool {
    listing_readable(l, MAX_DEPTH as nat)
}

/// The listing of a directory: a link to its parent unless it is the root,
/// then its visible entries by name.
pub open spec fn directory_html(l: Listing, is_root: bool) -> Seq<char> {
    "<ul class=\"file-listing\">\n"@ + (if is_root {
        Seq::empty()
    } else {
        "  <li><a href=\"..\">..</a></li>\n"@
    }) + (match l {
        Listing::Entries(v) => rows_html(v@, name_order(v@, v@.len())),
        Listing::Failed => Seq::empty(),
    }) + "</ul>"@
}

/// Renders the listing of a directory, `is_root` saying whether it is the
/// notes root. Fails when the directory, or the type of a visible entry,
/// could not be read.
pub fn render_directory(l: &Listing, is_root: bool) -> (res: Result<String, ServeError>)
    ensures
        match res {
            Ok(html) => directory_readable(*l) && html@ == directory_html(*l, is_root),
            Err(e) => !directory_readable(*l) && e == ServeError::Internal,
        },
{
    if !readable(l, MAX_DEPTH) {
        return Err(ServeError::Internal);
    }
    let mut html = String::new();
    html.append("<ul class=\"file-listing\">\n");
    if !is_root {
        html.append("  <li><a href=\"..\">..</a></li>\n");
    }
    let ghost head = html@;
    match l {
        Listing::Failed => {},
        Listing::Entries(v) => {
            let names = names_of(v);
            let order = sort_order(v, &names);
            let mut k: usize = 0;
            assert(order@.take(0) == Seq::<usize>::empty());
            while k < order.len()
                invariant
                    k <= order.len(),
                    names.len() == v.len(),
                    forall|i: int| 0 <= i < names.len() ==> (#[trigger] names[i])@ == v[i].name@,
                    forall|i: int| 0 <= i < order.len() ==> #[trigger] order[i] < v.len(),
                    html@ == head + rows_html(v@, order@.take(k as int)),
                decreases order.len() - k,
            {
                let at = order[k];
                let e = &v[at];
                proof {
                    let next = order@.take(k + 1);
                    assert(next.drop_last() == order@.take(k as int));
                    assert(next.last() == order@[k as int]);
                }
                let ghost before = html@;
                if !hidden(&names[at]) {
                    match &e.node {
                        Node::Directory(_) => {
                            html.append("  <li><a href=\"");
                            html.append(e.name.as_str());
                            html.append("/\">");
                            html.append(e.name.as_str());
                            html.append("/</a></li>\n");
                        },
                        Node::File => {
                            if ends_with(&names[at], ".md") {
                                html.append("  <li><a href=\"");
                                html.append(e.name.as_str());
                                html.append("\">");
                                html.append(e.name.as_str());
                                html.append("</a></li>\n");
                            }
                        },
                        Node::Unknown => {},
                    }
                }
                assert(html@ =~= before + row_html(v@[at as int]));
                assert(html@ =~= head + rows_html(v@, order@.take(k + 1)));
                k += 1;
            }
            assert(order@.take(order.len() as int) == order@);
        },
    }
    html.append("</ul>");
    assert(html@ =~= directory_html(*l, is_root));
    Ok(html)
}

} // verus!
