//! The navigation tree: which entries of the notes directory are shown, in
//! what order and how deep.

use crate::error::ServeError;
use crate::text::{
    chars_of, ends_with, has_suffix, le_text, lemma_text_le_total, lemma_text_le_transitive,
    push_char, text_le,
};
use vstd::prelude::*;
use vstd::string::*;

verus! {

/// Directories nested deeper than this below the root are not opened.
pub const MAX_DEPTH: usize = 3;

/// What a directory entry is.
pub enum Node {
    /// Anything that is not a directory: a regular file, a symbolic link.
    File,
    /// A directory, with what reading it gave.
    Directory(Listing),
    /// The entry's type could not be determined.
    Unknown,
}

/// The outcome of reading one directory.
pub enum Listing {
    /// The directory could not be read, or one of its entries could not:
    /// such an entry has no name, so nothing says whether it is hidden, and
    /// the listing as a whole counts as failed.
    Failed,
    /// Its entries, in the order in which they were read.
    Entries(Vec<Entry>),
}

/// One entry of a directory.
pub struct Entry {
    pub name: String,
    pub node: Node,
}

/// A shown item of the navigation tree, as a mathematical value.
pub enum ItemModel {
    /// A link to a note.
    Note { name: Seq<char>, path: Seq<char> },
    /// A folder with the items shown below it.
    Folder { name: Seq<char>, path: Seq<char>, children: Seq<ItemModel> },
}

/// A shown item of the navigation tree.
pub enum TreeItem {
    /// A link to a note.
    Note { name: String, path: String },
    /// A folder with the items shown below it.
    Folder { name: String, path: String, children: Vec<TreeItem> },
}

impl TreeItem {
    /// The item as a mathematical value.
    pub open spec fn model(self) -> ItemModel
        decreases self,
    {
        match self {
            TreeItem::Note { name, path } => ItemModel::Note { name: name@, path: path@ },
            TreeItem::Folder { name, path, children } => ItemModel::Folder {
                name: name@,
                path: path@,
                children: Seq::new(
                    children@.len(),
                    |i: int|
                        if 0 <= i < children@.len() {
                            children@[i].model()
                        } else {
                            arbitrary()
                        },
                ),
            },
        }
    }
}

/// The items of `items` as mathematical values.
pub open spec fn models(items: Seq<TreeItem>) -> Seq<ItemModel> {
    Seq::new(items.len(), |i: int| items[i].model())
}

/// Names that begin with `.` or `_` are hidden.
pub open spec fn is_hidden(name: Seq<char>) -> bool {
    name.len() > 0 && (name[0] == '.' || name[0] == '_')
}

/// Names that end in `.md` are notes.
pub open spec fn is_note_name(name: Seq<char>) -> bool {
    has_suffix(name, ".md"@)
}

/// The path of the entry `name` in the directory at `prefix`, relative to the
/// root; the root itself has the empty path.
pub open spec fn child_path(prefix: Seq<char>, name: Seq<char>) -> Seq<char> {
    if prefix.len() == 0 {
        name
    } else {
        prefix + seq!['/'] + name
    }
}

/// `order` with the index `k` put behind the last index whose name is not
/// greater than that of `k`.
pub open spec fn insert_by_name(order: Seq<usize>, entries: Seq<Entry>, k: usize) -> Seq<usize>
    decreases order.len(),
{
    if order.len() == 0 || text_le(entries[order.last() as int].name@, entries[k as int].name@) {
        order.push(k)
    } else {
        insert_by_name(order.drop_last(), entries, k).push(order.last())
    }
}

/// The indices of the first `n` entries, ordered by name; entries of equal
/// name keep their order.
pub open spec fn name_order(entries: Seq<Entry>, n: nat) -> Seq<usize>
    decreases n,
{
    if n == 0 {
        Seq::empty()
    } else {
        insert_by_name(name_order(entries, (n - 1) as nat), entries, (n - 1) as usize)
    }
}

/// What is shown for one entry of a directory `depth` levels below the root:
/// nothing for a hidden entry; a note, below the root level only; a folder,
/// at the root level always and below it when something is shown inside.
pub open spec fn item_of(e: Entry, prefix: Seq<char>, depth: nat) -> Option<ItemModel>
    decreases MAX_DEPTH - depth, 0nat, 0nat,
{
    let path = child_path(prefix, e.name@);
    if is_hidden(e.name@) {
        None
    } else {
        match e.node {
            Node::File => if depth > 0 && is_note_name(e.name@) {
                Some(ItemModel::Note { name: e.name@, path })
            } else {
                None
            },
            Node::Directory(inner) => {
                let children = if depth < MAX_DEPTH {
                    listing_items(inner, path, depth + 1)
                } else {
                    Seq::empty()
                };
                if depth < 1 || children.len() > 0 {
                    Some(ItemModel::Folder { name: e.name@, path, children })
                } else {
                    None
                }
            },
            _ => None,
        }
    }
}

/// What is shown for the entries at the indices `order`, in that order.
pub open spec fn ordered_items(
    entries: Seq<Entry>,
    order: Seq<usize>,
    prefix: Seq<char>,
    depth: nat,
) -> Seq<ItemModel>
    decreases MAX_DEPTH - depth, 1nat, order.len(),
{
    if order.len() == 0 {
        Seq::empty()
    } else {
        let before = ordered_items(entries, order.drop_last(), prefix, depth);
        match item_of(entries[order.last() as int], prefix, depth) {
            Some(item) => before.push(item),
            None => before,
        }
    }
}

/// What is shown for a directory `depth` levels below the root: its visible
/// entries by name.
pub open spec fn listing_items(l: Listing, prefix: Seq<char>, depth: nat) -> Seq<ItemModel>
    decreases MAX_DEPTH - depth, 2nat, 0nat,
{
    match l {
        Listing::Failed => Seq::empty(),
        Listing::Entries(v) => ordered_items(v@, name_order(v@, v@.len()), prefix, depth),
    }
}

/// Whether everything that the tree of a directory `depth` levels below the
/// root looks at could be read: the directory itself, the type of each of its
/// visible entries, and the visible directories in it down to the depth limit.
pub open spec fn listing_readable(l: Listing, depth: nat) -> bool
    decreases MAX_DEPTH - depth, 2nat, 0nat,
{
    match l {
        Listing::Failed => false,
        Listing::Entries(v) => entries_readable(v@, v@.len(), depth),
    }
}

/// Whether everything that the tree looks at in the first `n` entries could
/// be read.
pub open spec fn entries_readable(entries: Seq<Entry>, n: nat, depth: nat) -> bool
    decreases MAX_DEPTH - depth, 1nat, n,
{
    n == 0 || (entries_readable(entries, (n - 1) as nat, depth) && entry_readable(
        entries[n - 1],
        depth,
    ))
}

/// Whether everything that the tree looks at in one entry could be read.
pub open spec fn entry_readable(e: Entry, depth: nat) -> bool
    decreases MAX_DEPTH - depth, 0nat, 0nat,
{
    is_hidden(e.name@) || match e.node {
        Node::File => true,
        Node::Directory(inner) => depth >= MAX_DEPTH || listing_readable(inner, depth + 1),
        Node::Unknown => false,
    }
}

/// Among readable entries each one is readable.
pub proof fn lemma_entries_readable(entries: Seq<Entry>, n: nat, depth: nat, i: int)
    requires
        entries_readable(entries, n, depth),
        0 <= i < n,
    ensures
        entry_readable(entries[i], depth),
    decreases n,
{
    if i < n - 1 {
        lemma_entries_readable(entries, (n - 1) as nat, depth, i);
    }
}

/// The markup of one item.
pub open spec fn item_html(item: ItemModel) -> Seq<char>
    decreases item, 0nat,
{
    match item {
        ItemModel::Note { name, path } => "<li><a href=\"/"@ + path + "\">"@ + name
            + "</a></li>\n"@,
        ItemModel::Folder { name, path, children } =>
            "<li class=\"dir\"><span class=\"toggle\"></span><a href=\"/"@ + path + "/\">"@
            + name + "</a>"@ + "<ul>\n"@ + items_html(children) + "</ul>"@ + "</li>\n"@,
    }
}

/// The markup of a run of items.
pub open spec fn items_html(items: Seq<ItemModel>) -> Seq<char>
    decreases items, 1nat,
{
    if items.len() == 0 {
        Seq::empty()
    } else {
        items_html(items.drop_last()) + item_html(items.last())
    }
}

/// The navigation block around the items of the root.
pub open spec fn tree_html(items: Seq<ItemModel>) -> Seq<char> {
    "<nav class=\"file-tree\"><a href=\"/\">Notes</a>"@ + "<ul>\n"@ + items_html(items)
        + "</ul>"@ + "</nav>"@
}

/// Whether `name` is hidden.
pub fn hidden(name: &Vec<char>) -> (h: bool)
    ensures
        h == is_hidden(name@),
{
    name.len() > 0 && (name[0] == '.' || name[0] == '_')
}

/// The names of `entries` as characters.
pub(crate) fn names_of(entries: &Vec<Entry>) -> (names: Vec<Vec<char>>)
    ensures
        names.len() == entries.len(),
        forall|i: int| 0 <= i < names.len() ==> (#[trigger] names[i])@ == entries[i].name@,
{
    let mut names: Vec<Vec<char>> = Vec::new();
    let mut i: usize = 0;
    while i < entries.len()
        invariant
            i <= entries.len(),
            names.len() == i,
            forall|j: int| 0 <= j < i ==> (#[trigger] names[j])@ == entries[j].name@,
        decreases entries.len() - i,
    {
        names.push(chars_of(entries[i].name.as_str()));
        i += 1;
    }
    names
}

/// The indices of `entries` in the order of their names.
pub(crate) fn sort_order(entries: &Vec<Entry>, names: &Vec<Vec<char>>) -> (order: Vec<usize>)
    requires
        names.len() == entries.len(),
        forall|i: int| 0 <= i < names.len() ==> (#[trigger] names[i])@ == entries[i].name@,
    ensures
        order@ == name_order(entries@, entries@.len()),
        order.len() == entries.len(),
        forall|i: int| 0 <= i < order.len() ==> #[trigger] order[i] < entries.len(),
{
    let mut order: Vec<usize> = Vec::new();
    let mut k: usize = 0;
    while k < entries.len()
        invariant
            k <= entries.len(),
            names.len() == entries.len(),
            forall|i: int| 0 <= i < names.len() ==> (#[trigger] names[i])@ == entries[i].name@,
            order@ == name_order(entries@, k as nat),
            order.len() == k,
            forall|i: int| 0 <= i < order.len() ==> #[trigger] order[i] < k,
        decreases entries.len() - k,
    {
        let mut j: usize = order.len();
        assert(order@.take(j as int) == order@ && order@.skip(j as int) == Seq::<usize>::empty());
        while j > 0 && !le_text(&names[order[j - 1]], &names[k])
            invariant
                j <= order.len(),
                k < entries.len(),
                names.len() == entries.len(),
                forall|i: int| 0 <= i < names.len() ==> (#[trigger] names[i])@ == entries[i].name@,
                forall|i: int| 0 <= i < order.len() ==> #[trigger] order[i] < k,
                insert_by_name(order@, entries@, k) == insert_by_name(
                    order@.take(j as int),
                    entries@,
                    k,
                ) + order@.skip(j as int),
            decreases j,
        {
            proof {
                let head = order@.take(j as int);
                assert(head.last() == order@[j - 1]);
                assert(head.drop_last() == order@.take(j - 1));
                assert(insert_by_name(order@.take(j - 1), entries@, k).push(order@[j - 1])
                    + order@.skip(j as int) == insert_by_name(order@.take(j - 1), entries@, k)
                    + order@.skip(j - 1));
            }
            j -= 1;
        }
        proof {
            let head = order@.take(j as int);
            if j > 0 {
                assert(head.last() == order@[j - 1]);
            }
            assert(insert_by_name(head, entries@, k) == head.push(k));
            assert(head.push(k) + order@.skip(j as int) == order@.insert(j as int, k));
        }
        order.insert(j, k);
        k += 1;
    }
    order
}

/// Whether the tree opens the directory `name` that it finds `depth` levels
/// below the root: it opens what is visible, down to the depth limit. What
/// is in any other directory has no part in the tree.
pub fn looks_into(name: &str, depth: usize) -> (yes: bool)
    ensures
        yes == (!is_hidden(name@) && depth < MAX_DEPTH),
{
    let v = chars_of(name);
    !hidden(&v) && depth < MAX_DEPTH
}

/// Whether everything that the tree of `l` looks at could be read.
pub(crate) fn readable(l: &Listing, depth: usize) -> (ok: bool)
    requires
        depth <= MAX_DEPTH,
    ensures
        ok == listing_readable(*l, depth as nat),
    decreases MAX_DEPTH - depth,
{
    match l {
        Listing::Failed => false,
        Listing::Entries(v) => {
            let mut i: usize = 0;
            while i < v.len()
                invariant
                    i <= v.len(),
                    depth <= MAX_DEPTH,
                    *l == Listing::Entries(*v),
                    entries_readable(v@, i as nat, depth as nat),
                decreases v.len() - i,
            {
                let e = &v[i];
                let name = chars_of(e.name.as_str());
                let ok = if hidden(&name) {
                    true
                } else {
                    match &e.node {
                        Node::File => true,
                        Node::Directory(inner) => if depth >= MAX_DEPTH {
                            true
                        } else {
                            readable(inner, depth + 1)
                        },
                        Node::Unknown => false,
                    }
                };
                assert(ok == entry_readable(v@[i as int], depth as nat));
                if !ok {
                    proof {
                        if entries_readable(v@, v@.len(), depth as nat) {
                            lemma_entries_readable(v@, v@.len(), depth as nat, i as int);
                        }
                    }
                    return false;
                }
                i += 1;
            }
            true
        },
    }
}

/// The path of the entry `name` in the directory at `prefix`.
fn join_path(prefix: &str, name: &str) -> (path: String)
    ensures
        path@ == child_path(prefix@, name@),
{
    let mut path = String::new();
    if !prefix.is_empty() {
        path.append(prefix);
        push_char(&mut path, '/');
    }
    path.append(name);
    assert(path@ == child_path(prefix@, name@));
    path
}

/// Builds what is shown for one entry.
fn build_item(e: &Entry, prefix: &str, depth: usize) -> (item: Option<TreeItem>)
    requires
        depth <= MAX_DEPTH,
        entry_readable(*e, depth as nat),
    ensures
        match item {
            Some(t) => item_of(*e, prefix@, depth as nat) == Some(t.model()),
            None => item_of(*e, prefix@, depth as nat) is None,
        },
    decreases MAX_DEPTH - depth, 0nat,
{
    let name = chars_of(e.name.as_str());
    if hidden(&name) {
        return None;
    }
    match &e.node {
        Node::File => {
            if depth > 0 && ends_with(&name, ".md") {
                let path = join_path(prefix, e.name.as_str());
                Some(TreeItem::Note { name: e.name.clone(), path })
            } else {
                None
            }
        },
        Node::Directory(inner) => {
            let path = join_path(prefix, e.name.as_str());
            let children = if depth < MAX_DEPTH {
                build_listing(inner, path.as_str(), depth + 1)
            } else {
                Vec::new()
            };
            if depth < 1 || children.len() > 0 {
                let item = TreeItem::Folder { name: e.name.clone(), path, children };
                proof {
                    assert(item.model()->Folder_children =~= models(children@));
                }
                Some(item)
            } else {
                None
            }
        },
        Node::Unknown => None,
    }
}

/// Builds what is shown for a directory.
fn build_listing(l: &Listing, prefix: &str, depth: usize) -> (items: Vec<TreeItem>)
    requires
        depth <= MAX_DEPTH,
        listing_readable(*l, depth as nat),
    ensures
        models(items@) == listing_items(*l, prefix@, depth as nat),
    decreases MAX_DEPTH - depth, 1nat,
{
    let mut items: Vec<TreeItem> = Vec::new();
    match l {
        Listing::Failed => {},
        Listing::Entries(v) => {
            let names = names_of(v);
            let order = sort_order(v, &names);
            let mut k: usize = 0;
            assert(order@.take(0) == Seq::<usize>::empty());
            while k < order.len()
                invariant
                    k <= order.len(),
                    depth <= MAX_DEPTH,
                    listing_readable(*l, depth as nat),
                    *l == Listing::Entries(*v),
                    forall|i: int| 0 <= i < order.len() ==> #[trigger] order[i] < v.len(),
                    models(items@) == ordered_items(v@, order@.take(k as int), prefix@, depth as nat),
                decreases order.len() - k,
            {
                let e = &v[order[k]];
                proof {
                    let next = order@.take(k + 1);
                    assert(next.drop_last() == order@.take(k as int));
                    assert(next.last() == order@[k as int]);
                    assert(order[k as int] < v.len());
                    lemma_entries_readable(v@, v@.len(), depth as nat, order@[k as int] as int);
                }
                let ghost before = items@;
                match build_item(e, prefix, depth) {
                    Some(t) => {
                        items.push(t);
                        assert(models(items@) == models(before).push(t.model()));
                    },
                    None => {},
                }
                k += 1;
            }
            assert(order@.take(order.len() as int) == order@);
        },
    }
    items
}

/// Writes the markup of `items` to the end of `out`.
fn write_items(out: &mut String, items: &Vec<TreeItem>)
    ensures
        final(out)@ == old(out)@ + items_html(models(items@)),
    decreases items,
{
    let mut i: usize = 0;
    assert(models(items@).take(0) == Seq::<ItemModel>::empty());
    while i < items.len()
        invariant
            i <= items.len(),
            out@ == old(out)@ + items_html(models(items@).take(i as int)),
        decreases items.len() - i,
    {
        proof {
            let next = models(items@).take(i + 1);
            assert(next.drop_last() == models(items@).take(i as int));
            assert(next.last() == items@[i as int].model());
        }
        let ghost before = out@;
        match &items[i] {
            TreeItem::Note { name, path } => {
                out.append("<li><a href=\"/");
                out.append(path.as_str());
                out.append("\">");
                out.append(name.as_str());
                out.append("</a></li>\n");
                assert(out@ =~= before + item_html(items@[i as int].model()));
            },
            TreeItem::Folder { name, path, children } => {
                out.append("<li class=\"dir\"><span class=\"toggle\"></span><a href=\"/");
                out.append(path.as_str());
                out.append("/\">");
                out.append(name.as_str());
                out.append("</a>");
                out.append("<ul>\n");
                proof {
                    assert(items@[i as int].model()->Folder_children =~= models(children@));
                }
                write_items(out, children);
                out.append("</ul>");
                out.append("</li>\n");
                assert(out@ =~= before + item_html(items@[i as int].model()));
            },
        }
        assert(out@ =~= old(out)@ + items_html(models(items@).take(i + 1)));
        i += 1;
    }
    assert(models(items@).take(items.len() as int) == models(items@));
}

/// Selects and orders what the navigation tree shows of the notes directory
/// `root`: visible entries by name, notes below the root level only, folders
/// down to the depth limit.
///
/// Fails, with nothing built, when a directory or an entry that the tree
/// looks at could not be read.
pub fn build_tree(root: &Listing) -> (res: Result<Vec<TreeItem>, ServeError>)
    ensures
        match res {
            Ok(items) => listing_readable(*root, 0) && models(items@) == listing_items(
                *root,
                Seq::empty(),
                0,
            ),
            Err(e) => !listing_readable(*root, 0) && e == ServeError::Internal,
        },
{
    if !readable(root, 0) {
        return Err(ServeError::Internal);
    }
    let empty = String::new();
    Ok(build_listing(root, empty.as_str(), 0))
}

/// The markup of the navigation tree with the items `items` at its root.
pub fn render_tree(items: &Vec<TreeItem>) -> (html: String)
    ensures
        html@ == tree_html(models(items@)),
{
    let mut html = String::new();
    html.append("<nav class=\"file-tree\"><a href=\"/\">Notes</a>");
    html.append("<ul>\n");
    write_items(&mut html, items);
    html.append("</ul>");
    html.append("</nav>");
    html
}

/// The navigation tree of the notes directory `root` as markup.
pub fn render_file_tree(root: &Listing) -> (res: Result<String, ServeError>)
    ensures
        match res {
            Ok(html) => listing_readable(*root, 0) && html@ == tree_html(
                listing_items(*root, Seq::empty(), 0),
            ),
            Err(e) => !listing_readable(*root, 0) && e == ServeError::Internal,
        },
{
    match build_tree(root) {
        Ok(items) => Ok(render_tree(&items)),
        Err(e) => Err(e),
    }
}

/// The entries at the indices `order` stand in the order of their names.
pub open spec fn in_name_order(entries: Seq<Entry>, order: Seq<usize>) -> bool {
    forall|a: int, b: int|
        0 <= a < b < order.len() ==> text_le(
            entries[#[trigger] order[a] as int].name@,
            entries[#[trigger] order[b] as int].name@,
        )
}

/// Putting an index into an order by name keeps the order, adds that index
/// and nothing else.
pub proof fn lemma_insert_by_name(order: Seq<usize>, entries: Seq<Entry>, k: usize)
    requires
        in_name_order(entries, order),
    ensures
        in_name_order(entries, insert_by_name(order, entries, k)),
        insert_by_name(order, entries, k).len() == order.len() + 1,
        forall|x: usize| #[trigger]
            insert_by_name(order, entries, k).contains(x) <==> (order.contains(x) || x == k),
    decreases order.len(),
{
    let out = insert_by_name(order, entries, k);
    let name = entries[k as int].name@;
    if order.len() == 0 {
        assert forall|x: usize| out.contains(x) <==> (order.contains(x) || x == k) by {
            if x == k {
                assert(out[0] == k);
            }
        }
    } else if text_le(entries[order.last() as int].name@, name) {
        assert forall|a: int, b: int| 0 <= a < b < out.len() implies text_le(
            entries[#[trigger] out[a] as int].name@,
            entries[#[trigger] out[b] as int].name@,
        ) by {
            if b == out.len() - 1 {
                if a < order.len() - 1 {
                    assert(out[a] == order[a]);
                    assert(text_le(
                        entries[order[a] as int].name@,
                        entries[order[order.len() - 1] as int].name@,
                    ));
                    lemma_text_le_transitive(
                        entries[order[a] as int].name@,
                        entries[order.last() as int].name@,
                        name,
                    );
                }
            } else {
                assert(out[a] == order[a] && out[b] == order[b]);
            }
        }
        assert forall|x: usize| out.contains(x) <==> (order.contains(x) || x == k) by {
            if order.contains(x) {
                let i = choose|i: int| 0 <= i < order.len() && order[i] == x;
                assert(out[i] == x);
            }
            if x == k {
                assert(out[out.len() - 1] == k);
            }
            if out.contains(x) {
                let i = choose|i: int| 0 <= i < out.len() && out[i] == x;
                if i < order.len() {
                    assert(order[i] == x);
                }
            }
        }
    } else {
        let front = order.drop_last();
        let last = order.last();
        assert forall|a: int, b: int| 0 <= a < b < front.len() implies text_le(
            entries[#[trigger] front[a] as int].name@,
            entries[#[trigger] front[b] as int].name@,
        ) by {
            assert(front[a] == order[a] && front[b] == order[b]);
        }
        lemma_insert_by_name(front, entries, k);
        let mid = insert_by_name(front, entries, k);
        assert(out == mid.push(last));
        lemma_text_le_total(entries[last as int].name@, name);
        assert forall|a: int, b: int| 0 <= a < b < out.len() implies text_le(
            entries[#[trigger] out[a] as int].name@,
            entries[#[trigger] out[b] as int].name@,
        ) by {
            if b == out.len() - 1 {
                assert(out[a] == mid[a]);
                assert(mid.contains(mid[a]));
                if mid[a] != k {
                    assert(front.contains(mid[a]));
                    let i = choose|i: int| 0 <= i < front.len() && front[i] == mid[a];
                    assert(order[i] == mid[a]);
                    assert(text_le(
                        entries[order[i] as int].name@,
                        entries[order[order.len() - 1] as int].name@,
                    ));
                }
            } else {
                assert(out[a] == mid[a] && out[b] == mid[b]);
            }
        }
        assert forall|x: usize| out.contains(x) <==> (order.contains(x) || x == k) by {
            if out.contains(x) {
                let i = choose|i: int| 0 <= i < out.len() && out[i] == x;
                if i < mid.len() {
                    assert(mid[i] == x);
                    assert(mid.contains(x));
                    if x != k {
                        assert(front.contains(x));
                        let j = choose|j: int| 0 <= j < front.len() && front[j] == x;
                        assert(order[j] == x);
                    }
                } else {
                    assert(order[order.len() - 1] == x);
                }
            }
            if order.contains(x) {
                let i = choose|i: int| 0 <= i < order.len() && order[i] == x;
                if i < front.len() {
                    assert(front[i] == x);
                    assert(front.contains(x));
                    assert(mid.contains(x));
                    let j = choose|j: int| 0 <= j < mid.len() && mid[j] == x;
                    assert(out[j] == x);
                } else {
                    assert(out[out.len() - 1] == x);
                }
            }
            if x == k {
                assert(mid.contains(k));
                let j = choose|j: int| 0 <= j < mid.len() && mid[j] == k;
                assert(out[j] == x);
            }
        }
    }
}

/// The order in which a directory is shown is sorted by name and holds each
/// entry once: every index below `n`, and no other.
pub proof fn lemma_name_order(entries: Seq<Entry>, n: nat)
    requires
        n <= usize::MAX,
    ensures
        in_name_order(entries, name_order(entries, n)),
        name_order(entries, n).len() == n,
        forall|x: usize| #[trigger] name_order(entries, n).contains(x) <==> x < n,
    decreases n,
{
    if n > 0 {
        let before = name_order(entries, (n - 1) as nat);
        let k = (n - 1) as usize;
        lemma_name_order(entries, (n - 1) as nat);
        lemma_insert_by_name(before, entries, k);
        assert forall|x: usize| name_order(entries, n).contains(x) <==> x < n by {
            assert(insert_by_name(before, entries, k).contains(x) <==> (before.contains(x) || x
                == k));
            assert(before.contains(x) <==> x < n - 1);
        }
    } else {
        assert forall|x: usize| !name_order(entries, n).contains(x) by {}
    }
}

/// No item, at any depth, has a hidden name.
pub open spec fn none_hidden(items: Seq<ItemModel>) -> bool
    decreases items, 1nat,
{
    items.len() == 0 || (none_hidden(items.drop_last()) && item_not_hidden(items.last()))
}

/// Neither the item nor anything below it has a hidden name.
pub open spec fn item_not_hidden(item: ItemModel) -> bool
    decreases item, 0nat,
{
    match item {
        ItemModel::Note { name, path } => !is_hidden(name),
        ItemModel::Folder { name, path, children } => !is_hidden(name) && none_hidden(children),
    }
}

/// How many levels of items there are: none for no items, one for notes and
/// empty folders.
pub open spec fn levels(items: Seq<ItemModel>) -> nat
    decreases items, 1nat,
{
    if items.len() == 0 {
        0
    } else {
        let before = levels(items.drop_last());
        let last = item_levels(items.last());
        if before >= last {
            before
        } else {
            last
        }
    }
}

/// How many levels the item and what is below it take.
pub open spec fn item_levels(item: ItemModel) -> nat
    decreases item, 0nat,
{
    match item {
        ItemModel::Note { name, path } => 1,
        ItemModel::Folder { name, path, children } => 1 + levels(children),
    }
}

/// Whether there is a note among the items or below one of them.
pub open spec fn shows_note(items: Seq<ItemModel>) -> bool
    decreases items, 1nat,
{
    items.len() > 0 && (shows_note(items.drop_last()) || item_shows_note(items.last()))
}

/// Whether the item is a note or has one below it.
pub open spec fn item_shows_note(item: ItemModel) -> bool
    decreases item, 0nat,
{
    match item {
        ItemModel::Note { name, path } => true,
        ItemModel::Folder { name, path, children } => shows_note(children),
    }
}

/// What holds of the item shown for an entry: see `lemma_tree_shape`.
pub proof fn lemma_item_shape(e: Entry, prefix: Seq<char>, depth: nat)
    requires
        depth <= MAX_DEPTH,
        item_of(e, prefix, depth) is Some,
    ensures
        item_not_hidden(item_of(e, prefix, depth)->0),
        item_levels(item_of(e, prefix, depth)->0) <= MAX_DEPTH + 1 - depth,
        depth >= 1 ==> item_shows_note(item_of(e, prefix, depth)->0),
    decreases MAX_DEPTH - depth, 0nat, 0nat,
{
    match e.node {
        Node::Directory(inner) => {
            if depth < MAX_DEPTH {
                lemma_tree_shape(inner, child_path(prefix, e.name@), depth + 1);
            }
        },
        _ => {},
    }
}

/// What holds of the items shown for some entries: see `lemma_tree_shape`.
pub proof fn lemma_items_shape(
    entries: Seq<Entry>,
    order: Seq<usize>,
    prefix: Seq<char>,
    depth: nat,
)
    requires
        depth <= MAX_DEPTH,
    ensures
        none_hidden(ordered_items(entries, order, prefix, depth)),
        levels(ordered_items(entries, order, prefix, depth)) <= MAX_DEPTH + 1 - depth,
        depth >= 1 && ordered_items(entries, order, prefix, depth).len() > 0 ==> shows_note(
            ordered_items(entries, order, prefix, depth),
        ),
    decreases MAX_DEPTH - depth, 1nat, order.len(),
{
    if order.len() > 0 {
        lemma_items_shape(entries, order.drop_last(), prefix, depth);
        let before = ordered_items(entries, order.drop_last(), prefix, depth);
        let e = entries[order.last() as int];
        if item_of(e, prefix, depth) is Some {
            lemma_item_shape(e, prefix, depth);
            let item = item_of(e, prefix, depth)->0;
            assert(before.push(item).drop_last() == before);
            assert(before.push(item).last() == item);
        }
    }
}

/// The shape of the navigation tree, whatever is on disk:
///
/// - no item, at any depth, has a name that starts with `.` or `_`;
/// - below the root level a directory takes at most as many levels as the
///   depth limit leaves, so the whole tree has at most `MAX_DEPTH + 1`;
/// - below the root level whatever is shown is a note or leads to one: a
///   folder without a visible note in reach is left out.
pub proof fn lemma_tree_shape(l: Listing, prefix: Seq<char>, depth: nat)
    requires
        depth <= MAX_DEPTH,
    ensures
        none_hidden(listing_items(l, prefix, depth)),
        levels(listing_items(l, prefix, depth)) <= MAX_DEPTH + 1 - depth,
        depth >= 1 && listing_items(l, prefix, depth).len() > 0 ==> shows_note(
            listing_items(l, prefix, depth),
        ),
    decreases MAX_DEPTH - depth, 2nat, 0nat,
{
    match l {
        Listing::Failed => {},
        Listing::Entries(v) => {
            lemma_items_shape(v@, name_order(v@, v@.len()), prefix, depth);
        },
    }
}

} // verus!
