use para::error::ServeError;
use para::listing::render_directory;
use para::tree::{build_tree, render_file_tree, render_tree, Entry, Listing, Node, TreeItem};

fn file(name: &str) -> Entry {
    Entry { name: name.to_string(), node: Node::File }
}

fn dir(name: &str, entries: Vec<Entry>) -> Entry {
    Entry { name: name.to_string(), node: Node::Directory(Listing::Entries(entries)) }
}

fn names(items: &Vec<TreeItem>) -> Vec<String> {
    let mut out = Vec::new();
    for item in items {
        match item {
            TreeItem::Note { name, .. } => out.push(name.clone()),
            TreeItem::Folder { name, children, .. } => {
                out.push(name.clone());
                out.extend(names(children));
            }
        }
    }
    out
}

#[test]
fn tree_of_an_empty_root() {
    let root = Listing::Entries(vec![]);
    assert_eq!(
        render_file_tree(&root).unwrap(),
        "<nav class=\"file-tree\"><a href=\"/\">Notes</a><ul>\n</ul></nav>"
    );
}

#[test]
fn tree_shows_no_notes_at_the_root_level() {
    let root = Listing::Entries(vec![file("a.md"), file("b.txt")]);
    assert_eq!(
        render_file_tree(&root).unwrap(),
        "<nav class=\"file-tree\"><a href=\"/\">Notes</a><ul>\n</ul></nav>"
    );
}

#[test]
fn tree_renders_folders_and_notes_in_name_order() {
    let root = Listing::Entries(vec![
        dir("b", vec![file("z.md"), file("a.md"), file("pic.png")]),
        dir("a", vec![]),
    ]);
    assert_eq!(
        render_file_tree(&root).unwrap(),
        "<nav class=\"file-tree\"><a href=\"/\">Notes</a><ul>\n\
<li class=\"dir\"><span class=\"toggle\"></span><a href=\"/a/\">a</a><ul>\n</ul></li>\n\
<li class=\"dir\"><span class=\"toggle\"></span><a href=\"/b/\">b</a><ul>\n\
<li><a href=\"/b/a.md\">a.md</a></li>\n\
<li><a href=\"/b/z.md\">z.md</a></li>\n\
</ul></li>\n\
</ul></nav>"
    );
}

#[test]
fn tree_hides_dot_and_underscore_names_at_every_depth() {
    let root = Listing::Entries(vec![
        dir(".git", vec![file("x.md")]),
        dir("_drafts", vec![file("y.md")]),
        dir(
            "a",
            vec![
                file(".hidden.md"),
                file("_private.md"),
                file("seen.md"),
                dir("b", vec![file("_no.md"), dir(".c", vec![file("deep.md")]), file("yes.md")]),
                dir("_skip", vec![file("n.md")]),
            ],
        ),
    ]);
    let items = build_tree(&root).unwrap();
    let shown = names(&items);
    assert_eq!(shown, vec!["a", "b", "yes.md", "seen.md"]);
    for name in shown {
        assert!(!name.starts_with('.') && !name.starts_with('_'));
    }
    let html = render_tree(&items);
    assert!(!html.contains("hidden") && !html.contains("_") && !html.contains("/."));
}

#[test]
fn tree_drops_folders_without_notes_below_the_root_level() {
    let root = Listing::Entries(vec![dir(
        "top",
        vec![dir("empty", vec![]), dir("pics", vec![file("a.png")]), dir("full", vec![file("n.md")])],
    )]);
    let items = build_tree(&root).unwrap();
    assert_eq!(names(&items), vec!["top", "full", "n.md"]);
}

#[test]
fn tree_keeps_empty_folders_at_the_root_level() {
    let root = Listing::Entries(vec![dir("empty", vec![]), dir("pics", vec![file("a.png")])]);
    assert_eq!(names(&build_tree(&root).unwrap()), vec!["empty", "pics"]);
}

#[test]
fn tree_stops_at_the_depth_limit() {
    // notes at depth 1, 2 and 3 are shown; the directory at depth 3 is not opened
    let root = Listing::Entries(vec![dir(
        "d0",
        vec![
            file("n1.md"),
            dir(
                "d1",
                vec![file("n2.md"), dir("d2", vec![file("n3.md"), dir("d3", vec![file("n4.md")])])],
            ),
        ],
    )]);
    let items = build_tree(&root).unwrap();
    assert_eq!(names(&items), vec!["d0", "d1", "d2", "n3.md", "n2.md", "n1.md"]);
    let html = render_tree(&items);
    assert!(html.contains("<a href=\"/d0/d1/d2/n3.md\">n3.md</a>"));
    assert!(!html.contains("n4.md") && !html.contains("d3"));
}

#[test]
fn tree_does_not_look_below_the_depth_limit() {
    let unread = Entry { name: "d3".to_string(), node: Node::Directory(Listing::Failed) };
    let root = Listing::Entries(vec![dir("d0", vec![dir("d1", vec![dir("d2", vec![unread, file("n.md")])])])]);
    assert!(render_file_tree(&root).is_ok());
}

#[test]
fn tree_fails_when_a_directory_cannot_be_read() {
    assert_eq!(render_file_tree(&Listing::Failed), Err(ServeError::Internal));
    let broken = Entry { name: "b".to_string(), node: Node::Directory(Listing::Failed) };
    let root = Listing::Entries(vec![dir("a", vec![file("n.md")]), broken]);
    assert_eq!(render_file_tree(&root), Err(ServeError::Internal));
    assert!(build_tree(&root).is_err());
}

#[test]
fn tree_fails_when_the_type_of_a_visible_entry_is_unknown() {
    let root = Listing::Entries(vec![Entry { name: "x".to_string(), node: Node::Unknown }]);
    assert_eq!(render_file_tree(&root), Err(ServeError::Internal));
}

#[test]
fn tree_ignores_what_is_wrong_with_hidden_entries() {
    let root = Listing::Entries(vec![
        Entry { name: ".x".to_string(), node: Node::Unknown },
        Entry { name: "_y".to_string(), node: Node::Directory(Listing::Failed) },
    ]);
    assert!(render_file_tree(&root).is_ok());
}

#[test]
fn tree_orders_names_by_code_point() {
    let root = Listing::Entries(vec![dir(
        "d",
        vec![file("b.md"), file("B.md"), file("a.md"), file("ab.md"), file("é.md"), file("10.md"), file("9.md")],
    )]);
    let items = build_tree(&root).unwrap();
    let mut expected = vec!["b.md", "B.md", "a.md", "ab.md", "é.md", "10.md", "9.md"];
    expected.sort();
    let mut with_dir = vec!["d"];
    with_dir.extend(expected);
    assert_eq!(names(&items), with_dir);
}

#[test]
fn directory_listing_of_the_root() {
    let l = Listing::Entries(vec![file("b.md"), dir("sub", vec![]), file("a.md"), file("c.txt"), file(".h.md")]);
    assert_eq!(
        render_directory(&l, true).unwrap(),
        "<ul class=\"file-listing\">\n  <li><a href=\"a.md\">a.md</a></li>\n  <li><a href=\"b.md\">b.md</a></li>\n  <li><a href=\"sub/\">sub/</a></li>\n</ul>"
    );
}

#[test]
fn directory_listing_below_the_root_links_to_the_parent() {
    let l = Listing::Entries(vec![file("n.md")]);
    assert_eq!(
        render_directory(&l, false).unwrap(),
        "<ul class=\"file-listing\">\n  <li><a href=\"..\">..</a></li>\n  <li><a href=\"n.md\">n.md</a></li>\n</ul>"
    );
}

#[test]
fn directory_listing_fails_when_it_cannot_be_read() {
    assert_eq!(render_directory(&Listing::Failed, true), Err(ServeError::Internal));
    let l = Listing::Entries(vec![Entry { name: "x".to_string(), node: Node::Unknown }]);
    assert_eq!(render_directory(&l, false), Err(ServeError::Internal));
    let hidden = Listing::Entries(vec![Entry { name: "_x".to_string(), node: Node::Unknown }]);
    assert!(render_directory(&hidden, false).is_ok());
}

#[test]
fn directory_listing_does_not_open_directories() {
    let l = Listing::Entries(vec![Entry {
        name: "sub".to_string(),
        node: Node::Directory(Listing::Failed),
    }]);
    assert!(render_directory(&l, true).unwrap().contains("<a href=\"sub/\">sub/</a>"));
}
