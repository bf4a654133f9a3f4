use para::error::ServeError;
use para::page::Assets;
use para::reload::{
    forward, reload_event, reload_message, ChangeKind, ChangedPath, Forward, Received,
    RELOAD_BACKLOG,
};
use para::routes::{font_named, Font, FONT_TYPE, PAGE_TYPE};
use para::sandbox::{is_within, resolve, CanonicalPath};
use para::serve::{content_type, Answer, Ask, PathFacts, PathKind, PathRequest, Stage};
use para::tree::{Entry, Listing, Node};

fn assets() -> Assets {
    Assets {
        style: String::new(),
        htmx: String::new(),
        mermaid: String::new(),
        script: String::new(),
    }
}

fn path(parts: &[&str]) -> CanonicalPath {
    CanonicalPath { parts: parts.iter().map(|p| p.to_string()).collect() }
}

fn facts(kind: PathKind, name: &str) -> PathFacts {
    let (stem, extension) = match name.rsplit_once('.') {
        Some((s, e)) if !s.is_empty() => (Some(s.to_string()), Some(e.to_string())),
        _ => (Some(name.to_string()), None),
    };
    PathFacts { kind, extension, stem, name: Some(name.to_string()) }
}

fn notes() -> Listing {
    Listing::Entries(vec![
        Entry { name: "a.md".to_string(), node: Node::File },
        Entry {
            name: "sub".to_string(),
            node: Node::Directory(Listing::Entries(vec![Entry {
                name: "n.md".to_string(),
                node: Node::File,
            }])),
        },
    ])
}

const TARGET: &str = "a.md";

fn raw_of(path: &str) -> String {
    path.to_string()
}

fn located(parts: &[&str]) -> Answer {
    Answer::Located(Some(path(parts)))
}

fn resolved(request: &mut PathRequest, target: &[&str]) -> Ask {
    request.step(
        Answer::Resolved { path: Some(path(target)), root: Some(path(&["/", "notes"])) },
        &assets(),
    )
}

#[test]
fn error_status_codes() {
    assert_eq!(ServeError::NotFound.status(), 404);
    assert_eq!(ServeError::Forbidden.status(), 403);
    assert_eq!(ServeError::Internal.status(), 500);
}

#[test]
fn within_compares_whole_components() {
    let root = path(&["/", "notes"]);
    assert!(is_within(&root, &path(&["/", "notes"])));
    assert!(is_within(&root, &path(&["/", "notes", "a", "b.md"])));
    assert!(!is_within(&root, &path(&["/", "notes-secret", "a.md"])));
    assert!(!is_within(&root, &path(&["/", "etc", "passwd"])));
    assert!(!is_within(&root, &path(&["/"])));
    assert!(!is_within(&root, &path(&["/", "notesx"])));
}

#[test]
fn resolve_gives_each_error_in_turn() {
    let root = Some(path(&["/", "notes"]));
    assert_eq!(resolve(None, &root).err(), Some(ServeError::NotFound));
    assert_eq!(resolve(None, &None).err(), Some(ServeError::NotFound));
    assert_eq!(resolve(Some(path(&["/", "notes", "a.md"])), &None).err(), Some(ServeError::Internal));
    assert_eq!(resolve(Some(path(&["/", "etc", "passwd"])), &root).err(), Some(ServeError::Forbidden));
    let ok = resolve(Some(path(&["/", "notes", "a.md"])), &root).ok().unwrap();
    assert_eq!(ok.parts, vec!["/", "notes", "a.md"]);
}

#[test]
fn a_note_is_served_as_a_page() {
    let (mut request, ask) = PathRequest::start(raw_of(TARGET), String::new(), false);
    assert!(matches!(ask, Ask::Resolve));
    match resolved(&mut request, &["/", "notes", "a.md"]) {
        Ask::Survey { root, path } => {
            assert_eq!(root.parts, vec!["/", "notes"]);
            assert_eq!(path.parts, vec!["/", "notes", "a.md"]);
        }
        _ => panic!("expected a survey"),
    }
    let ask = request.step(
        Answer::Surveyed { tree: notes(), facts: facts(PathKind::File, "a.md") },
        &assets(),
    );
    match ask {
        Ask::ReadText(p) => assert_eq!(p.parts, vec!["/", "notes", "a.md"]),
        _ => panic!("expected the note to be read"),
    }
    match request.step(Answer::Text(Some("# Hi [[b]]".to_string())), &assets()) {
        Ask::Page(html) => {
            assert!(html.contains("<h1>Hi <a href=\"/b.md\">b</a></h1>"), "{}", html);
            assert!(html.contains("<title>a - para</title>"));
            assert!(html.contains("<a href=\"/sub/n.md\">n.md</a>"));
            assert!(html.starts_with("<!DOCTYPE html>"));
        }
        _ => panic!("expected a page"),
    }
    assert_eq!(request.stage, Stage::Finished);
}

#[test]
fn a_partial_request_gets_the_fragment() {
    let (mut request, _) = PathRequest::start(raw_of(TARGET), String::new(), true);
    resolved(&mut request, &["/", "notes", "a.md"]);
    request.step(Answer::Surveyed { tree: notes(), facts: facts(PathKind::File, "a.md") }, &assets());
    match request.step(Answer::Text(Some("hello".to_string())), &assets()) {
        Ask::Page(html) => assert_eq!(html, "<title>a - para</title><p>hello</p>\n"),
        _ => panic!("expected a page"),
    }
}

#[test]
fn a_path_outside_the_root_is_forbidden() {
    // what `/../../etc/passwd` resolves to
    let (mut request, _) = PathRequest::start(raw_of(TARGET), String::new(), false);
    assert!(matches!(
        resolved(&mut request, &["/", "etc", "passwd"]),
        Ask::Failure(ServeError::Forbidden)
    ));
    assert_eq!(request.stage, Stage::Finished);
    // nothing is read afterwards, whatever is handed in
    assert!(matches!(
        request.step(Answer::Text(Some("root:x:0:0".to_string())), &assets()),
        Ask::Failure(ServeError::Internal)
    ));
}

#[test]
fn a_path_that_does_not_resolve_is_not_found() {
    let (mut request, _) = PathRequest::start(raw_of(TARGET), String::new(), false);
    let ask = request.step(
        Answer::Resolved { path: None, root: Some(path(&["/", "notes"])) },
        &assets(),
    );
    assert!(matches!(ask, Ask::Failure(ServeError::NotFound)));
}

#[test]
fn a_root_that_does_not_resolve_is_an_internal_error() {
    let (mut request, _) = PathRequest::start(raw_of(TARGET), String::new(), false);
    let ask = request.step(
        Answer::Resolved { path: Some(path(&["/", "notes", "a.md"])), root: None },
        &assets(),
    );
    assert!(matches!(ask, Ask::Failure(ServeError::Internal)));
}

#[test]
fn a_tree_that_cannot_be_read_fails_the_request() {
    let (mut request, _) = PathRequest::start(raw_of(TARGET), String::new(), false);
    resolved(&mut request, &["/", "notes", "a.md"]);
    let ask = request.step(
        Answer::Surveyed { tree: Listing::Failed, facts: facts(PathKind::File, "a.md") },
        &assets(),
    );
    assert!(matches!(ask, Ask::Failure(ServeError::Internal)));
}

#[test]
fn a_note_that_cannot_be_read_is_an_internal_error() {
    let (mut request, _) = PathRequest::start(raw_of(TARGET), String::new(), false);
    resolved(&mut request, &["/", "notes", "a.md"]);
    request.step(Answer::Surveyed { tree: notes(), facts: facts(PathKind::File, "a.md") }, &assets());
    assert!(matches!(request.step(Answer::Text(None), &assets()), Ask::Failure(ServeError::Internal)));
}

#[test]
fn any_other_file_is_sent_as_it_is() {
    let (mut request, _) = PathRequest::start(raw_of(TARGET), String::new(), false);
    resolved(&mut request, &["/", "notes", "pic.png"]);
    let ask = request.step(
        Answer::Surveyed { tree: notes(), facts: facts(PathKind::File, "pic.png") },
        &assets(),
    );
    match ask {
        Ask::ReadBytes(p) => assert_eq!(p.parts, vec!["/", "notes", "pic.png"]),
        _ => panic!("expected the file to be read"),
    }
    match request.step(Answer::Bytes(Some(vec![1, 2, 3])), &assets()) {
        Ask::File { content_type, bytes } => {
            assert_eq!(content_type, "image/png");
            assert_eq!(bytes, vec![1, 2, 3]);
        }
        _ => panic!("expected a file"),
    }
}

#[test]
fn content_types_by_extension() {
    assert_eq!(content_type("png"), "image/png");
    assert_eq!(content_type("jpg"), "image/jpeg");
    assert_eq!(content_type("jpeg"), "image/jpeg");
    assert_eq!(content_type("gif"), "image/gif");
    assert_eq!(content_type("svg"), "image/svg+xml");
    assert_eq!(content_type("webp"), "image/webp");
    assert_eq!(content_type("pdf"), "application/pdf");
    assert_eq!(content_type("css"), "text/css");
    assert_eq!(content_type("js"), "application/javascript");
    assert_eq!(content_type("PNG"), "application/octet-stream");
    assert_eq!(content_type(""), "application/octet-stream");
    assert_eq!(content_type("txt"), "application/octet-stream");
}

#[test]
fn what_is_neither_file_nor_directory_is_not_found() {
    let (mut request, _) = PathRequest::start(raw_of(TARGET), String::new(), false);
    resolved(&mut request, &["/", "notes", "pipe"]);
    let ask = request.step(
        Answer::Surveyed { tree: notes(), facts: facts(PathKind::Other, "pipe") },
        &assets(),
    );
    assert!(matches!(ask, Ask::Failure(ServeError::NotFound)));
}

fn at_directory(target: &[&str], name: &str) -> PathRequest {
    let raw = if target.len() > 2 { format!("{}/", target[2..].join("/")) } else { String::new() };
    let (mut request, _) = PathRequest::start(raw, String::new(), true);
    resolved(&mut request, target);
    let ask = request.step(
        Answer::Surveyed { tree: notes(), facts: facts(PathKind::Directory, name) },
        &assets(),
    );
    match ask {
        Ask::Locate(p) => {
            let mut expected: Vec<String> = target.iter().map(|s| s.to_string()).collect();
            expected.push("README.md".to_string());
            assert_eq!(p.parts, expected);
        }
        _ => panic!("expected a look for README.md"),
    }
    request
}

#[test]
fn a_directory_with_only_a_readme_shows_it() {
    let mut request = at_directory(&["/", "notes", "sub"], "sub");
    match request.step(located(&["/", "notes", "sub", "README.md"]), &assets()) {
        Ask::ReadText(p) => assert_eq!(p.parts, vec!["/", "notes", "sub", "README.md"]),
        _ => panic!("expected README.md to be read"),
    }
    match request.step(Answer::Text(Some("# Read me".to_string())), &assets()) {
        Ask::Page(html) => assert_eq!(html, "<title>Notes - para</title><h1>Read me</h1>\n"),
        _ => panic!("expected a page"),
    }
}

#[test]
fn a_directory_with_both_prefers_the_readme() {
    // INDEX.md is never looked for once README.md is there
    let mut request = at_directory(&["/", "notes", "sub"], "sub");
    assert!(matches!(
        request.step(located(&["/", "notes", "sub", "README.md"]), &assets()),
        Ask::ReadText(_)
    ));
    assert_eq!(request.stage, Stage::ReadingNote);
}

#[test]
fn a_directory_without_a_readme_shows_its_index() {
    let mut request = at_directory(&["/", "notes", "sub"], "sub");
    match request.step(Answer::Located(None), &assets()) {
        Ask::Locate(p) => assert_eq!(p.parts, vec!["/", "notes", "sub", "INDEX.md"]),
        _ => panic!("expected a look for INDEX.md"),
    }
    match request.step(located(&["/", "notes", "sub", "INDEX.md"]), &assets()) {
        Ask::ReadText(p) => assert_eq!(p.parts, vec!["/", "notes", "sub", "INDEX.md"]),
        _ => panic!("expected INDEX.md to be read"),
    }
}

#[test]
fn a_directory_with_neither_is_listed() {
    let mut request = at_directory(&["/", "notes", "sub"], "sub");
    request.step(Answer::Located(None), &assets());
    match request.step(Answer::Located(None), &assets()) {
        Ask::ReadDirectory(p) => assert_eq!(p.parts, vec!["/", "notes", "sub"]),
        _ => panic!("expected the directory to be read"),
    }
    let listing = Listing::Entries(vec![Entry { name: "n.md".to_string(), node: Node::File }]);
    match request.step(Answer::Directory(listing), &assets()) {
        Ask::Page(html) => assert_eq!(
            html,
            "<title>sub - para</title><ul class=\"file-listing\">\n  <li><a href=\"..\">..</a></li>\n  <li><a href=\"n.md\">n.md</a></li>\n</ul>"
        ),
        _ => panic!("expected a page"),
    }
}

#[test]
fn the_listing_of_the_root_has_no_parent_link() {
    let mut request = at_directory(&["/", "notes"], "notes");
    request.step(Answer::Located(None), &assets());
    request.step(Answer::Located(None), &assets());
    match request.step(Answer::Directory(notes()), &assets()) {
        Ask::Page(html) => assert_eq!(
            html,
            "<title>notes - para</title><ul class=\"file-listing\">\n  <li><a href=\"a.md\">a.md</a></li>\n  <li><a href=\"sub/\">sub/</a></li>\n</ul>"
        ),
        _ => panic!("expected a page"),
    }
}

#[test]
fn an_answer_that_was_not_asked_for_is_refused() {
    let (mut request, _) = PathRequest::start(raw_of(TARGET), String::new(), false);
    assert!(matches!(
        request.step(Answer::Text(Some("secret".to_string())), &assets()),
        Ask::Failure(ServeError::Internal)
    ));
}

#[test]
fn only_changes_to_notes_are_announced() {
    let note = ChangedPath { text: Some("/notes/a.md".to_string()), extension: Some("md".to_string()) };
    let paths = vec![note];
    assert_eq!(reload_event(ChangeKind::Create, &paths), Some("/notes/a.md".to_string()));
    assert_eq!(reload_event(ChangeKind::Modify, &paths), Some("/notes/a.md".to_string()));
    assert_eq!(reload_event(ChangeKind::Remove, &paths), Some("/notes/a.md".to_string()));
    assert_eq!(reload_event(ChangeKind::Access, &paths), None);
    assert_eq!(reload_event(ChangeKind::Any, &paths), None);
    assert_eq!(reload_event(ChangeKind::Other, &paths), None);
    let other = vec![ChangedPath { text: Some("/notes/a.png".to_string()), extension: Some("png".to_string()) }];
    assert_eq!(reload_event(ChangeKind::Modify, &other), None);
    let none = vec![ChangedPath { text: Some("/notes/md".to_string()), extension: None }];
    assert_eq!(reload_event(ChangeKind::Modify, &none), None);
    assert_eq!(reload_event(ChangeKind::Modify, &vec![]), None);
}

#[test]
fn a_change_is_announced_as_its_first_path() {
    let paths = vec![
        ChangedPath { text: Some("/notes/old.txt".to_string()), extension: Some("txt".to_string()) },
        ChangedPath { text: Some("/notes/new.md".to_string()), extension: Some("md".to_string()) },
    ];
    assert_eq!(reload_event(ChangeKind::Modify, &paths), Some("/notes/old.txt".to_string()));
    let unreadable = vec![ChangedPath { text: None, extension: Some("md".to_string()) }];
    assert_eq!(reload_event(ChangeKind::Create, &unreadable), Some("unknown".to_string()));
}

#[test]
fn the_reload_message_is_a_json_object() {
    let message = reload_message("/notes/a \"b\".md");
    let mut object = serde_json::Map::new();
    object.insert("type".to_string(), serde_json::Value::String("reload".to_string()));
    object.insert("path".to_string(), serde_json::Value::String("/notes/a \"b\".md".to_string()));
    assert_eq!(message, serde_json::Value::Object(object).to_string());
    let parsed: serde_json::Value = serde_json::from_str(&message).unwrap();
    assert_eq!(parsed["type"], "reload");
    assert_eq!(parsed["path"], "/notes/a \"b\".md");
    assert_eq!(parsed.as_object().unwrap().len(), 2);
    assert_eq!(reload_message("/n/a.md"), "{\"path\":\"/n/a.md\",\"type\":\"reload\"}");
}

#[test]
fn the_reload_message_escapes_what_json_asks_for() {
    assert_eq!(
        reload_message("a\"b\\c\n\t\r\u{8}\u{c}\u{1}\u{1f}\u{7f}é/"),
        "{\"path\":\"a\\\"b\\\\c\\n\\t\\r\\b\\f\\u0001\\u001f\u{7f}é/\",\"type\":\"reload\"}"
    );
    assert_eq!(reload_message(""), "{\"path\":\"\",\"type\":\"reload\"}");
}

#[test]
fn announcements_are_forwarded_and_a_closed_channel_closes() {
    match forward(Received::Event("/n/a.md".to_string())) {
        Forward::Send(m) => assert_eq!(m, reload_message("/n/a.md")),
        _ => panic!("expected a message"),
    }
    assert!(matches!(forward(Received::Closed), Forward::Close));
}

#[test]
fn events_sent_before_a_client_subscribes_are_not_replayed() {
    let (sender, first) = tokio::sync::broadcast::channel::<String>(RELOAD_BACKLOG);
    drop(first);
    let paths = vec![ChangedPath { text: Some("/n/a.md".to_string()), extension: Some("md".to_string()) }];
    for _ in 0..40 {
        let event = reload_event(ChangeKind::Modify, &paths).unwrap();
        assert!(sender.send(event).is_err());
    }
    let mut late = sender.subscribe();
    assert!(matches!(late.try_recv(), Err(tokio::sync::broadcast::error::TryRecvError::Empty)));
    sender.send(reload_event(ChangeKind::Create, &paths).unwrap()).unwrap();
    match forward(Received::Event(late.try_recv().unwrap())) {
        Forward::Send(m) => assert_eq!(m, "{\"path\":\"/n/a.md\",\"type\":\"reload\"}"),
        _ => panic!("expected a message"),
    }
    assert!(matches!(late.try_recv(), Err(tokio::sync::broadcast::error::TryRecvError::Empty)));
}

#[test]
fn fonts_are_served_by_exact_name() {
    assert_eq!(font_named("UbuntuMono-Regular.ttf"), Some(Font::Regular));
    assert_eq!(font_named("UbuntuMono-Italic.ttf"), Some(Font::Italic));
    assert_eq!(font_named("UbuntuMono-Bold.ttf"), Some(Font::Bold));
    assert_eq!(font_named("UbuntuMono-BoldItalic.ttf"), Some(Font::BoldItalic));
    assert_eq!(font_named("ubuntumono-regular.ttf"), None);
    assert_eq!(font_named("UbuntuMono-Regular.ttf/"), None);
    assert_eq!(font_named("../UbuntuMono-Regular.ttf"), None);
    assert_eq!(font_named(""), None);
    assert_eq!(FONT_TYPE, "font/ttf");
    assert_eq!(PAGE_TYPE, "text/html; charset=utf-8");
}

#[test]
fn a_client_that_fell_behind_stays_connected() {
    assert!(matches!(forward(Received::Lagged), Forward::Wait));
    // more events than the channel holds, before the client reads
    let (sender, mut slow) = tokio::sync::broadcast::channel::<String>(RELOAD_BACKLOG);
    for i in 0..(RELOAD_BACKLOG + 4) {
        sender.send(format!("/n/{}.md", i)).unwrap();
    }
    let mut sent = Vec::new();
    loop {
        let received = match slow.try_recv() {
            Ok(path) => Received::Event(path),
            Err(tokio::sync::broadcast::error::TryRecvError::Lagged(_)) => Received::Lagged,
            Err(tokio::sync::broadcast::error::TryRecvError::Closed) => Received::Closed,
            Err(tokio::sync::broadcast::error::TryRecvError::Empty) => break,
        };
        match forward(received) {
            Forward::Send(message) => sent.push(message),
            Forward::Wait => {}
            Forward::Close => panic!("the connection was closed"),
        }
    }
    // the oldest four are lost, the rest arrive in the order of sending
    let expected: Vec<String> =
        (4..(RELOAD_BACKLOG + 4)).map(|i| reload_message(&format!("/n/{}.md", i))).collect();
    assert_eq!(sent, expected);
    // and later events still arrive
    sender.send("/n/late.md".to_string()).unwrap();
    assert!(matches!(forward(Received::Event(slow.try_recv().unwrap())), Forward::Send(_)));
}

fn surveyed_directory(raw: &str, target: &[&str], tree: Listing) -> (PathRequest, Ask) {
    let (mut request, _) = PathRequest::start(raw.to_string(), String::new(), false);
    resolved(&mut request, target);
    let name = target[target.len() - 1];
    let ask = request.step(
        Answer::Surveyed { tree, facts: facts(PathKind::Directory, name) },
        &assets(),
    );
    (request, ask)
}

#[test]
fn a_directory_without_a_slash_is_redirected() {
    let (request, ask) = surveyed_directory("sub", &["/", "notes", "sub"], notes());
    match ask {
        Ask::Redirect(to) => assert_eq!(to, "/sub/"),
        _ => panic!("expected a redirect"),
    }
    assert_eq!(request.stage, Stage::Finished);
    let (_, ask) = surveyed_directory("a/b", &["/", "notes", "a", "b"], notes());
    assert!(matches!(ask, Ask::Redirect(to) if to == "/a/b/"));
}

#[test]
fn a_redirect_does_not_wait_for_the_tree() {
    let (_, ask) = surveyed_directory("sub", &["/", "notes", "sub"], Listing::Failed);
    assert!(matches!(ask, Ask::Redirect(to) if to == "/sub/"));
}

#[test]
fn a_directory_with_a_slash_and_the_root_are_not_redirected() {
    let (_, ask) = surveyed_directory("sub/", &["/", "notes", "sub"], notes());
    assert!(matches!(ask, Ask::Locate(_)));
    let (_, ask) = surveyed_directory("", &["/", "notes"], notes());
    assert!(matches!(ask, Ask::Locate(_)));
}

#[test]
fn a_file_is_never_redirected() {
    let (mut request, _) = PathRequest::start("a.md".to_string(), String::new(), false);
    resolved(&mut request, &["/", "notes", "a.md"]);
    let ask = request.step(
        Answer::Surveyed { tree: notes(), facts: facts(PathKind::File, "a.md") },
        &assets(),
    );
    assert!(matches!(ask, Ask::ReadText(_)));
}

#[test]
fn a_directory_outside_the_root_is_forbidden_not_redirected() {
    // `..` joined to the root resolves to the directory above it
    let (mut request, _) = PathRequest::start("..".to_string(), String::new(), false);
    let ask = request.step(
        Answer::Resolved { path: Some(path(&["/"])), root: Some(path(&["/", "notes"])) },
        &assets(),
    );
    assert!(matches!(ask, Ask::Failure(ServeError::Forbidden)));
    assert_eq!(request.stage, Stage::Finished);
    // and one that does not resolve is not found
    let (mut request, _) = PathRequest::start("../nowhere".to_string(), String::new(), false);
    let ask = request.step(
        Answer::Resolved { path: None, root: Some(path(&["/", "notes"])) },
        &assets(),
    );
    assert!(matches!(ask, Ask::Failure(ServeError::NotFound)));
}

#[test]
fn a_readme_that_leads_outside_the_root_is_forbidden() {
    let mut request = at_directory(&["/", "notes", "sub"], "sub");
    assert!(matches!(
        request.step(located(&["/", "etc", "passwd"]), &assets()),
        Ask::Failure(ServeError::Forbidden)
    ));
    let mut request = at_directory(&["/", "notes", "sub"], "sub");
    request.step(Answer::Located(None), &assets());
    assert!(matches!(
        request.step(located(&["/", "etc", "passwd"]), &assets()),
        Ask::Failure(ServeError::Forbidden)
    ));
}

#[test]
fn a_readme_that_is_a_link_within_the_root_is_read_where_it_leads() {
    let mut request = at_directory(&["/", "notes", "sub"], "sub");
    match request.step(located(&["/", "notes", "shared", "intro.md"]), &assets()) {
        Ask::ReadText(p) => assert_eq!(p.parts, vec!["/", "notes", "shared", "intro.md"]),
        _ => panic!("expected the note to be read"),
    }
}
