//! Live reload: which changes on disk are announced, and what is sent to a
//! connected client.

use crate::text::text_le;
use vstd::prelude::*;
use vstd::string::*;

verus! {

/// How many announcements wait for a slow client before the oldest is
/// dropped.
pub const RELOAD_BACKLOG: usize = 16;

/// What happened to the paths of a change on disk.
#[derive(Clone, Copy, Debug, PartialEq, Eq, Structural)]
pub enum ChangeKind {
    /// Something, it is not known what.
    Any,
    /// They were opened, read or closed.
    Access,
    /// They were created.
    Create,
    /// They were written to, renamed, or their metadata changed.
    Modify,
    /// They were removed.
    Remove,
    /// Something else.
    Other,
}

/// One path of a change on disk.
pub struct ChangedPath {
    /// The path as text, if it is valid text.
    pub text: Option<String>,
    /// The extension of its file name, if it has one.
    pub extension: Option<String>,
}

/// Creating, modifying and removing change what a note says.
pub open spec fn changes_content(kind: ChangeKind) -> bool {
    kind == ChangeKind::Create || kind == ChangeKind::Modify || kind == ChangeKind::Remove
}

/// Whether `path` is a note: its extension is `md`.
pub open spec fn is_note_path(path: ChangedPath) -> bool {
    path.extension matches Some(e) && e@ == "md"@
}

/// Whether one of `paths` is a note.
pub open spec fn touches_note(paths: Seq<ChangedPath>) -> bool {
    exists|i: int| 0 <= i < paths.len() && is_note_path(#[trigger] paths[i])
}

/// The path that stands for a change: the first of its paths, or `unknown`
/// where that is no valid text.
pub open spec fn announced_path(paths: Seq<ChangedPath>) -> Seq<char> {
    if paths.len() > 0 && paths[0].text is Some {
        paths[0].text->0@
    } else {
        "unknown"@
    }
}

/// Decides whether a change on disk is announced to the clients, and as
/// what: a change of content that touches a note is announced as the first
/// of its paths; any other change is not.
pub fn reload_event(kind: ChangeKind, paths: &Vec<ChangedPath>) -> (event: Option<String>)
    ensures
        match event {
            Some(path) => changes_content(kind) && touches_note(paths@) && path@ == announced_path(
                paths@,
            ),
            None => !(changes_content(kind) && touches_note(paths@)),
        },
{
    match kind {
        ChangeKind::Create | ChangeKind::Modify | ChangeKind::Remove => {},
        _ => {
            return None;
        },
    }
    let md = "md".to_owned();
    let mut i: usize = 0;
    let mut found = false;
    while i < paths.len() && !found
        invariant
            i <= paths.len(),
            md@ == "md"@,
            found ==> touches_note(paths@),
            !found ==> forall|j: int| 0 <= j < i ==> !is_note_path(#[trigger] paths@[j]),
        decreases paths.len() - i + if found { 0int } else { 1int },
    {
        match &paths[i].extension {
            Some(e) => {
                if *e == md {
                    found = true;
                    assert(is_note_path(paths@[i as int]));
                } else {
                    i += 1;
                }
            },
            None => {
                i += 1;
            },
        }
    }
    if !found {
        return None;
    }
    if paths.len() > 0 {
        match &paths[0].text {
            Some(t) => {
                return Some(t.clone());
            },
            None => {},
        }
    }
    Some("unknown".to_owned())
}

/// The hexadecimal digit of `n`, in lower case.
pub open spec fn hex_digit(n: int) -> char {
    if n < 10 {
        (('0' as int) + n) as char
    } else {
        (('a' as int) + n - 10) as char
    }
}

/// What one character becomes inside a JSON string: the double quote, the
/// backslash and the control characters are escaped, each in its short form
/// if it has one; any other character stands for itself.
pub open spec fn json_char(c: char) -> Seq<char> {
    if c == '"' {
        seq!['\\', '"']
    } else if c == '\\' {
        seq!['\\', '\\']
    } else if c == '\u{8}' {
        seq!['\\', 'b']
    } else if c == '\t' {
        seq!['\\', 't']
    } else if c == '\n' {
        seq!['\\', 'n']
    } else if c == '\u{c}' {
        seq!['\\', 'f']
    } else if c == '\r' {
        seq!['\\', 'r']
    } else if (c as int) < 0x20 {
        seq!['\\', 'u', '0', '0', hex_digit((c as int) / 16), hex_digit((c as int) % 16)]
    } else {
        seq![c]
    }
}

/// `s` as it stands inside a JSON string.
pub open spec fn json_text(s: Seq<char>) -> Seq<char>
    decreases s.len(),
{
    if s.len() == 0 {
        Seq::empty()
    } else {
        json_text(s.drop_last()) + json_char(s.last())
    }
}

/// The JSON string that holds `s`.
pub open spec fn json_string(s: Seq<char>) -> Seq<char> {
    seq!['"'] + json_text(s) + seq!['"']
}

/// One member of a JSON object: its name, a colon, its value.
pub open spec fn json_member(field: (Seq<char>, Seq<char>)) -> Seq<char> {
    json_string(field.0) + seq![':'] + json_string(field.1)
}

/// The members `fields`, with commas between them.
pub open spec fn json_members(fields: Seq<(Seq<char>, Seq<char>)>) -> Seq<char>
    decreases fields.len(),
{
    if fields.len() == 0 {
        Seq::empty()
    } else if fields.len() == 1 {
        json_member(fields[0])
    } else {
        json_members(fields.drop_last()) + seq![','] + json_member(fields.last())
    }
}

/// The text of the JSON object with the members `fields`, each a name and a
/// string, in the order in which they stand.
pub open spec fn json_object_text(fields: Seq<(Seq<char>, Seq<char>)>) -> Seq<char> {
    seq!['{'] + json_members(fields) + seq!['}']
}

/// The names of `fields` stand in strictly increasing order.
pub open spec fn names_increase(fields: Seq<(Seq<char>, Seq<char>)>) -> bool {
    forall|i: int, j: int|
        0 <= i < j < fields.len() ==> text_le((#[trigger] fields[i]).0, (#[trigger] fields[j]).0)
            && fields[i].0 != fields[j].0
}

/// Trusted: fills a `serde_json::Map` with `fields` by `Map::insert`, each
/// value a `Value::String`, and prints the `Value::Object` of it.
///
/// Claimed of them, for members whose names are handed over in strictly
/// increasing order, which is the order in which the map keeps them whether
/// it sorts its keys or remembers how they came: the text is `{`, the
/// members in that order with commas between, and `}`; a member is its name
/// and its value as strings with a colon between; a string stands between
/// double quotes with `"`, `\` and the characters below U+0020 escaped, the
/// latter as `\b`, `\t`, `\n`, `\f`, `\r` or `\u00` and two hexadecimal
/// digits in lower case.
#[verifier::external_body]
fn json_object(fields: &Vec<(String, String)>) -> (out: String)
    requires
        names_increase(fields.deep_view()),
    ensures
        out@ == json_object_text(fields.deep_view()),
{
    let mut map = serde_json::Map::new();
    for (name, value) in fields.iter() {
        map.insert(name.clone(), serde_json::Value::String(value.clone()));
    }
    serde_json::Value::Object(map).to_string()
}

/// The members of the message that tells a client to reload: the path that
/// changed, and the type of the message.
pub open spec fn reload_fields(path: Seq<char>) -> Seq<(Seq<char>, Seq<char>)> {
    seq![("path"@, path), ("type"@, "reload"@)]
}

/// A text without a double quote, a backslash or a control character stands
/// in a JSON string as it is.
pub proof fn lemma_plain_json_text(s: Seq<char>)
    requires
        forall|i: int| 0 <= i < s.len() ==> json_char(#[trigger] s[i]) == seq![s[i]],
    ensures
        json_text(s) == s,
    decreases s.len(),
{
    if s.len() > 0 {
        assert forall|i: int| 0 <= i < s.drop_last().len() implies json_char(
            #[trigger] s.drop_last()[i],
        ) == seq![s.drop_last()[i]] by {
            assert(s.drop_last()[i] == s[i]);
        }
        lemma_plain_json_text(s.drop_last());
        assert(json_char(s[s.len() - 1]) == seq![s.last()]);
        assert(s.drop_last() + seq![s.last()] == s);
    }
}

/// The message on the wire: an object with the path, as a JSON string, and
/// the type `reload`.
pub proof fn lemma_reload_message_text(path: Seq<char>)
    ensures
        names_increase(reload_fields(path)),
        json_object_text(reload_fields(path)) == "{\"path\":"@ + json_string(path)
            + ",\"type\":\"reload\"}"@,
{
    reveal_strlit("path");
    reveal_strlit("type");
    reveal_strlit("reload");
    reveal_strlit("{\"path\":");
    reveal_strlit(",\"type\":\"reload\"}");
    let fields = reload_fields(path);
    assert(text_le("path"@, "type"@));
    assert("path"@[0] != "type"@[0]);
    lemma_plain_json_text("path"@);
    lemma_plain_json_text("type"@);
    lemma_plain_json_text("reload"@);
    assert(fields.drop_last() == seq![("path"@, path)]);
    assert(json_members(fields.drop_last()) == json_member(("path"@, path)));
    assert(json_members(fields) == json_member(("path"@, path)) + seq![','] + json_member(
        ("type"@, "reload"@),
    ));
    assert(json_object_text(fields) =~= "{\"path\":"@ + json_string(path)
        + ",\"type\":\"reload\"}"@);
}

/// The message that tells a client that `path` changed.
pub fn reload_message(path: &str) -> (message: String)
    ensures
        message@ == json_object_text(reload_fields(path@)),
{
    let mut fields: Vec<(String, String)> = Vec::new();
    fields.push(("path".to_owned(), path.to_owned()));
    fields.push(("type".to_owned(), "reload".to_owned()));
    proof {
        assert(fields.deep_view() =~= reload_fields(path@));
        lemma_reload_message_text(path@);
    }
    json_object(&fields)
}

/// What waiting on the reload channel gave.
pub enum Received {
    /// The path of a change.
    Event(String),
    /// Announcements were dropped because this client was too slow.
    Lagged,
    /// The channel is closed.
    Closed,
}

/// What the connection to a client does next.
pub enum Forward {
    /// Send this message and go on waiting.
    Send(String),
    /// Send nothing and go on waiting.
    Wait,
    /// Close the connection.
    Close,
}

/// Decides what a client's connection does with what the channel gave. An
/// announcement is sent on as a reload message. A client that fell behind
/// has lost the oldest announcements and nothing else: it goes on waiting
/// for those that are left and those to come. Only a closed channel ends the
/// connection.
pub fn forward(received: Received) -> (next: Forward)
    ensures
        match received {
            Received::Event(path) => next matches Forward::Send(m) && m@ == json_object_text(
                reload_fields(path@),
            ),
            Received::Lagged => next is Wait,
            Received::Closed => next is Close,
        },
{
    match received {
        Received::Event(path) => Forward::Send(reload_message(path.as_str())),
        Received::Lagged => Forward::Wait,
        Received::Closed => Forward::Close,
    }
}

} // verus!
