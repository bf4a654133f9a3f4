//! Answering a request for a path, step by step: the server asks for one
//! thing from the disk at a time and decides on what comes back.

use crate::error::ServeError;
use crate::listing::{directory_html, directory_readable, render_directory};
use crate::markdown::{render_markdown, rendered};
use crate::page::{build_response, response_body, Assets};
use crate::sandbox::{is_within, resolve, within, CanonicalPath};
use crate::text::{chars_of, push_char, same_text};
use crate::tree::{listing_items, listing_readable, render_file_tree, tree_html, Listing};
use vstd::prelude::*;
use vstd::string::*;

verus! {

/// What a resolved path is on disk.
#[derive(Clone, Copy, Debug, PartialEq, Eq, Structural)]
pub enum PathKind {
    /// A file.
    File,
    /// A directory.
    Directory,
    /// Neither.
    Other,
}

/// What the server needs to know of a resolved path.
pub struct PathFacts {
    pub kind: PathKind,
    /// The extension of its last component, if that has one.
    pub extension: Option<String>,
    /// Its last component without the extension.
    pub stem: Option<String>,
    /// Its last component.
    pub name: Option<String>,
}

/// The text of `o`, or `fallback` where there is none.
pub open spec fn text_or(o: Option<String>, fallback: Seq<char>) -> Seq<char> {
    match o {
        Some(s) => s@,
        None => fallback,
    }
}

/// The content type under which a file with the extension `ext` is sent.
pub open spec fn content_type_of(ext: Seq<char>) -> Seq<char> {
    if ext == "png"@ {
        "image/png"@
    } else if ext == "jpg"@ || ext == "jpeg"@ {
        "image/jpeg"@
    } else if ext == "gif"@ {
        "image/gif"@
    } else if ext == "svg"@ {
        "image/svg+xml"@
    } else if ext == "webp"@ {
        "image/webp"@
    } else if ext == "pdf"@ {
        "application/pdf"@
    } else if ext == "css"@ {
        "text/css"@
    } else if ext == "js"@ {
        "application/javascript"@
    } else {
        "application/octet-stream"@
    }
}

/// The content type under which a file with the extension `ext` is sent.
pub fn content_type(ext: &str) -> (out: String)
    ensures
        out@ == content_type_of(ext@),
{
    if same_text(ext, "png") {
        "image/png".to_owned()
    } else if same_text(ext, "jpg") || same_text(ext, "jpeg") {
        "image/jpeg".to_owned()
    } else if same_text(ext, "gif") {
        "image/gif".to_owned()
    } else if same_text(ext, "svg") {
        "image/svg+xml".to_owned()
    } else if same_text(ext, "webp") {
        "image/webp".to_owned()
    } else if same_text(ext, "pdf") {
        "application/pdf".to_owned()
    } else if same_text(ext, "css") {
        "text/css".to_owned()
    } else if same_text(ext, "js") {
        "application/javascript".to_owned()
    } else {
        "application/octet-stream".to_owned()
    }
}

/// Where a request is sent instead: a directory asked for by a path that
/// does not end in a slash is sent to the same path with one, so that every
/// directory has one address. `raw` is the path as the client wrote it,
/// without the slash at its start; the root, whose path is empty, has its
/// address already.
pub open spec fn redirect_of(raw: Seq<char>, is_directory: bool) -> Option<Seq<char>> {
    if is_directory && raw.len() > 0 && raw.last() != '/' {
        Some(seq!['/'] + raw + seq!['/'])
    } else {
        None
    }
}

/// Where a request for `raw` is sent instead, if anywhere.
fn slash_redirect(raw: &str, is_directory: bool) -> (to: Option<String>)
    ensures
        match to {
            Some(t) => redirect_of(raw@, is_directory) == Some(t@),
            None => redirect_of(raw@, is_directory) is None,
        },
{
    if !is_directory {
        return None;
    }
    let v = chars_of(raw);
    if v.len() == 0 || v[v.len() - 1] == '/' {
        return None;
    }
    let mut to = String::new();
    push_char(&mut to, '/');
    to.append(raw);
    push_char(&mut to, '/');
    assert(to@ =~= seq!['/'] + raw@ + seq!['/']);
    Some(to)
}

/// What the server is waiting for.
#[derive(Clone, Copy, Debug, PartialEq, Eq, Structural)]
pub enum Stage {
    /// The requested path and the notes root, resolved.
    Resolving,
    /// The tree below the root, and what the path is.
    Surveying,
    /// The text of a note.
    ReadingNote,
    /// The bytes of a file.
    ReadingAsset,
    /// Where the directory's `README.md` resolves to.
    ProbingReadme,
    /// Where the directory's `INDEX.md` resolves to.
    ProbingIndex,
    /// The entries of the directory.
    ReadingDirectory,
    /// Nothing: the request is answered.
    Finished,
}

/// A request for a path, on its way to an answer.
pub struct PathRequest {
    pub stage: Stage,
    /// The path as the client wrote it, without the slash at its start;
    /// empty for the root.
    pub raw: String,
    /// What the search field shows.
    pub query: String,
    /// Whether the client has the document already and wants the content
    /// alone.
    pub partial: bool,
    /// The notes root, once resolved.
    pub root: CanonicalPath,
    /// The requested path, once resolved.
    pub path: CanonicalPath,
    /// The navigation tree, once rendered.
    pub tree: String,
    /// The title of the page.
    pub title: String,
    /// The content type of the file.
    pub content_type: String,
}

/// A request as a mathematical value.
pub struct RequestModel {
    pub stage: Stage,
    pub raw: Seq<char>,
    pub query: Seq<char>,
    pub partial: bool,
    pub root: Seq<Seq<char>>,
    pub path: Seq<Seq<char>>,
    pub tree: Seq<char>,
    pub title: Seq<char>,
    pub content_type: Seq<char>,
}

/// What the server hands back for the disk to answer, or for the client.
pub enum Ask {
    /// Resolve the requested path and the notes root.
    Resolve,
    /// Read the tree below `root`, and say what `path` is.
    Survey { root: CanonicalPath, path: CanonicalPath },
    /// Read the file at this path as text.
    ReadText(CanonicalPath),
    /// Read the file at this path as bytes.
    ReadBytes(CanonicalPath),
    /// Resolve this path, which is made of a resolved directory and a name
    /// and may be a symbolic link; nothing at it is read.
    Locate(CanonicalPath),
    /// Read the entries of the directory at this path.
    ReadDirectory(CanonicalPath),
    /// Send the client to this address, for good.
    Redirect(String),
    /// Send a page.
    Page(String),
    /// Send a file.
    File { content_type: String, bytes: Vec<u8> },
    /// Send an error.
    Failure(ServeError),
}

/// An `Ask` as a mathematical value.
pub enum AskModel {
    Resolve,
    Survey { root: Seq<Seq<char>>, path: Seq<Seq<char>> },
    ReadText(Seq<Seq<char>>),
    ReadBytes(Seq<Seq<char>>),
    Locate(Seq<Seq<char>>),
    ReadDirectory(Seq<Seq<char>>),
    Redirect(Seq<char>),
    Page(Seq<char>),
    File { content_type: Seq<char>, bytes: Seq<u8> },
    Failure(ServeError),
}

/// What came back from the disk.
pub enum Answer {
    /// The requested path and the notes root, resolved; `None` for one that
    /// does not resolve.
    Resolved { path: Option<CanonicalPath>, root: Option<CanonicalPath> },
    /// The tree below the root, and what the path is.
    Surveyed { tree: Listing, facts: PathFacts },
    /// The text of a file; `None` if it could not be read.
    Text(Option<String>),
    /// The bytes of a file; `None` if it could not be read.
    Bytes(Option<Vec<u8>>),
    /// Where a path resolves to; `None` if there is nothing at it.
    Located(Option<CanonicalPath>),
    /// The entries of a directory.
    Directory(Listing),
}

impl Ask {
    /// The ask as a mathematical value.
    pub open spec fn model(self) -> AskModel {
        match self {
            Ask::Resolve => AskModel::Resolve,
            Ask::Survey { root, path } => AskModel::Survey {
                root: root.names(),
                path: path.names(),
            },
            Ask::ReadText(p) => AskModel::ReadText(p.names()),
            Ask::ReadBytes(p) => AskModel::ReadBytes(p.names()),
            Ask::Locate(p) => AskModel::Locate(p.names()),
            Ask::ReadDirectory(p) => AskModel::ReadDirectory(p.names()),
            Ask::Redirect(to) => AskModel::Redirect(to@),
            Ask::Page(html) => AskModel::Page(html@),
            Ask::File { content_type, bytes } => AskModel::File {
                content_type: content_type@,
                bytes: bytes@,
            },
            Ask::Failure(e) => AskModel::Failure(e),
        }
    }
}

impl AskModel {
    /// The path whose content or entries the ask wants read, if it wants any.
    pub open spec fn read(self) -> Option<Seq<Seq<char>>> {
        match self {
            AskModel::Survey { root, path } => Some(path),
            AskModel::ReadText(p) => Some(p),
            AskModel::ReadBytes(p) => Some(p),
            AskModel::ReadDirectory(p) => Some(p),
            _ => None,
        }
    }
}

/// The request answered with the error `e`.
pub open spec fn failure(m: RequestModel, e: ServeError) -> (RequestModel, AskModel) {
    (RequestModel { stage: Stage::Finished, ..m }, AskModel::Failure(e))
}

/// The request answered with a page of `content`.
pub open spec fn page(m: RequestModel, content: Seq<char>, assets: Assets) -> (
    RequestModel,
    AskModel,
) {
    (
        RequestModel { stage: Stage::Finished, ..m },
        AskModel::Page(response_body(m.title, content, m.tree, m.query, m.partial, assets)),
    )
}

/// The request about to read the note at `at`, shown under `title`.
pub open spec fn note(m: RequestModel, title: Seq<char>, at: Seq<Seq<char>>) -> (
    RequestModel,
    AskModel,
) {
    (RequestModel { stage: Stage::ReadingNote, title, ..m }, AskModel::ReadText(at))
}

/// The request after it learnt where the note of its directory resolves to:
/// a note within the root is read and shown as the directory's page; one
/// that resolves outside the root is forbidden; where there is none, the
/// request goes on as `otherwise` says.
pub open spec fn directory_note(
    m: RequestModel,
    found: Option<CanonicalPath>,
    otherwise: (RequestModel, AskModel),
) -> (RequestModel, AskModel) {
    match found {
        Some(p) => if within(m.root, p.names()) {
            note(m, "Notes"@, p.names())
        } else {
            failure(m, ServeError::Forbidden)
        },
        None => otherwise,
    }
}

/// The step of a request: from where it stands and what came back to where
/// it stands next and what it asks for.
///
/// - A path that does not resolve is not found; a root that does not is an
///   internal error; a path outside the root is forbidden. Nothing else is
///   decided before this.
/// - A directory asked for without a slash at the end is redirected to its
///   address with one.
/// - The tree is rendered before the path is looked at further; if that
///   fails, so does the request.
/// - A file with the extension `md` is read as a note and titled by its
///   stem; any other file is sent as it is, typed by its extension.
/// - A directory shows its `README.md`, else its `INDEX.md`, else its
///   listing. Either note is resolved before it is read, and forbidden if it
///   leads outside the root.
/// - Anything else is not found, and an answer that was not asked for is an
///   internal error.
pub open spec fn next(m: RequestModel, answer: Answer, assets: Assets) -> (RequestModel, AskModel) {
    match (m.stage, answer) {
        (Stage::Resolving, Answer::Resolved { path, root }) => {
            if path is None {
                failure(m, ServeError::NotFound)
            } else if root is None {
                failure(m, ServeError::Internal)
            } else if !within(root->0.names(), path->0.names()) {
                failure(m, ServeError::Forbidden)
            } else {
                (
                    RequestModel {
                        stage: Stage::Surveying,
                        root: root->0.names(),
                        path: path->0.names(),
                        ..m
                    },
                    AskModel::Survey { root: root->0.names(), path: path->0.names() },
                )
            }
        },
        (Stage::Surveying, Answer::Surveyed { tree, facts }) => {
            let shown = RequestModel { tree: tree_html(listing_items(tree, Seq::empty(), 0)), ..m };
            let ext = text_or(facts.extension, Seq::empty());
            let to = redirect_of(m.raw, facts.kind == PathKind::Directory);
            if to is Some {
                (RequestModel { stage: Stage::Finished, ..m }, AskModel::Redirect(to->0))
            } else if !listing_readable(tree, 0) {
                failure(m, ServeError::Internal)
            } else {
                match facts.kind {
                    PathKind::File => if ext == "md"@ {
                        note(shown, text_or(facts.stem, "Note"@), m.path)
                    } else {
                        (
                            RequestModel {
                                stage: Stage::ReadingAsset,
                                content_type: content_type_of(ext),
                                ..shown
                            },
                            AskModel::ReadBytes(m.path),
                        )
                    },
                    PathKind::Directory => (
                        RequestModel {
                            stage: Stage::ProbingReadme,
                            title: text_or(facts.name, "Notes"@),
                            ..shown
                        },
                        AskModel::Locate(m.path.push("README.md"@)),
                    ),
                    PathKind::Other => failure(shown, ServeError::NotFound),
                }
            }
        },
        (Stage::ReadingNote, Answer::Text(text)) => match text {
            Some(t) => page(m, rendered(t@), assets),
            None => failure(m, ServeError::Internal),
        },
        (Stage::ReadingAsset, Answer::Bytes(bytes)) => match bytes {
            Some(b) => (
                RequestModel { stage: Stage::Finished, ..m },
                AskModel::File { content_type: m.content_type, bytes: b@ },
            ),
            None => failure(m, ServeError::Internal),
        },
        (Stage::ProbingReadme, Answer::Located(found)) => directory_note(
            m,
            found,
            (
                RequestModel { stage: Stage::ProbingIndex, ..m },
                AskModel::Locate(m.path.push("INDEX.md"@)),
            ),
        ),
        (Stage::ProbingIndex, Answer::Located(found)) => directory_note(
            m,
            found,
            (RequestModel { stage: Stage::ReadingDirectory, ..m }, AskModel::ReadDirectory(m.path)),
        ),
        (Stage::ReadingDirectory, Answer::Directory(l)) => if directory_readable(l) {
            page(m, directory_html(l, m.path == m.root), assets)
        } else {
            failure(m, ServeError::Internal)
        },
        _ => failure(m, ServeError::Internal),
    }
}

/// While a request is between resolving and its answer, its path lies
/// within the root.
pub open spec fn sandboxed(m: RequestModel) -> bool {
    m.stage != Stage::Resolving && m.stage != Stage::Finished ==> within(m.root, m.path)
}

/// The sandbox holds at every step. A request whose path lies within the
/// root keeps it there. Whatever it wants read lies within the root, and is
/// a path in resolved form: the request's own, or the one that the answer at
/// hand resolved. A path that it wants resolved is a name in the request's
/// directory; that one is not in resolved form, and nothing is read at it
/// before it is resolved and found within the root.
pub proof fn lemma_sandbox_holds(m: RequestModel, answer: Answer, assets: Assets)
    requires
        sandboxed(m),
    ensures
        sandboxed(next(m, answer, assets).0),
        next(m, answer, assets).1.read() matches Some(p) ==> {
            &&& within(next(m, answer, assets).0.root, p)
            &&& (p == m.path || (answer matches Answer::Located(Some(q)) && p == q.names()) || (
            answer matches Answer::Resolved { path: Some(q), root } && p == q.names()))
        },
        next(m, answer, assets).1 matches AskModel::Locate(p) ==> p.len() > 0 && p.drop_last()
            == m.path && within(m.root, m.path),
{
    if m.stage != Stage::Resolving && m.stage != Stage::Finished {
        assert(m.path.push("README.md"@).drop_last() == m.path);
        assert(m.path.push("INDEX.md"@).drop_last() == m.path);
    }
}

/// A path that does not resolve within the root is answered with an error:
/// not found if it does not resolve, forbidden if it resolves outside. It is
/// not redirected, and nothing on disk is asked about.
pub proof fn lemma_escape_is_refused(m: RequestModel, answer: Answer, assets: Assets)
    requires
        m.stage == Stage::Resolving,
        answer matches Answer::Resolved { path, root } && !(path is Some && root is Some && within(
            root->0.names(),
            path->0.names(),
        )),
    ensures
        next(m, answer, assets).1 matches AskModel::Failure(e) && e == (match answer {
            Answer::Resolved { path: None, root } => ServeError::NotFound,
            Answer::Resolved { path: Some(p), root: None } => ServeError::Internal,
            _ => ServeError::Forbidden,
        }),
        next(m, answer, assets).0.stage == Stage::Finished,
{
}

/// A redirect is decided behind the sandbox only: the request has resolved
/// its path, found it within the root, and learnt that it is a directory.
pub proof fn lemma_redirect_is_sandboxed(m: RequestModel, answer: Answer, assets: Assets)
    requires
        sandboxed(m),
        next(m, answer, assets).1 is Redirect,
    ensures
        m.stage == Stage::Surveying,
        within(m.root, m.path),
        answer matches Answer::Surveyed { tree, facts } && facts.kind == PathKind::Directory,
        next(m, answer, assets).1 == AskModel::Redirect(seq!['/'] + m.raw + seq!['/']),
{
}

/// A directory with a `README.md` within the root shows that file, whether
/// or not it has an `INDEX.md` too: the second is not even looked for.
pub proof fn lemma_readme_first(m: RequestModel, readme: CanonicalPath, assets: Assets)
    requires
        m.stage == Stage::ProbingReadme,
        within(m.root, readme.names()),
    ensures
        next(m, Answer::Located(Some(readme)), assets) == note(m, "Notes"@, readme.names()),
{
}

impl PathRequest {
    /// The request as a mathematical value.
    pub open spec fn model(self) -> RequestModel {
        RequestModel {
            stage: self.stage,
            raw: self.raw@,
            query: self.query@,
            partial: self.partial,
            root: self.root.names(),
            path: self.path.names(),
            tree: self.tree@,
            title: self.title@,
            content_type: self.content_type@,
        }
    }

    /// A request for the path `raw`, as the client wrote it without the
    /// slash at its start, that shows `query` in the search field; and what
    /// it asks for first.
    pub fn start(raw: String, query: String, partial: bool) -> (res: (PathRequest, Ask))
        ensures
            res.0.stage == Stage::Resolving,
            res.0.raw@ == raw@,
            res.0.query@ == query@,
            res.0.partial == partial,
            res.1 is Resolve,
            sandboxed(res.0.model()),
    {
        (
            PathRequest {
                stage: Stage::Resolving,
                raw,
                query,
                partial,
                root: CanonicalPath { parts: Vec::new() },
                path: CanonicalPath { parts: Vec::new() },
                tree: String::new(),
                title: String::new(),
                content_type: String::new(),
            },
            Ask::Resolve,
        )
    }

    fn fail(&mut self, e: ServeError) -> (ask: Ask)
        ensures
            (final(self).model(), ask.model()) == failure(old(self).model(), e),
    {
        self.stage = Stage::Finished;
        Ask::Failure(e)
    }

    fn show(&mut self, content: &str, assets: &Assets) -> (ask: Ask)
        ensures
            (final(self).model(), ask.model()) == page(old(self).model(), content@, *assets),
    {
        self.stage = Stage::Finished;
        Ask::Page(
            build_response(
                self.title.as_str(),
                content,
                self.tree.as_str(),
                self.query.as_str(),
                self.partial,
                assets,
            ),
        )
    }

    fn read_note(&mut self, title: String, at: CanonicalPath) -> (ask: Ask)
        ensures
            (final(self).model(), ask.model()) == note(old(self).model(), title@, at.names()),
    {
        self.stage = Stage::ReadingNote;
        self.title = title;
        Ask::ReadText(at)
    }

    fn survey(&mut self, tree: &Listing, facts: PathFacts, assets: &Assets) -> (ask: Ask)
        requires
            old(self).stage == Stage::Surveying,
        ensures
            (final(self).model(), ask.model()) == next(
                old(self).model(),
                Answer::Surveyed { tree: *tree, facts },
                *assets,
            ),
    {
        let is_directory = match facts.kind {
            PathKind::Directory => true,
            _ => false,
        };
        match slash_redirect(self.raw.as_str(), is_directory) {
            Some(to) => {
                self.stage = Stage::Finished;
                return Ask::Redirect(to);
            },
            None => {},
        }
        match render_file_tree(tree) {
            Err(_) => self.fail(ServeError::Internal),
            Ok(html) => {
                let ext = match &facts.extension {
                    Some(e) => e.clone(),
                    None => String::new(),
                };
                match facts.kind {
                    PathKind::File => {
                        self.tree = html;
                        if same_text(ext.as_str(), "md") {
                            let title = match facts.stem {
                                Some(s) => s,
                                None => "Note".to_owned(),
                            };
                            let at = self.path.copy();
                            self.read_note(title, at)
                        } else {
                            self.stage = Stage::ReadingAsset;
                            self.content_type = content_type(ext.as_str());
                            Ask::ReadBytes(self.path.copy())
                        }
                    },
                    PathKind::Directory => {
                        self.tree = html;
                        self.stage = Stage::ProbingReadme;
                        self.title = match facts.name {
                            Some(n) => n,
                            None => "Notes".to_owned(),
                        };
                        Ask::Locate(self.path.child("README.md"))
                    },
                    PathKind::Other => {
                        self.tree = html;
                        self.fail(ServeError::NotFound)
                    },
                }
            },
        }
    }

    /// Takes what came back from the disk and says what to do next.
    pub fn step(&mut self, answer: Answer, assets: &Assets) -> (ask: Ask)
        ensures
            (final(self).model(), ask.model()) == next(old(self).model(), answer, *assets),
    {
        match self.stage {
            Stage::Resolving => match answer {
                Answer::Resolved { path, root } => match resolve(path, &root) {
                    Err(e) => self.fail(e),
                    Ok(p) => match root {
                        Some(r) => {
                            let ask = Ask::Survey { root: r.copy(), path: p.copy() };
                            self.stage = Stage::Surveying;
                            self.root = r;
                            self.path = p;
                            ask
                        },
                        None => self.fail(ServeError::Internal),
                    },
                },
                _ => self.fail(ServeError::Internal),
            },
            Stage::Surveying => match answer {
                Answer::Surveyed { tree, facts } => self.survey(&tree, facts, assets),
                _ => self.fail(ServeError::Internal),
            },
            Stage::ReadingNote => match answer {
                Answer::Text(Some(text)) => {
                    let content = render_markdown(text.as_str());
                    self.show(content.as_str(), assets)
                },
                _ => self.fail(ServeError::Internal),
            },
            Stage::ReadingAsset => match answer {
                Answer::Bytes(Some(bytes)) => {
                    self.stage = Stage::Finished;
                    Ask::File { content_type: self.content_type.clone(), bytes }
                },
                _ => self.fail(ServeError::Internal),
            },
            Stage::ProbingReadme => match answer {
                Answer::Located(Some(found)) => if is_within(&self.root, &found) {
                    self.read_note("Notes".to_owned(), found)
                } else {
                    self.fail(ServeError::Forbidden)
                },
                Answer::Located(None) => {
                    self.stage = Stage::ProbingIndex;
                    Ask::Locate(self.path.child("INDEX.md"))
                },
                _ => self.fail(ServeError::Internal),
            },
            Stage::ProbingIndex => match answer {
                Answer::Located(Some(found)) => if is_within(&self.root, &found) {
                    self.read_note("Notes".to_owned(), found)
                } else {
                    self.fail(ServeError::Forbidden)
                },
                Answer::Located(None) => {
                    self.stage = Stage::ReadingDirectory;
                    Ask::ReadDirectory(self.path.copy())
                },
                _ => self.fail(ServeError::Internal),
            },
            Stage::ReadingDirectory => match answer {
                Answer::Directory(l) => {
                    let is_root = self.path.same_as(&self.root);
                    match render_directory(&l, is_root) {
                        Ok(content) => self.show(content.as_str(), assets),
                        Err(_) => self.fail(ServeError::Internal),
                    }
                },
                _ => self.fail(ServeError::Internal),
            },
            Stage::Finished => self.fail(ServeError::Internal),
        }
    }
}

} // verus!
