//! The search page: the arguments for the search tool and the markup made of
//! what it printed.

use crate::error::ServeError;
use crate::escape::{escaped, html_escape};
use crate::highlight::{highlight, highlighted};
use crate::text::{
    chars_of, find_char, find_from, lemma_find_char_bounds, matches_at, occurs_at, slice_of,
    string_of,
};
use crate::page::{build_response, response_body, Assets};
use crate::tree::{listing_items, listing_readable, render_file_tree, tree_html, Listing};
use vstd::prelude::*;
use vstd::string::*;

verus! {

/// The line of `s` that starts at `from` and ends before the line feed at
/// `end` (or at the end of the text): a carriage return before the line feed
/// is not part of it.
pub open spec fn line_text(s: Seq<char>, from: int, end: int) -> Seq<char> {
    if end < s.len() && from < end && s[end - 1] == '\r' {
        s.subrange(from, end - 1)
    } else {
        s.subrange(from, end)
    }
}

/// The lines of `s` from index `from` on. A line ends at a line feed or at
/// the end of the text; a line feed at the very end starts no further line.
pub open spec fn lines_from(s: Seq<char>, from: nat) -> Seq<Seq<char>>
    decreases s.len() + 1 - from,
    via lines_from_ends
{
    if from >= s.len() {
        Seq::empty()
    } else {
        let end = find_char(s, '\n', from as int);
        seq![line_text(s, from as int, end)] + lines_from(s, (end + 1) as nat)
    }
}

#[via_fn]
proof fn lines_from_ends(s: Seq<char>, from: nat) {
    if from < s.len() {
        lemma_find_char_bounds(s, '\n', from as int);
    }
}

/// What has been gathered after some lines of the tool's output.
pub struct Gathered {
    /// The markup of the blocks that are complete.
    pub html: Seq<char>,
    /// Whether a block has been completed.
    pub found: bool,
    /// The file of the block that is being filled.
    pub file: Option<Seq<char>>,
    /// The lines of that block so far, joined by line feeds.
    pub body: Seq<char>,
    /// Whether that block has a line yet.
    pub open: bool,
}

/// The state before the first line.
pub open spec fn nothing_gathered() -> Gathered {
    Gathered { html: Seq::empty(), found: false, file: None, body: Seq::empty(), open: false }
}

/// The markup of one block: a link to the file and its lines.
pub open spec fn block_html(file: Seq<char>, body: Seq<char>) -> Seq<char> {
    "<div class=\"search-result\"><a href=\"/"@ + file + "\">"@ + file + "</a><pre>"@ + body
        + "</pre></div>\n"@
}

/// `g` with the block that is being filled completed, if it has a line.
pub open spec fn closed(g: Gathered) -> Gathered {
    if g.file is Some && g.open {
        Gathered {
            html: g.html + block_html(g.file->0, g.body),
            found: true,
            file: g.file,
            body: Seq::empty(),
            open: false,
        }
    } else {
        g
    }
}

/// `g` with one more line in the block that is being filled.
pub open spec fn with_line(g: Gathered, line: Seq<char>) -> Gathered {
    Gathered {
        body: if g.open {
            g.body + seq!['\n'] + line
        } else {
            line
        },
        open: true,
        ..g
    }
}

/// A line of the tool's output that reports a match.
pub struct MatchLine {
    /// The file in which the match was found.
    pub file: Seq<char>,
    /// The line of the file that holds the match.
    pub text: Seq<char>,
}

/// Whether `c` is a decimal digit.
pub open spec fn is_digit(c: char) -> bool {
    ('0' as int) <= (c as int) <= ('9' as int)
}

/// The index at which the run of digits that starts at `from` ends.
pub open spec fn digits_end(s: Seq<char>, from: int) -> int
    decreases s.len() - from,
{
    if 0 <= from < s.len() && is_digit(s[from]) {
        digits_end(s, from + 1)
    } else {
        from
    }
}

/// The line that ends one stretch of a file and starts the next.
pub open spec fn gap_marker() -> Seq<char> {
    seq!['-', '-']
}

/// What `line` says if it has the form of a match, `file:number:text`: what
/// stands before its first colon is the file, whatever its name; digits, at
/// least one, follow up to the second colon; the rest is the text.
pub open spec fn report(line: Seq<char>) -> Option<MatchLine> {
    let first = find_char(line, ':', 0);
    let second = digits_end(line, first + 1);
    if first < line.len() && first + 1 < second < line.len() && line[second] == ':' {
        Some(
            MatchLine {
                file: line.subrange(0, first),
                text: line.subrange(second + 1, line.len() as int),
            },
        )
    } else {
        None
    }
}

/// Whether `line` starts with `file`, a dash, a number and a dash: the form
/// in which the tool prints the lines around a match in `file`.
pub open spec fn surrounds(line: Seq<char>, file: Seq<char>) -> bool {
    let dash = file.len() as int;
    let end = digits_end(line, dash + 1);
    &&& occurs_at(line, 0, file)
    &&& dash + 1 < end < line.len()
    &&& line[dash] == '-'
    &&& line[end] == '-'
}

/// Whether `line` is one of the lines around a match in one of `files`.
pub open spec fn among(line: Seq<char>, files: Seq<Seq<char>>) -> bool {
    exists|j: int| 0 <= j < files.len() && surrounds(line, #[trigger] files[j])
}

/// The files that `lines` name: the file of each line that has the form of a
/// match.
pub open spec fn named(lines: Seq<Seq<char>>) -> Seq<Seq<char>>
    decreases lines.len(),
{
    if lines.len() == 0 {
        Seq::empty()
    } else {
        match report(lines.last()) {
            Some(m) => named(lines.drop_last()).push(m.file),
            None => named(lines.drop_last()),
        }
    }
}

/// What `line` reports, if it reports a match, in output that names
/// `files`.
///
/// The tool prints the lines around a match too, as `file-number-text`. Such
/// a line may well hold a colon, a number and a colon, in a time or an
/// address, and so have the form of a match itself. It reports none: it
/// starts with a file that the output names, a dash, a number and a dash.
pub open spec fn match_line(line: Seq<char>, files: Seq<Seq<char>>) -> Option<MatchLine> {
    if among(line, files) {
        None
    } else {
        report(line)
    }
}

/// `g` after one more line of output that names `files`, for the escaped
/// search term `needle`.
///
/// A line that reports a match adds its text, escaped and highlighted, to
/// the block of its file, which it starts if the match before was in another
/// file. The gap marker adds an ellipsis to a block that has lines. Any
/// other line is passed over.
pub open spec fn absorb(
    g: Gathered,
    line: Seq<char>,
    needle: Seq<char>,
    files: Seq<Seq<char>>,
) -> Gathered {
    match match_line(line, files) {
        Some(m) => {
            let at_file = if g.file == Some(m.file) {
                g
            } else {
                Gathered { file: Some(m.file), ..closed(g) }
            };
            with_line(at_file, highlighted(escaped(m.text), needle))
        },
        None => if line == gap_marker() && g.open {
            with_line(g, "..."@)
        } else {
            g
        },
    }
}

/// What has been gathered after all of `lines`, in output that names
/// `files`.
pub open spec fn gathered(lines: Seq<Seq<char>>, needle: Seq<char>, files: Seq<Seq<char>>) -> Gathered
    decreases lines.len(),
{
    if lines.len() == 0 {
        nothing_gathered()
    } else {
        absorb(gathered(lines.drop_last(), needle, files), lines.last(), needle, files)
    }
}

/// The heading of a page without results for `query`.
pub open spec fn no_results(query: Seq<char>) -> Seq<char> {
    "<h1>No results for \""@ + escaped(query) + "\"</h1>"@
}

/// The page for what the search tool printed for `query`: a heading and one
/// block for each run of matches in one file, or the page without results
/// when there is no block.
pub open spec fn search_results(output: Seq<char>, query: Seq<char>) -> Seq<char> {
    let lines = lines_from(output, 0);
    let g = closed(gathered(lines, escaped(query), named(lines)));
    if g.found {
        "<h1>Search results for \""@ + escaped(query) + "\"</h1>\n"@ + g.html
    } else {
        no_results(query)
    }
}

/// A tool that printed nothing found nothing: the page is the one without
/// results, with no trace of markup for blocks.
pub proof fn lemma_no_output_no_results(query: Seq<char>)
    ensures
        search_results(Seq::empty(), query) == no_results(query),
{
    assert(lines_from(Seq::<char>::empty(), 0) == Seq::<Seq<char>>::empty());
}

/// Lines that report no match start no block: after any number of them
/// nothing is gathered, so output made of such lines alone gives the page
/// without results.
pub proof fn lemma_no_match_no_results(
    lines: Seq<Seq<char>>,
    needle: Seq<char>,
    files: Seq<Seq<char>>,
)
    requires
        forall|i: int| 0 <= i < lines.len() ==> match_line(#[trigger] lines[i], files) is None,
    ensures
        gathered(lines, needle, files) == nothing_gathered(),
    decreases lines.len(),
{
    if lines.len() > 0 {
        assert forall|i: int| 0 <= i < lines.drop_last().len() implies match_line(
            #[trigger] lines.drop_last()[i],
            files,
        ) is None by {
            assert(lines.drop_last()[i] == lines[i]);
        }
        lemma_no_match_no_results(lines.drop_last(), needle, files);
        assert(lines.last() == lines[lines.len() - 1]);
    }
}

/// A line around a match in a file that the output names is passed over,
/// whatever colons it holds.
pub proof fn lemma_context_line_is_passed_over(
    g: Gathered,
    line: Seq<char>,
    needle: Seq<char>,
    files: Seq<Seq<char>>,
)
    requires
        among(line, files),
    ensures
        absorb(g, line, needle, files) == g,
{
    let j = choose|j: int| 0 <= j < files.len() && surrounds(line, #[trigger] files[j]);
    assert(line.len() >= 3);
    assert(gap_marker().len() == 2);
}

/// Whether `line` has the form of a match in `file`.
pub open spec fn reports_in(line: Seq<char>, file: Seq<char>) -> bool {
    report(line) is Some && report(line)->0.file == file
}

/// A line that has the form of a match is no line around a match in its own
/// file: behind the name it has a colon, not a dash.
pub proof fn lemma_report_is_not_around_itself(line: Seq<char>)
    requires
        report(line) is Some,
    ensures
        !surrounds(line, report(line)->0.file),
{
    lemma_find_char_bounds(line, ':', 0);
}

/// Every file that lines of one file name is that file.
pub proof fn lemma_named_of_one_file(lines: Seq<Seq<char>>, file: Seq<char>)
    requires
        forall|i: int|
            0 <= i < lines.len() ==> reports_in(#[trigger] lines[i], file),
    ensures
        forall|j: int| 0 <= j < named(lines).len() ==> #[trigger] named(lines)[j] == file,
    decreases lines.len(),
{
    if lines.len() > 0 {
        assert forall|i: int| 0 <= i < lines.drop_last().len() implies reports_in(#[trigger] lines.drop_last()[i], file) by {
            assert(lines.drop_last()[i] == lines[i]);
        }
        lemma_named_of_one_file(lines.drop_last(), file);
        assert(reports_in(lines[lines.len() - 1], file));
        let before = named(lines.drop_last());
        assert(named(lines) == before.push(file));
        assert forall|j: int| 0 <= j < named(lines).len() implies #[trigger] named(lines)[j]
            == file by {
            if j < before.len() {
                assert(named(lines)[j] == before[j]);
            }
        }
    }
}

/// The text of a line that reports a match as it is shown: escaped, with
/// the term marked.
pub open spec fn shown(line: Seq<char>, needle: Seq<char>) -> Seq<char> {
    highlighted(escaped(report(line)->0.text), needle)
}

/// The lines of `lines` as they are shown, one below the other.
pub open spec fn block_body(lines: Seq<Seq<char>>, needle: Seq<char>) -> Seq<char>
    decreases lines.len(),
{
    if lines.len() == 0 {
        Seq::empty()
    } else if lines.len() == 1 {
        shown(lines[0], needle)
    } else {
        block_body(lines.drop_last(), needle) + seq!['\n'] + shown(lines.last(), needle)
    }
}

/// Matches in one file fill one block: see `lemma_one_file_one_block`.
pub proof fn lemma_gather_one_file(
    lines: Seq<Seq<char>>,
    needle: Seq<char>,
    files: Seq<Seq<char>>,
    file: Seq<char>,
)
    requires
        lines.len() > 0,
        forall|i: int|
            0 <= i < lines.len() ==> reports_in(#[trigger] lines[i], file),
        forall|j: int| 0 <= j < files.len() ==> #[trigger] files[j] == file,
    ensures
        gathered(lines, needle, files) == (Gathered {
            html: Seq::empty(),
            found: false,
            file: Some(file),
            body: block_body(lines, needle),
            open: true,
        }),
    decreases lines.len(),
{
    let last = lines.last();
    assert(reports_in(lines[lines.len() - 1], file));
    lemma_report_is_not_around_itself(last);
    assert(!among(last, files)) by {
        if among(last, files) {
            let j = choose|j: int| 0 <= j < files.len() && surrounds(last, #[trigger] files[j]);
            assert(files[j] == file);
        }
    }
    assert(match_line(last, files) == report(last));
    let prev = gathered(lines.drop_last(), needle, files);
    let text = shown(last, needle);
    assert(gathered(lines, needle, files) == absorb(prev, last, needle, files));
    if lines.len() > 1 {
        assert forall|i: int| 0 <= i < lines.drop_last().len() implies reports_in(
            #[trigger] lines.drop_last()[i],
            file,
        ) by {
            assert(lines.drop_last()[i] == lines[i]);
        }
        lemma_gather_one_file(lines.drop_last(), needle, files, file);
        assert(prev.file == Some(file));
        assert(absorb(prev, last, needle, files) == with_line(prev, text));
        assert(block_body(lines, needle) == block_body(lines.drop_last(), needle) + seq!['\n']
            + text);
    } else {
        assert(lines.drop_last().len() == 0);
        assert(prev == nothing_gathered());
        assert(last == lines[0]);
        assert(closed(prev) == prev);
        assert(absorb(prev, last, needle, files) == with_line(
            Gathered { file: Some(file), ..prev },
            text,
        ));
        assert(block_body(lines, needle) == text);
    }
}

/// Output made of matches in one file, whatever its name, gives one block:
/// it links to that file and holds the matched lines in their order, each
/// escaped and highlighted.
pub proof fn lemma_one_file_one_block(lines: Seq<Seq<char>>, needle: Seq<char>, file: Seq<char>)
    requires
        lines.len() > 0,
        forall|i: int|
            0 <= i < lines.len() ==> reports_in(#[trigger] lines[i], file),
    ensures
        closed(gathered(lines, needle, named(lines))) == (Gathered {
            html: block_html(file, block_body(lines, needle)),
            found: true,
            file: Some(file),
            body: Seq::empty(),
            open: false,
        }),
{
    lemma_named_of_one_file(lines, file);
    lemma_gather_one_file(lines, needle, named(lines), file);
    assert(Seq::<char>::empty() + block_html(file, block_body(lines, needle)) == block_html(
        file,
        block_body(lines, needle),
    ));
}

/// The texts of `lines`.
pub open spec fn texts(lines: Seq<Vec<char>>) -> Seq<Seq<char>> {
    Seq::new(lines.len(), |i: int| lines[i]@)
}

/// The blocks being gathered, in executable form.
struct Gathering {
    html: String,
    found: bool,
    file: Option<String>,
    body: String,
    open: bool,
}

impl Gathering {
    spec fn model(self) -> Gathered {
        Gathered {
            html: self.html@,
            found: self.found,
            file: match self.file {
                Some(f) => Some(f@),
                None => None,
            },
            body: self.body@,
            open: self.open,
        }
    }

    fn close(&mut self)
        ensures
            final(self).model() == closed(old(self).model()),
    {
        if self.open {
            match &self.file {
                Some(f) => {
                    self.html.append("<div class=\"search-result\"><a href=\"/");
                    self.html.append(f.as_str());
                    self.html.append("\">");
                    self.html.append(f.as_str());
                    self.html.append("</a><pre>");
                    self.html.append(self.body.as_str());
                    self.html.append("</pre></div>\n");
                    self.found = true;
                    self.body = String::new();
                    self.open = false;
                    assert(self.html@ =~= old(self).html@ + block_html(f@, old(self).body@));
                },
                None => {},
            }
        }
    }

    fn add_line(&mut self, line: &str)
        ensures
            final(self).model() == with_line(old(self).model(), line@),
    {
        if self.open {
            self.body.append("\n");
            self.body.append(line);
            proof {
                reveal_strlit("\n");
                assert("\n"@ =~= seq!['\n']);
            }
        } else {
            self.body = line.to_owned();
        }
        self.open = true;
    }

    fn take_line(&mut self, line: &Vec<char>, needle: &str, files: &Vec<Vec<char>>)
        ensures
            final(self).model() == absorb(old(self).model(), line@, needle@, texts(files@)),
    {
        let found = if is_among(line, files) {
            None
        } else {
            parse_report(line)
        };
        match found {
            Some((first, second)) => {
                let file = string_of(line, 0, first);
                let text = string_of(line, second + 1, line.len());
                let same = match &self.file {
                    Some(f) => *f == file,
                    None => false,
                };
                if !same {
                    self.close();
                    self.file = Some(file);
                }
                let shown = highlight(html_escape(text.as_str()).as_str(), needle);
                self.add_line(shown.as_str());
            },
            None => {
                let marker = line.len() == 2 && line[0] == '-' && line[1] == '-';
                assert(marker == (line@ == gap_marker())) by {
                    if marker {
                        assert(line@ =~= gap_marker());
                    }
                }
                if marker && self.open {
                    self.add_line("...");
                }
            },
        }
    }
}

/// The index at which the run of digits that starts at `from` ends.
fn scan_digits(v: &Vec<char>, from: usize) -> (end: usize)
    requires
        from <= v.len(),
    ensures
        end == digits_end(v@, from as int),
        from <= end <= v.len(),
{
    let mut k: usize = from;
    while k < v.len() && v[k] >= '0' && v[k] <= '9'
        invariant
            from <= k <= v.len(),
            digits_end(v@, from as int) == digits_end(v@, k as int),
        decreases v.len() - k,
    {
        k += 1;
    }
    k
}

/// Where the two colons of `line` stand, if it has the form of a match.
fn parse_report(line: &Vec<char>) -> (found: Option<(usize, usize)>)
    ensures
        match found {
            Some((first, second)) => {
                &&& first < second < line.len()
                &&& report(line@) == Some(
                    MatchLine {
                        file: line@.subrange(0, first as int),
                        text: line@.subrange(second + 1, line.len() as int),
                    },
                )
            },
            None => report(line@) is None,
        },
{
    let first = find_from(line, ':', 0);
    if first >= line.len() {
        return None;
    }
    let second = scan_digits(line, first + 1);
    if second > first + 1 && second < line.len() && line[second] == ':' {
        Some((first, second))
    } else {
        None
    }
}

/// Whether `line` is one of the lines around a match in `file`.
fn is_around(line: &Vec<char>, file: &Vec<char>) -> (yes: bool)
    ensures
        yes == surrounds(line@, file@),
{
    if !matches_at(line, 0, file) {
        return false;
    }
    let dash = file.len();
    if dash >= line.len() || line[dash] != '-' {
        return false;
    }
    let end = scan_digits(line, dash + 1);
    end > dash + 1 && end < line.len() && line[end] == '-'
}

/// Whether `line` is one of the lines around a match in one of `files`.
fn is_among(line: &Vec<char>, files: &Vec<Vec<char>>) -> (yes: bool)
    ensures
        yes == among(line@, texts(files@)),
{
    let mut j: usize = 0;
    while j < files.len()
        invariant
            j <= files.len(),
            forall|k: int| 0 <= k < j ==> !surrounds(line@, #[trigger] texts(files@)[k]),
        decreases files.len() - j,
    {
        if is_around(line, &files[j]) {
            assert(surrounds(line@, texts(files@)[j as int]));
            return true;
        }
        j += 1;
    }
    false
}

/// The lines of `v`.
fn split_lines(v: &Vec<char>) -> (lines: Vec<Vec<char>>)
    ensures
        texts(lines@) == lines_from(v@, 0),
{
    let mut lines: Vec<Vec<char>> = Vec::new();
    let mut from: usize = 0;
    assert(texts(lines@) + lines_from(v@, 0) == lines_from(v@, 0));
    while from < v.len()
        invariant
            from <= v.len(),
            texts(lines@) + lines_from(v@, from as nat) == lines_from(v@, 0),
        decreases v.len() - from,
    {
        let end = find_from(v, '\n', from);
        let stop = if end < v.len() && from < end && v[end - 1] == '\r' {
            end - 1
        } else {
            end
        };
        let line = slice_of(v, from, stop);
        let ghost before = texts(lines@);
        proof {
            lemma_find_char_bounds(v@, '\n', from as int);
            assert(line@ == line_text(v@, from as int, end as int));
        }
        lines.push(line);
        proof {
            assert(texts(lines@) == before.push(line@));
            assert(before.push(line@) + lines_from(v@, (end + 1) as nat) == before + lines_from(
                v@,
                from as nat,
            ));
        }
        if end == v.len() {
            from = end;
        } else {
            from = end + 1;
        }
    }
    assert(texts(lines@) + Seq::<Seq<char>>::empty() == texts(lines@));
    lines
}

/// The files that `lines` name.
fn named_files(lines: &Vec<Vec<char>>) -> (files: Vec<Vec<char>>)
    ensures
        texts(files@) == named(texts(lines@)),
{
    let mut files: Vec<Vec<char>> = Vec::new();
    let mut i: usize = 0;
    assert(texts(lines@).take(0) == Seq::<Seq<char>>::empty());
    assert(texts(files@) == Seq::<Seq<char>>::empty());
    while i < lines.len()
        invariant
            i <= lines.len(),
            texts(files@) == named(texts(lines@).take(i as int)),
        decreases lines.len() - i,
    {
        proof {
            let next = texts(lines@).take(i + 1);
            assert(next.drop_last() == texts(lines@).take(i as int));
            assert(next.last() == lines[i as int]@);
        }
        let ghost before = texts(files@);
        match parse_report(&lines[i]) {
            Some((first, _)) => {
                let file = slice_of(&lines[i], 0, first);
                files.push(file);
                assert(texts(files@) == before.push(file@));
            },
            None => {},
        }
        i += 1;
    }
    assert(texts(lines@).take(lines.len() as int) == texts(lines@));
    files
}

/// Turns what the search tool printed for `query` into the markup of the
/// results page.
///
/// The tool prints one line per match, `file:number:text`, the lines around
/// it as `file-number-text`, and `--` between stretches of one file that do
/// not touch.
pub fn render_search_results(output: &str, query: &str) -> (html: String)
    ensures
        html@ == search_results(output@, query@),
{
    let needle = html_escape(query);
    let v = chars_of(output);
    let lines = split_lines(&v);
    let files = named_files(&lines);
    let mut g = Gathering {
        html: String::new(),
        found: false,
        file: None,
        body: String::new(),
        open: false,
    };
    let mut i: usize = 0;
    assert(texts(lines@).take(0) == Seq::<Seq<char>>::empty());
    while i < lines.len()
        invariant
            i <= lines.len(),
            g.model() == gathered(texts(lines@).take(i as int), needle@, texts(files@)),
        decreases lines.len() - i,
    {
        proof {
            let next = texts(lines@).take(i + 1);
            assert(next.drop_last() == texts(lines@).take(i as int));
            assert(next.last() == lines[i as int]@);
        }
        g.take_line(&lines[i], needle.as_str(), &files);
        i += 1;
    }
    assert(texts(lines@).take(lines.len() as int) == texts(lines@));
    g.close();
    if g.found {
        let mut html = String::new();
        html.append("<h1>Search results for \"");
        html.append(needle.as_str());
        html.append("\"</h1>\n");
        html.append(g.html.as_str());
        html
    } else {
        let mut html = String::new();
        html.append("<h1>No results for \"");
        html.append(needle.as_str());
        html.append("\"</h1>");
        html
    }
}

/// What the search page says before anything was searched for.
pub const SEARCH_PROMPT: &'static str = "<p>Enter a search term above.</p>";

/// The arguments with which the search tool is run for `query`: no colour,
/// line numbers, at most three matches in a file, one line around each, any
/// case, notes only; then `--`, so that a query that starts with a dash is
/// not read as an option; then the query.
pub open spec fn search_arguments(query: Seq<char>) -> Seq<Seq<char>> {
    seq![
        "--color"@,
        "never"@,
        "--line-number"@,
        "--max-count"@,
        "3"@,
        "-C"@,
        "1"@,
        "-i"@,
        "--type"@,
        "md"@,
        "--"@,
        query,
    ]
}

/// The arguments with which the search tool is run for `query`.
pub fn search_command(query: &str) -> (arguments: Vec<String>)
    ensures
        arguments.deep_view() == search_arguments(query@),
{
    let mut arguments: Vec<String> = Vec::new();
    arguments.push("--color".to_owned());
    arguments.push("never".to_owned());
    arguments.push("--line-number".to_owned());
    arguments.push("--max-count".to_owned());
    arguments.push("3".to_owned());
    arguments.push("-C".to_owned());
    arguments.push("1".to_owned());
    arguments.push("-i".to_owned());
    arguments.push("--type".to_owned());
    arguments.push("md".to_owned());
    arguments.push("--".to_owned());
    arguments.push(query.to_owned());
    assert(arguments.deep_view() =~= search_arguments(query@));
    arguments
}

/// What a search is waiting for.
#[derive(Clone, Copy, Debug, PartialEq, Eq, Structural)]
pub enum SearchStage {
    /// The tree below the notes root.
    Surveying,
    /// What the search tool printed.
    Running,
    /// Nothing: the search is answered.
    Finished,
}

/// A search on its way to an answer.
pub struct SearchRequest {
    pub stage: SearchStage,
    pub query: String,
    /// Whether the client has the document already.
    pub partial: bool,
    /// The navigation tree, once rendered.
    pub tree: String,
}

/// What a search hands back to be done.
pub enum SearchAsk {
    /// Resolve the notes root and read the tree below it.
    Survey,
    /// Run the search tool in the notes root with these arguments.
    Run(Vec<String>),
    /// Send a page.
    Page(String),
    /// Send an error.
    Failure(ServeError),
}

/// What came back for a search.
pub enum SearchAnswer {
    /// The tree below the root; `None` if the root does not resolve.
    Surveyed(Option<Listing>),
    /// What the tool printed; `None` if it could not be run.
    Ran(Option<String>),
}

/// The title of the page for the results of `query`.
pub open spec fn results_title(query: Seq<char>) -> Seq<char> {
    "Search: "@ + query
}

impl SearchRequest {
    /// A search for `query`, and what it asks for first.
    pub fn start(query: String, partial: bool) -> (res: (SearchRequest, SearchAsk))
        ensures
            res.0.stage == SearchStage::Surveying,
            res.0.query@ == query@,
            res.0.partial == partial,
            res.1 is Survey,
    {
        (
            SearchRequest { stage: SearchStage::Surveying, query, partial, tree: String::new() },
            SearchAsk::Survey,
        )
    }

    /// The page of `content` under `title` around this search.
    pub open spec fn page_of(self, title: Seq<char>, content: Seq<char>, assets: Assets) -> Seq<
        char,
    > {
        response_body(title, content, self.tree@, self.query@, self.partial, assets)
    }

    /// Takes what came back and says what to do next.
    ///
    /// - The tree comes first; a root or a tree that cannot be read is an
    ///   internal error.
    /// - An empty query is answered with the prompt, and the tool is not
    ///   run.
    /// - A tool that cannot be run is an internal error; one that prints
    ///   nothing gives the page without results; anything else is rendered
    ///   as results.
    /// - An answer that was not asked for is an internal error.
    pub fn step(&mut self, answer: SearchAnswer, assets: &Assets) -> (ask: SearchAsk)
        ensures
            final(self).query@ == old(self).query@,
            final(self).partial == old(self).partial,
            match (old(self).stage, answer) {
                (SearchStage::Surveying, SearchAnswer::Surveyed(Some(tree))) => if !listing_readable(
                    tree,
                    0,
                ) {
                    final(self).stage == SearchStage::Finished && ask == SearchAsk::Failure(
                        ServeError::Internal,
                    )
                } else if old(self).query@.len() == 0 {
                    &&& final(self).stage == SearchStage::Finished
                    &&& final(self).tree@ == tree_html(listing_items(tree, Seq::empty(), 0))
                    &&& ask matches SearchAsk::Page(html) && html@ == final(self).page_of(
                        "Search"@,
                        SEARCH_PROMPT@,
                        *assets,
                    )
                } else {
                    &&& final(self).stage == SearchStage::Running
                    &&& final(self).tree@ == tree_html(listing_items(tree, Seq::empty(), 0))
                    &&& ask matches SearchAsk::Run(arguments) && arguments.deep_view()
                        == search_arguments(old(self).query@)
                },
                (SearchStage::Running, SearchAnswer::Ran(Some(output))) => {
                    &&& final(self).stage == SearchStage::Finished
                    &&& final(self).tree@ == old(self).tree@
                    &&& ask matches SearchAsk::Page(html) && html@ == (if output@.len() == 0 {
                        old(self).page_of("Search"@, no_results(old(self).query@), *assets)
                    } else {
                        old(self).page_of(
                            results_title(old(self).query@),
                            search_results(output@, old(self).query@),
                            *assets,
                        )
                    })
                },
                _ => final(self).stage == SearchStage::Finished && ask == SearchAsk::Failure(
                    ServeError::Internal,
                ),
            },
    {
        match self.stage {
            SearchStage::Surveying => match answer {
                SearchAnswer::Surveyed(Some(tree)) => match render_file_tree(&tree) {
                    Err(_) => {
                        self.stage = SearchStage::Finished;
                        SearchAsk::Failure(ServeError::Internal)
                    },
                    Ok(html) => {
                        self.tree = html;
                        if self.query.as_str().is_empty() {
                            self.stage = SearchStage::Finished;
                            SearchAsk::Page(
                                build_response(
                                    "Search",
                                    SEARCH_PROMPT,
                                    self.tree.as_str(),
                                    self.query.as_str(),
                                    self.partial,
                                    assets,
                                ),
                            )
                        } else {
                            self.stage = SearchStage::Running;
                            SearchAsk::Run(search_command(self.query.as_str()))
                        }
                    },
                },
                _ => {
                    self.stage = SearchStage::Finished;
                    SearchAsk::Failure(ServeError::Internal)
                },
            },
            SearchStage::Running => match answer {
                SearchAnswer::Ran(Some(output)) => {
                    self.stage = SearchStage::Finished;
                    if output.as_str().is_empty() {
                        let mut content = String::new();
                        content.append("<h1>No results for \"");
                        content.append(html_escape(self.query.as_str()).as_str());
                        content.append("\"</h1>");
                        SearchAsk::Page(
                            build_response(
                                "Search",
                                content.as_str(),
                                self.tree.as_str(),
                                self.query.as_str(),
                                self.partial,
                                assets,
                            ),
                        )
                    } else {
                        let content = render_search_results(output.as_str(), self.query.as_str());
                        let mut title = String::new();
                        title.append("Search: ");
                        title.append(self.query.as_str());
                        SearchAsk::Page(
                            build_response(
                                title.as_str(),
                                content.as_str(),
                                self.tree.as_str(),
                                self.query.as_str(),
                                self.partial,
                                assets,
                            ),
                        )
                    }
                },
                _ => {
                    self.stage = SearchStage::Finished;
                    SearchAsk::Failure(ServeError::Internal)
                },
            },
            SearchStage::Finished => SearchAsk::Failure(ServeError::Internal),
        }
    }
}

} // verus!
