//! Wiki links: `[[target]]` and `[[target|label]]`, rewritten into markdown
//! links before the markdown is parsed.

use crate::text::{chars_of, ends_with, has_suffix, matches_at, occurs_at, push_char, push_range,
    slice_of};
use vstd::prelude::*;
use vstd::string::*;

verus! {

/// A wiki link found in a text.
pub struct Link {
    /// What it points to.
    pub target: Seq<char>,
    /// The text that is shown for it.
    pub label: Seq<char>,
    /// The index behind its closing brackets.
    pub end: int,
}

/// A target goes on until a `]` or a `|`; a label, until a `]`.
pub open spec fn in_run(c: char, label: bool) -> bool {
    c != ']' && (label || c != '|')
}

/// The index at which the run of target or label characters that starts at
/// `from` ends.
pub open spec fn run_end(s: Seq<char>, from: int, label: bool) -> int
    decreases s.len() - from,
{
    if 0 <= from < s.len() && in_run(s[from], label) {
        run_end(s, from + 1, label)
    } else {
        from
    }
}

/// The wiki link that starts at index `i` of `s`, if there is one: `[[`, a
/// target of at least one character, then either `]]`, or `|`, a label of at
/// least one character and `]]`.
pub open spec fn link_at(s: Seq<char>, i: int) -> Option<Link> {
    let t0 = i + 2;
    let t1 = run_end(s, t0, false);
    let l0 = t1 + 1;
    let l1 = run_end(s, l0, true);
    if !occurs_at(s, i, "[["@) || t1 == t0 {
        None
    } else if occurs_at(s, t1, "]]"@) {
        Some(Link { target: s.subrange(t0, t1), label: s.subrange(t0, t1), end: t1 + 2 })
    } else if t1 < s.len() && s[t1] == '|' && l1 > l0 && occurs_at(s, l1, "]]"@) {
        Some(Link { target: s.subrange(t0, t1), label: s.subrange(l0, l1), end: l1 + 2 })
    } else {
        None
    }
}

/// Where a target leads: the note of that name below the root, with `.md`
/// added unless the target ends in it.
pub open spec fn link_href(target: Seq<char>) -> Seq<char> {
    if has_suffix(target, ".md"@) {
        seq!['/'] + target
    } else {
        seq!['/'] + target + ".md"@
    }
}

/// The markdown link that stands for a wiki link. Target and label are
/// taken as they are written.
pub open spec fn link_markdown(target: Seq<char>, label: Seq<char>) -> Seq<char> {
    seq!['['] + label + "]("@ + link_href(target) + seq![')']
}

/// A run ends at or behind its start, inside the text, at a character that
/// is not part of it; all before that are part of it.
pub proof fn lemma_run_end(s: Seq<char>, from: int, label: bool)
    requires
        0 <= from <= s.len(),
    ensures
        from <= run_end(s, from, label) <= s.len(),
        run_end(s, from, label) < s.len() ==> !in_run(s[run_end(s, from, label)], label),
        forall|k: int| from <= k < run_end(s, from, label) ==> in_run(#[trigger] s[k], label),
    decreases s.len() - from,
{
    if from < s.len() && in_run(s[from], label) {
        lemma_run_end(s, from + 1, label);
    }
}

/// A link ends behind its start and inside the text.
pub proof fn lemma_link_at(s: Seq<char>, i: int)
    requires
        0 <= i,
        link_at(s, i) is Some,
    ensures
        i + 5 <= link_at(s, i)->0.end <= s.len(),
{
    reveal_strlit("[[");
    reveal_strlit("]]");
    let t1 = run_end(s, i + 2, false);
    lemma_run_end(s, i + 2, false);
    if t1 + 1 <= s.len() {
        lemma_run_end(s, t1 + 1, true);
    }
}

/// `s` from index `i` on, with each wiki link replaced by its markdown link.
/// Links are taken from left to right, the next one behind the end of the
/// one before.
pub open spec fn expanded_from(s: Seq<char>, i: nat) -> Seq<char>
    decreases s.len() - i,
    via expanded_from_ends
{
    if i >= s.len() {
        Seq::empty()
    } else {
        match link_at(s, i as int) {
            Some(link) => link_markdown(link.target, link.label) + expanded_from(
                s,
                link.end as nat,
            ),
            None => seq![s[i as int]] + expanded_from(s, i + 1),
        }
    }
}

#[via_fn]
proof fn expanded_from_ends(s: Seq<char>, i: nat) {
    if i < s.len() && link_at(s, i as int) is Some {
        lemma_link_at(s, i as int);
    }
}

/// `s` with each wiki link replaced by its markdown link.
pub open spec fn expanded(s: Seq<char>) -> Seq<char> {
    expanded_from(s, 0)
}

/// The index at which the run that starts at `from` ends.
fn scan_run(v: &Vec<char>, from: usize, label: bool) -> (end: usize)
    requires
        from <= v.len(),
    ensures
        end == run_end(v@, from as int, label),
        from <= end <= v.len(),
{
    let mut k: usize = from;
    while k < v.len() && v[k] != ']' && (label || v[k] != '|')
        invariant
            from <= k <= v.len(),
            run_end(v@, from as int, label) == run_end(v@, k as int, label),
        decreases v.len() - k,
    {
        k += 1;
    }
    k
}

/// The parts of the wiki link that starts at index `i`: where its target
/// starts and ends, where its label starts and ends, and where the link ends.
fn scan_link(v: &Vec<char>, i: usize) -> (found: Option<(usize, usize, usize, usize, usize)>)
    requires
        i < v.len(),
    ensures
        match found {
            Some((t0, t1, l0, l1, end)) => {
                &&& t0 <= t1 <= v.len()
                &&& l0 <= l1 <= v.len()
                &&& i < end <= v.len()
                &&& link_at(v@, i as int) == Some(
                    Link {
                        target: v@.subrange(t0 as int, t1 as int),
                        label: v@.subrange(l0 as int, l1 as int),
                        end: end as int,
                    },
                )
            },
            None => link_at(v@, i as int) is None,
        },
{
    let open = chars_of("[[");
    let close = chars_of("]]");
    if !matches_at(v, i, &open) {
        return None;
    }
    proof {
        reveal_strlit("[[");
        reveal_strlit("]]");
    }
    let t0 = i + 2;
    let t1 = scan_run(v, t0, false);
    if t1 == t0 {
        return None;
    }
    if matches_at(v, t1, &close) {
        return Some((t0, t1, t0, t1, t1 + 2));
    }
    if t1 < v.len() && v[t1] == '|' {
        let l0 = t1 + 1;
        let l1 = scan_run(v, l0, true);
        if l1 > l0 && matches_at(v, l1, &close) {
            return Some((t0, t1, l0, l1, l1 + 2));
        }
    }
    None
}

/// Writes the markdown link for the target `v[t0..t1]` and the label
/// `v[l0..l1]` to the end of `out`.
fn push_link(out: &mut String, v: &Vec<char>, t0: usize, t1: usize, l0: usize, l1: usize)
    requires
        t0 <= t1 <= v.len(),
        l0 <= l1 <= v.len(),
    ensures
        final(out)@ == old(out)@ + link_markdown(
            v@.subrange(t0 as int, t1 as int),
            v@.subrange(l0 as int, l1 as int),
        ),
{
    let target = slice_of(v, t0, t1);
    push_char(out, '[');
    push_range(out, v, l0, l1);
    out.append("](");
    push_char(out, '/');
    push_range(out, v, t0, t1);
    if !ends_with(&target, ".md") {
        out.append(".md");
    }
    push_char(out, ')');
    assert(out@ =~= old(out)@ + link_markdown(target@, v@.subrange(l0 as int, l1 as int)));
}

/// The markdown link that stands for the wiki link to `target` shown as
/// `label`.
pub fn wiki_link(target: &str, label: &str) -> (out: String)
    ensures
        out@ == link_markdown(target@, label@),
{
    let t = chars_of(target);
    let mut out = String::new();
    push_char(&mut out, '[');
    out.append(label);
    out.append("](");
    push_char(&mut out, '/');
    out.append(target);
    if !ends_with(&t, ".md") {
        out.append(".md");
    }
    push_char(&mut out, ')');
    assert(out@ =~= link_markdown(target@, label@));
    out
}

/// Replaces each wiki link in `content` by a markdown link.
pub fn process_wiki_links(content: &str) -> (out: String)
    ensures
        out@ == expanded(content@),
{
    let v = chars_of(content);
    let mut out = String::new();
    let mut i: usize = 0;
    while i < v.len()
        invariant
            i <= v.len(),
            v@ == content@,
            out@ + expanded_from(v@, i as nat) == expanded(v@),
        decreases v.len() - i,
    {
        let ghost before = out@;
        match scan_link(&v, i) {
            Some((t0, t1, l0, l1, end)) => {
                push_link(&mut out, &v, t0, t1, l0, l1);
                assert(out@ + expanded_from(v@, end as nat) =~= before + expanded_from(
                    v@,
                    i as nat,
                ));
                i = end;
            },
            None => {
                push_char(&mut out, v[i]);
                assert(out@ + expanded_from(v@, (i + 1) as nat) =~= before + expanded_from(
                    v@,
                    i as nat,
                ));
                i += 1;
            },
        }
    }
    assert(out@ + Seq::<char>::empty() == out@);
    out
}

/// A run that starts at `from` ends at `end` when every character between
/// the two is part of it and the one at `end`, if there is one, is not.
pub proof fn lemma_run_reaches(s: Seq<char>, from: int, end: int, label: bool)
    requires
        0 <= from <= end <= s.len(),
        forall|k: int| from <= k < end ==> in_run(#[trigger] s[k], label),
        end < s.len() ==> !in_run(s[end], label),
    ensures
        run_end(s, from, label) == end,
    decreases end - from,
{
    if from < end {
        lemma_run_reaches(s, from + 1, end, label);
    }
}

/// A text that is one wiki link without a label, `[[target]]`, becomes the
/// markdown link that shows the target and leads to it: whatever the target
/// is, as long as it is not empty and holds neither `]` nor `|`.
pub proof fn lemma_plain_link(target: Seq<char>)
    requires
        target.len() > 0,
        forall|k: int| 0 <= k < target.len() ==> in_run(#[trigger] target[k], false),
    ensures
        expanded("[["@ + target + "]]"@) == link_markdown(target, target),
{
    reveal_strlit("[[");
    reveal_strlit("]]");
    let s = "[["@ + target + "]]"@;
    let n = target.len() as int;
    assert(s.len() == n + 4);
    assert forall|k: int| 2 <= k < 2 + n implies in_run(#[trigger] s[k], false) by {
        assert(s[k] == target[k - 2]);
    }
    assert(s[2 + n] == ']');
    lemma_run_reaches(s, 2, 2 + n, false);
    assert(s.subrange(0, 2) =~= "[["@);
    assert(s.subrange(2 + n, 4 + n) =~= "]]"@);
    assert(s.subrange(2, 2 + n) =~= target);
    assert(link_at(s, 0) == Some(Link { target, label: target, end: n + 4 }));
    assert(expanded_from(s, (n + 4) as nat) == Seq::<char>::empty());
    assert(link_markdown(target, target) + Seq::<char>::empty() == link_markdown(target, target));
}

/// A text that is one wiki link with a label, `[[target|label]]`, becomes
/// the markdown link that shows the label and leads to the target: whatever
/// the two are, as long as neither is empty, the target holds neither `]`
/// nor `|` and the label no `]`.
pub proof fn lemma_labelled_link(target: Seq<char>, label: Seq<char>)
    requires
        target.len() > 0,
        label.len() > 0,
        forall|k: int| 0 <= k < target.len() ==> in_run(#[trigger] target[k], false),
        forall|k: int| 0 <= k < label.len() ==> in_run(#[trigger] label[k], true),
    ensures
        expanded("[["@ + target + seq!['|'] + label + "]]"@) == link_markdown(target, label),
{
    reveal_strlit("[[");
    reveal_strlit("]]");
    let s = "[["@ + target + seq!['|'] + label + "]]"@;
    let n = target.len() as int;
    let m = label.len() as int;
    assert(s.len() == n + m + 5);
    assert forall|k: int| 2 <= k < 2 + n implies in_run(#[trigger] s[k], false) by {
        assert(s[k] == target[k - 2]);
    }
    assert(s[2 + n] == '|');
    lemma_run_reaches(s, 2, 2 + n, false);
    assert forall|k: int| 3 + n <= k < 3 + n + m implies in_run(#[trigger] s[k], true) by {
        assert(s[k] == label[k - 3 - n]);
    }
    assert(s[3 + n + m] == ']');
    lemma_run_reaches(s, 3 + n, 3 + n + m, true);
    assert(s.subrange(0, 2) =~= "[["@);
    assert(s.subrange(3 + n + m, 5 + n + m) =~= "]]"@);
    assert(s.subrange(2, 2 + n) =~= target);
    assert(s.subrange(3 + n, 3 + n + m) =~= label);
    assert(!occurs_at(s, 2 + n, "]]"@)) by {
        if occurs_at(s, 2 + n, "]]"@) {
            assert(s.subrange(2 + n, 4 + n)[0] == ']');
        }
    }
    assert(link_at(s, 0) == Some(Link { target, label, end: n + m + 5 }));
    assert(expanded_from(s, (n + m + 5) as nat) == Seq::<char>::empty());
    assert(link_markdown(target, label) + Seq::<char>::empty() == link_markdown(target, label));
}

/// A text without `[` has no wiki link and stays as it is.
pub proof fn lemma_no_bracket_no_change(s: Seq<char>, i: nat)
    requires
        i <= s.len(),
        forall|k: int| 0 <= k < s.len() ==> #[trigger] s[k] != '[',
    ensures
        expanded_from(s, i) == s.subrange(i as int, s.len() as int),
    decreases s.len() - i,
{
    reveal_strlit("[[");
    if i < s.len() {
        assert(link_at(s, i as int) is None) by {
            if occurs_at(s, i as int, "[["@) {
                assert(s.subrange(i as int, i as int + 2)[0] == '[');
            }
        }
        lemma_no_bracket_no_change(s, i + 1);
        assert(seq![s[i as int]] + s.subrange(i as int + 1, s.len() as int) =~= s.subrange(
            i as int,
            s.len() as int,
        ));
    } else {
        assert(s.subrange(i as int, s.len() as int) =~= Seq::<char>::empty());
    }
}

} // verus!
