use para::escape::html_escape;
use para::highlight::{highlight, mark_matches};
use para::markdown::render_markdown;
use para::page::{build_response, wrap_html, Assets};
use para::wiki::{process_wiki_links, wiki_link};

fn assets() -> Assets {
    Assets {
        style: "body{}".to_string(),
        htmx: "/*htmx*/".to_string(),
        mermaid: "/*mermaid*/".to_string(),
        script: "/*main*/".to_string(),
    }
}

#[test]
fn escape_replaces_the_four_characters() {
    assert_eq!(html_escape("a & b"), "a &amp; b");
    assert_eq!(html_escape("<p class=\"x\">"), "&lt;p class=&quot;x&quot;&gt;");
    assert_eq!(html_escape("plain 'text'"), "plain 'text'");
    assert_eq!(html_escape(""), "");
}

#[test]
fn escape_does_not_escape_twice_within_one_pass() {
    assert_eq!(html_escape("&lt;"), "&amp;lt;");
    assert_eq!(html_escape("<&>"), "&lt;&amp;&gt;");
}

#[test]
fn escape_agrees_with_chained_replacement() {
    for s in ["", "&", "a<b>c\"d&e", "&&<<>>\"\"", "no marks", "é<ü>&\"ß"] {
        let chained = s
            .replace('&', "&amp;")
            .replace('<', "&lt;")
            .replace('>', "&gt;")
            .replace('"', "&quot;");
        assert_eq!(html_escape(s), chained);
    }
}

#[test]
fn wiki_link_without_label() {
    assert_eq!(process_wiki_links("[[target]]"), "[target](/target.md)");
    assert_eq!(process_wiki_links("# Hi [[b]]"), "# Hi [b](/b.md)");
}

#[test]
fn wiki_link_with_label_and_extension() {
    assert_eq!(process_wiki_links("[[target.md|Label]]"), "[Label](/target.md)");
    assert_eq!(process_wiki_links("[[a/b|see b]] and [[c.md]]"), "[see b](/a/b.md) and [c.md](/c.md)");
}

#[test]
fn wiki_link_keeps_special_characters_as_written() {
    assert_eq!(process_wiki_links("[[a&b<c>|x \"y\"]]"), "[x \"y\"](/a&b<c>.md)");
    assert_eq!(wiki_link("a&b", "A & B"), "[A & B](/a&b.md)");
    assert_eq!(wiki_link("n.md", "n"), "[n](/n.md)");
}

#[test]
fn wiki_link_edge_cases() {
    assert_eq!(process_wiki_links("[[]]"), "[[]]");
    assert_eq!(process_wiki_links("[[a|]]"), "[[a|]]");
    assert_eq!(process_wiki_links("[[a]"), "[[a]");
    assert_eq!(process_wiki_links("[[a|b|c]]"), "[b|c](/a.md)");
    assert_eq!(process_wiki_links("[[[a]]"), "[[a](/[a.md)");
    assert_eq!(process_wiki_links("[[a]]]"), "[a](/a.md)]");
    assert_eq!(process_wiki_links("[[a\nb]]"), "[a\nb](/a\nb.md)");
    assert_eq!(process_wiki_links("x[[a]][[b]]y"), "x[a](/a.md)[b](/b.md)y");
    assert_eq!(process_wiki_links("[[a|b]c]]"), "[[a|b]c]]");
}

#[test]
fn wiki_links_agree_with_the_pattern() {
    let re = regex::Regex::new(r"\[\[([^\]|]+)(?:\|([^\]]+))?\]\]").unwrap();
    let inputs = [
        "",
        "no links",
        "[[a]]",
        "[[a|b]]",
        "[[a.md]]",
        "[[a.md|b]]",
        "[[a|b|c]]",
        "[[a]b]]",
        "[[a|b]c]]",
        "[[[a]]",
        "[[[[a]]]]",
        "[[a]]]",
        "[[]]",
        "[[|b]]",
        "[[a|]]",
        "[[a",
        "[[a]",
        "[[a|b",
        "[[a|b]",
        "[ [a]]",
        "[[a]] [[b|c]] [[d.md|e]]",
        "[[é|ü]] ß [[日本語]]",
        "[[a\nb|c\nd]]",
        "[[x.md.md]]",
        "[[.md]]",
        "]][[a]][[",
        "[[a]][[b]]",
        "[[a|[[b]]]]",
        "[[[[a|b]]",
    ];
    for s in inputs {
        let expected = re
            .replace_all(s, |caps: &regex::Captures| {
                let target = caps.get(1).map(|m| m.as_str()).unwrap_or("");
                let display = caps.get(2).map(|m| m.as_str()).unwrap_or(target);
                let path = if target.ends_with(".md") {
                    format!("/{}", target)
                } else {
                    format!("/{}.md", target)
                };
                format!("[{}]({})", display, path)
            })
            .to_string();
        assert_eq!(process_wiki_links(s), expected, "input {:?}", s);
    }
}

#[test]
fn markdown_renders_a_heading_with_a_wiki_link() {
    let html = render_markdown("# Hi [[b]]");
    assert!(html.contains("<h1>Hi <a href=\"/b.md\">b</a></h1>"), "{}", html);
}

#[test]
fn markdown_renders_the_same_twice() {
    let text = "# Title\n\n- [ ] task\n- [x] done\n\n| a | b |\n|---|---|\n| 1 | 2 |\n\n~~old~~ https://example.org [^1]\n\n[^1]: note\n";
    assert_eq!(render_markdown(text), render_markdown(text));
}

#[test]
fn markdown_has_the_extensions_and_passes_markup_through() {
    assert!(render_markdown("~~old~~").contains("<del>old</del>"));
    assert!(render_markdown("| a | b |\n|---|---|\n| 1 | 2 |\n").contains("<table>"));
    assert!(render_markdown("see https://example.org now").contains("<a href=\"https://example.org\">"));
    assert!(render_markdown("- [x] done").contains("type=\"checkbox\""));
    assert!(render_markdown("text[^1]\n\n[^1]: note\n").contains("footnote"));
    assert!(render_markdown("<div class=\"x\">raw</div>").contains("<div class=\"x\">raw</div>"));
}

#[test]
fn markdown_link_href_is_not_escaped_twice() {
    let html = render_markdown("[[a&b|A]]");
    assert!(html.contains("<a href=\"/a&amp;b.md\">A</a>"), "{}", html);
}

#[test]
fn mark_matches_wraps_spans() {
    assert_eq!(mark_matches("hello world", &vec![(0, 5)]), "<mark>hello</mark> world");
    assert_eq!(
        mark_matches("abcabc", &vec![(0, 1), (3, 4)]),
        "<mark>a</mark>bc<mark>a</mark>bc"
    );
    assert_eq!(mark_matches("abc", &vec![]), "abc");
    assert_eq!(mark_matches("abc", &vec![(1, 1)]), "a<mark></mark>bc");
}

#[test]
fn mark_matches_passes_over_spans_that_do_not_fit() {
    assert_eq!(mark_matches("abc", &vec![(2, 9)]), "abc");
    assert_eq!(mark_matches("abc", &vec![(2, 1)]), "abc");
    assert_eq!(mark_matches("abcd", &vec![(1, 3), (2, 4)]), "a<mark>bc</mark>d");
    // 'é' takes two bytes: offset 1 lies inside it
    assert_eq!(mark_matches("éa", &vec![(1, 2)]), "éa");
    assert_eq!(mark_matches("éa", &vec![(0, 2)]), "<mark>é</mark>a");
}

#[test]
fn highlight_ignores_case() {
    assert_eq!(highlight("Hello hello HELLO", "hello"), "<mark>Hello</mark> <mark>hello</mark> <mark>HELLO</mark>");
    assert_eq!(highlight("nothing here", "xyz"), "nothing here");
}

#[test]
fn highlight_takes_the_term_as_it_is_written() {
    assert_eq!(highlight("a.b axb", "a.b"), "<mark>a.b</mark> axb");
    assert_eq!(highlight("f(x) + [y]", "(x)"), "f<mark>(x)</mark> + [y]");
    assert_eq!(highlight("Ünïcödé", "ünïcödé"), "<mark>Ünïcödé</mark>");
}

#[test]
fn highlight_of_an_empty_term_marks_every_gap() {
    assert_eq!(highlight("ab", ""), "<mark></mark>a<mark></mark>b<mark></mark>");
}

#[test]
fn document_holds_the_parts_in_place() {
    let html = wrap_html("T", "<p>c</p>", "<nav>t</nav>", "a\"b", &assets());
    assert!(html.starts_with("<!DOCTYPE html>\n<html lang=\"en\">\n<head>\n"));
    assert!(html.contains("<title>T - para</title>"));
    assert!(html.contains("<style>body{}</style>"));
    assert!(html.contains("<script>/*htmx*/</script>\n    <script>/*mermaid*/</script>"));
    assert!(html.contains("value=\"a&quot;b\" />"));
    assert!(html.contains("hx-push-url=\"true\">\n            <nav>t</nav>\n            <script>"));
    assert!(html.contains("<main hx-boost=\"true\" hx-target=\"main\" hx-push-url=\"true\">\n            <p>c</p>\n        </main>"));
    assert!(html.contains("(function() {\n            var w = localStorage.getItem('para-sidebar-width');"));
    assert!(html.ends_with("<script>/*main*/</script>\n</body>\n</html>"));
}

#[test]
fn fragment_is_title_and_content() {
    let html = build_response("T", "<p>c</p>", "<nav>t</nav>", "q", true, &assets());
    assert_eq!(html, "<title>T - para</title><p>c</p>");
}

#[test]
fn full_response_is_the_document() {
    let a = assets();
    assert_eq!(
        build_response("T", "<p>c</p>", "<nav>t</nav>", "q", false, &a),
        wrap_html("T", "<p>c</p>", "<nav>t</nav>", "q", &a)
    );
}
