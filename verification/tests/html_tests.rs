use bindiff::diff::report::JsonReport;
use bindiff::diff::{DiffResult, FunctionDelta, MatchKind};
use bindiff::html::{escape_html, render_html};

fn delta(name_a: Option<&str>, name_b: Option<&str>, kind: MatchKind, diff: Option<&str>) -> FunctionDelta {
    FunctionDelta {
        name_a: name_a.map(|s| s.to_string()),
        name_b: name_b.map(|s| s.to_string()),
        start_a: name_a.map(|_| 1),
        start_b: name_b.map(|_| 2),
        changed: !matches!(kind, MatchKind::Exact),
        kind,
        insn_count_a: name_a.map(|_| 3),
        insn_count_b: name_b.map(|_| 4),
        unified_diff: diff.map(|s| s.to_string()),
    }
}

fn empty() -> DiffResult {
    DiffResult { added: vec![], removed: vec![], modified: vec![], unchanged: vec![] }
}

#[test]
fn escape_replaces_the_three_characters() {
    assert_eq!(escape_html("a<b>&c"), "a&lt;b&gt;&amp;c");
    assert_eq!(escape_html("plain"), "plain");
    assert_eq!(escape_html(""), "");
}

#[test]
fn escape_does_not_escape_twice() {
    assert_eq!(escape_html("&lt;"), "&amp;lt;");
    assert_eq!(escape_html("&&"), "&amp;&amp;");
}

#[test]
fn escape_keeps_other_characters() {
    assert_eq!(escape_html("\"quoted\" 'x' \u{2192} \u{e9}"), "\"quoted\" 'x' \u{2192} \u{e9}");
}

#[test]
fn empty_report_shows_zero_counts() {
    let html = render_html(&empty()).unwrap();
    assert!(html.starts_with("\n<!doctype html>\n<html>\n<head>\n"));
    assert!(html.ends_with("\n</ul>\n\n</body>\n</html>\n"));
    assert!(html.contains("<span class='badge green'>Unchanged</span> 0</div>"));
    assert!(html.contains("<span class='badge yellow'>Modified</span> 0</div>"));
    assert!(html.contains("<span class='badge blue'>Added</span> 0</div>"));
    assert!(html.contains("<span class='badge red'>Removed</span> 0</div>"));
    assert!(html.contains("<h2>Modified</h2>\n\n\n<h2>Added</h2>\n<ul>\n\n</ul>\n\n<h2>Removed</h2>\n<ul>\n\n</ul>\n\n<h2>Unchanged</h2>\n<ul>\n\n</ul>\n\n</body>"));
    assert!(!html.contains("{{"));
}

#[test]
fn report_shows_counts_and_lists() {
    let mut r = empty();
    r.added.push(delta(None, Some("new_fn"), MatchKind::NoMatch, None));
    r.removed.push(delta(Some("old_fn"), None, MatchKind::NoMatch, None));
    r.removed.push(delta(Some("older_fn"), None, MatchKind::NoMatch, None));
    for i in 0..12 {
        let name = format!("same{}", i);
        r.unchanged.push(delta(Some(&name), Some(&name), MatchKind::Exact, None));
    }
    let html = render_html(&r).unwrap();
    assert!(html.contains("<span class='badge green'>Unchanged</span> 12</div>"));
    assert!(html.contains("<span class='badge yellow'>Modified</span> 0</div>"));
    assert!(html.contains("<span class='badge blue'>Added</span> 1</div>"));
    assert!(html.contains("<span class='badge red'>Removed</span> 2</div>"));
    assert!(html.contains("<h2>Added</h2>\n<ul>\n<li class='card fn'>new_fn</li>\n</ul>"));
    assert!(html.contains(
        "<h2>Removed</h2>\n<ul>\n<li class='card fn'>old_fn</li><li class='card fn'>older_fn</li>\n</ul>"
    ));
    assert!(html.contains("<h2>Unchanged</h2>\n<ul>\n<li class='card fn'>same0</li><li class='card fn'>same1</li>"));
    assert!(html.contains("<li class='card fn'>same11</li>\n</ul>\n\n</body>"));
}

#[test]
fn modified_pair_shows_title_distance_and_diff() {
    let mut r = empty();
    r.modified.push(delta(Some("g"), Some("g"), MatchKind::Fuzzy { hamming: 17 }, Some("-ADD \n+SUB \n")));
    let html = render_html(&r).unwrap();
    assert!(html.contains(
        "<h2>Modified</h2>\n<div class='fn card'><h3>g \u{2192} g</h3><div>SimHash Hamming distance: 17</div><details open><summary>Unified diff</summary><pre>-ADD \n+SUB \n</pre></details></div>\n\n<h2>Added</h2>"
    ));
}

#[test]
fn modified_pair_without_distance_or_diff() {
    let mut r = empty();
    r.modified.push(delta(Some("g"), None, MatchKind::Exact, None));
    let html = render_html(&r).unwrap();
    assert!(html.contains("<h2>Modified</h2>\n<div class='fn card'><h3>g \u{2192} ?</h3></div>\n\n<h2>Added</h2>"));
}

#[test]
fn names_and_diffs_are_escaped() {
    let mut r = empty();
    r.added.push(delta(None, Some("operator<<"), MatchKind::NoMatch, None));
    r.removed.push(delta(Some("a&b"), None, MatchKind::NoMatch, None));
    r.unchanged.push(delta(Some("<script>x</script>"), Some("y"), MatchKind::Exact, None));
    r.modified.push(delta(
        Some("vec<int>"),
        Some("vec<long>"),
        MatchKind::Fuzzy { hamming: 0 },
        Some("-CMP <a>&\n"),
    ));
    let html = render_html(&r).unwrap();
    assert!(html.contains("<li class='card fn'>operator&lt;&lt;</li>"));
    assert!(html.contains("<li class='card fn'>a&amp;b</li>"));
    assert!(html.contains("<li class='card fn'>&lt;script&gt;x&lt;/script&gt;</li>"));
    assert!(html.contains("<h3>vec&lt;int&gt; \u{2192} vec&lt;long&gt;</h3>"));
    assert!(html.contains("<div>SimHash Hamming distance: 0</div>"));
    assert!(html.contains("<pre>-CMP &lt;a&gt;&amp;\n</pre>"));
    assert!(!html.contains("<script>"));
    assert!(!html.contains("operator<<"));
    assert!(!html.contains("vec<int>"));
    assert!(!html.contains("a&b"));
}

#[test]
fn missing_names_of_flat_lists_show_a_question_mark() {
    let mut r = empty();
    r.added.push(delta(Some("a"), None, MatchKind::NoMatch, None));
    r.removed.push(delta(None, Some("b"), MatchKind::NoMatch, None));
    let html = render_html(&r).unwrap();
    assert!(html.contains("<h2>Added</h2>\n<ul>\n<li class='card fn'>?</li>\n</ul>"));
    assert!(html.contains("<h2>Removed</h2>\n<ul>\n<li class='card fn'>?</li>\n</ul>"));
}

#[test]
fn rendering_twice_gives_the_same_document() {
    let mut r = empty();
    r.modified.push(delta(Some("g"), Some("g"), MatchKind::Fuzzy { hamming: 3 }, Some(" x\n")));
    r.added.push(delta(None, Some("n"), MatchKind::NoMatch, None));
    assert_eq!(render_html(&r).unwrap(), render_html(&r.clone()).unwrap());
}

#[test]
fn report_holds_the_four_lists() {
    let mut r = empty();
    r.added.push(delta(None, Some("a"), MatchKind::NoMatch, None));
    r.removed.push(delta(Some("r"), None, MatchKind::NoMatch, None));
    r.modified.push(delta(Some("m"), Some("m"), MatchKind::Fuzzy { hamming: 1 }, Some("d")));
    r.unchanged.push(delta(Some("u1"), Some("u1"), MatchKind::Exact, None));
    r.unchanged.push(delta(Some("u2"), Some("u2"), MatchKind::Exact, None));
    let report = JsonReport::from(r);
    assert_eq!(report.added.len(), 1);
    assert_eq!(report.added[0].name_b.as_deref(), Some("a"));
    assert_eq!(report.removed.len(), 1);
    assert_eq!(report.removed[0].name_a.as_deref(), Some("r"));
    assert_eq!(report.modified.len(), 1);
    assert_eq!(report.modified[0].unified_diff.as_deref(), Some("d"));
    assert_eq!(report.unchanged.len(), 2);
    assert_eq!(report.unchanged[1].name_a.as_deref(), Some("u2"));
}
