//! A comparison as one self-contained HTML document.

use crate::model::{text_of, views};
use crate::diff::{DiffResult, DiffResultView, FunctionDelta, FunctionDeltaView, MatchKind};
use crate::failure::ErrorKind;
use crate::text::{decimal, push_decimal};
use vstd::prelude::*;
use vstd::string::StringExecFns;

verus! {

/// The document up to the count of unchanged functions.
pub const PAGE_HEAD: &'static str =
    "\n<!doctype html>\n<html>\n<head>\n<meta charset='utf-8'>\n<meta name='viewport' content='width=device-width, initial-scale=1'>\n<title>bindiff report</title>\n<style>\nbody { font-family: ui-sans-serif, system-ui, -apple-system, Segoe UI, Roboto, Ubuntu, Cantarell, Noto Sans, Helvetica, Arial, Apple Color Emoji, Segoe UI Emoji; margin: 2rem; }\n.summary { display: flex; gap: 1rem; }\n.card { border: 1px solid #ddd; border-radius: 12px; padding: 1rem; }\n.badge { padding: .25rem .5rem; border-radius: 8px; font-weight: 700; }\n.badge.green { background: #d1fae5; color: #065f46; }\n.badge.yellow { background: #fef9c3; color: #854d0e; }\n.badge.red { background: #fee2e2; color: #991b1b; }\n.badge.blue { background: #dbeafe; color: #1e3a8a; }\npre { background: #0b1020; color: #d1d5db; padding: 1rem; border-radius: 8px; overflow-x: auto; }\nh2 { margin-top: 2rem; }\n.fn { margin-bottom: 1rem; }\n.fn h3 { margin: 0; font-size: 1rem; }\n</style>\n</head>\n<body>\n<h1>bindiff report</h1>\n<div class='summary'>\n  <div class='card'><span class='badge green'>Unchanged</span> ";

/// From the count of unchanged functions to the count of modified ones.
pub const AFTER_UNCHANGED_COUNT: &'static str =
    "</div>\n  <div class='card'><span class='badge yellow'>Modified</span> ";

/// From the count of modified functions to the count of added ones.
pub const AFTER_MODIFIED_COUNT: &'static str =
    "</div>\n  <div class='card'><span class='badge blue'>Added</span> ";

/// From the count of added functions to the count of removed ones.
pub const AFTER_ADDED_COUNT: &'static str =
    "</div>\n  <div class='card'><span class='badge red'>Removed</span> ";

/// From the count of removed functions to the cards of the modified ones.
pub const AFTER_REMOVED_COUNT: &'static str =
    "</div>\n</div>\n\n<h2>Modified</h2>\n";

/// From the cards of the modified functions to the list of added ones.
pub const AFTER_MODIFIED_CARDS: &'static str =
    "\n\n<h2>Added</h2>\n<ul>\n";

/// From the list of added functions to the list of removed ones.
pub const AFTER_ADDED_ITEMS: &'static str =
    "\n</ul>\n\n<h2>Removed</h2>\n<ul>\n";

/// From the list of removed functions to the list of unchanged ones.
pub const AFTER_REMOVED_ITEMS: &'static str =
    "\n</ul>\n\n<h2>Unchanged</h2>\n<ul>\n";

/// The document after the list of unchanged functions.
pub const PAGE_TAIL: &'static str =
    "\n</ul>\n\n</body>\n</html>\n";

/// What one character becomes in HTML text: `&`, `<` and `>` become their
/// entities, every other character stays.
pub open spec fn escaped_char(c: char) -> Seq<char> {
    if c == '&' {
        "&amp;"@
    } else if c == '<' {
        "&lt;"@
    } else if c == '>' {
        "&gt;"@
    } else {
        seq![c]
    }
}

/// A text with each of its characters escaped for HTML.
pub open spec fn escaped(s: Seq<char>) -> Seq<char>
    decreases s.len(),
{
    if s.len() == 0 {
        Seq::empty()
    } else {
        escaped(s.drop_last()) + escaped_char(s.last())
    }
}

/// Whether `text` holds `part` from position `i` on.
pub open spec fn holds_at(text: Seq<char>, i: int, part: Seq<char>) -> bool {
    0 <= i && i + part.len() <= text.len() && text.subrange(i, i + part.len()) == part
}

/// Whether one of the three entities begins at position `i` of `text`.
pub open spec fn entity_at(text: Seq<char>, i: int) -> bool {
    holds_at(text, i, "&amp;"@) || holds_at(text, i, "&lt;"@) || holds_at(text, i, "&gt;"@)
}

/// An escaped text is safe to stand in HTML, whatever the text was: it
/// holds neither `<` nor `>`, and each `&` in it begins one of the entities
/// `&amp;`, `&lt;` and `&gt;`.
pub proof fn lemma_escaped_is_safe(s: Seq<char>)
    ensures
        forall|i: int|
            0 <= i < escaped(s).len() ==> #[trigger] escaped(s)[i] != '<' && escaped(s)[i] != '>',
        forall|i: int|
            0 <= i < escaped(s).len() && #[trigger] escaped(s)[i] == '&' ==> entity_at(escaped(s), i),
    decreases s.len(),
{
    reveal_strlit("&amp;");
    reveal_strlit("&lt;");
    reveal_strlit("&gt;");
    if s.len() > 0 {
        lemma_escaped_is_safe(s.drop_last());
        let head = escaped(s.drop_last());
        let tail = escaped_char(s.last());
        let all = head + tail;
        assert forall|i: int| 0 <= i < all.len() && #[trigger] all[i] == '&' implies entity_at(all, i) by {
            if i < head.len() {
                assert(head[i] == '&');
                assert(entity_at(head, i));
                assert forall|part: Seq<char>| holds_at(head, i, part) implies holds_at(all, i, part) by {
                    assert(all.subrange(i, i + part.len()) =~= head.subrange(i, i + part.len()));
                }
            } else {
                assert(tail[i - head.len()] == '&');
                assert(i == head.len());
                assert(all.subrange(i, i + tail.len()) =~= tail);
            }
        }
    }
}

/// Escapes `&`, `<` and `>` for use in HTML text.
pub fn escape_html(s: &str) -> (out: String)
    ensures
        out@ == escaped(s@),
{
    let mut out = String::new();
    for c in it: s.chars()
        invariant
            it.seq() == s@,
            out@ == escaped(s@.take(it.index() as int)),
    {
        let ghost before = s@.take(it.index() as int);
        let ghost after = s@.take(it.index() + 1);
        assert(after.drop_last() == before);
        assert(after.last() == c);
        if c == '&' {
            out.append("&amp;");
        } else if c == '<' {
            out.append("&lt;");
        } else if c == '>' {
            out.append("&gt;");
        } else {
            out.push(c);
        }
    }
    assert(s@.take(s@.len() as int) == s@);
    out
}

/// The parts one after the other.
pub open spec fn concat(parts: Seq<Seq<char>>) -> Seq<char>
    decreases parts.len(),
{
    if parts.len() == 0 {
        Seq::empty()
    } else {
        concat(parts.drop_last()) + parts.last()
    }
}

/// A name, or a question mark where there is none.
pub open spec fn name_or_unknown(name: Option<Seq<char>>) -> Seq<char> {
    match name {
        Some(n) => n,
        None => "?"@,
    }
}

/// The heading of a modified pair: the two names with an arrow between.
pub open spec fn pair_title(d: FunctionDeltaView) -> Seq<char> {
    name_or_unknown(d.name_a) + " \u{2192} "@ + name_or_unknown(d.name_b)
}

/// The line that tells the Hamming distance of a fuzzy pair; nothing for
/// any other kind.
pub open spec fn distance_line(kind: MatchKind) -> Seq<char> {
    match kind {
        MatchKind::Fuzzy { hamming } => "<div>SimHash Hamming distance: "@ + decimal(hamming as nat)
            + "</div>"@,
        _ => Seq::empty(),
    }
}

/// The collapsible block that shows a difference; nothing where there is
/// none.
pub open spec fn diff_block(diff: Option<Seq<char>>) -> Seq<char> {
    match diff {
        Some(text) => "<details open><summary>Unified diff</summary><pre>"@ + escaped(text)
            + "</pre></details>"@,
        None => Seq::empty(),
    }
}

/// The card of one modified pair.
pub open spec fn modified_card(d: FunctionDeltaView) -> Seq<char> {
    "<div class='fn card'>"@ + "<h3>"@ + escaped(pair_title(d)) + "</h3>"@ + distance_line(d.kind)
        + diff_block(d.unified_diff) + "</div>"@
}

/// The cards of the modified pairs, in order.
pub open spec fn modified_cards(ds: Seq<FunctionDeltaView>) -> Seq<char> {
    concat(Seq::new(ds.len(), |i: int| modified_card(ds[i])))
}

/// One entry of a flat list.
pub open spec fn list_item(name: Seq<char>) -> Seq<char> {
    "<li class='card fn'>"@ + escaped(name) + "</li>"@
}

/// The flat list of the side-A names of some records.
pub open spec fn items_by_name_a(ds: Seq<FunctionDeltaView>) -> Seq<char> {
    concat(Seq::new(ds.len(), |i: int| list_item(name_or_unknown(ds[i].name_a))))
}

/// The flat list of the side-B names of some records.
pub open spec fn items_by_name_b(ds: Seq<FunctionDeltaView>) -> Seq<char> {
    concat(Seq::new(ds.len(), |i: int| list_item(name_or_unknown(ds[i].name_b))))
}

/// The whole document for a comparison: the four counts, a card for each
/// modified pair, then the lists of added, removed and unchanged functions.
/// Every name and every difference stands in it escaped.
pub open spec fn html_of(r: DiffResultView) -> Seq<char> {
    PAGE_HEAD@ + decimal(r.unchanged.len()) + AFTER_UNCHANGED_COUNT@ + decimal(r.modified.len())
        + AFTER_MODIFIED_COUNT@ + decimal(r.added.len()) + AFTER_ADDED_COUNT@ + decimal(
        r.removed.len(),
    ) + AFTER_REMOVED_COUNT@ + modified_cards(r.modified) + AFTER_MODIFIED_CARDS@ + items_by_name_b(
        r.added,
    ) + AFTER_ADDED_ITEMS@ + items_by_name_a(r.removed) + AFTER_REMOVED_ITEMS@ + items_by_name_a(
        r.unchanged,
    ) + PAGE_TAIL@
}

fn unknown_or(name: &Option<String>) -> (out: String)
    ensures
        out@ == name_or_unknown(text_of(*name)),
{
    match name {
        Some(n) => n.clone(),
        None => String::from_str("?"),
    }
}

fn push_card(out: &mut String, d: &FunctionDelta)
    ensures
        final(out)@ == old(out)@ + modified_card(d@),
{
    let mut title = unknown_or(&d.name_a);
    title.append(" \u{2192} ");
    let name_b = unknown_or(&d.name_b);
    title.append(name_b.as_str());
    let ghost start = out@;
    out.append("<div class='fn card'>");
    out.append("<h3>");
    let heading = escape_html(title.as_str());
    out.append(heading.as_str());
    out.append("</h3>");
    match d.kind {
        MatchKind::Fuzzy { hamming } => {
            out.append("<div>SimHash Hamming distance: ");
            push_decimal(out, hamming as u64);
            out.append("</div>");
        },
        _ => {},
    }
    match &d.unified_diff {
        Some(text) => {
            out.append("<details open><summary>Unified diff</summary><pre>");
            let body = escape_html(text.as_str());
            out.append(body.as_str());
            out.append("</pre></details>");
        },
        None => {},
    }
    out.append("</div>");
    assert(out@ =~= start + modified_card(d@));
}

fn push_cards(out: &mut String, ds: &Vec<FunctionDelta>)
    ensures
        final(out)@ == old(out)@ + modified_cards(views(ds@)),
{
    let ghost start = out@;
    let ghost cards = Seq::new(ds.len() as nat, |i: int| modified_card(views(ds@)[i]));
    let mut i: usize = 0;
    while i < ds.len()
        invariant
            i <= ds.len(),
            cards == Seq::new(ds.len() as nat, |i: int| modified_card(views(ds@)[i])),
            out@ == start + concat(cards.take(i as int)),
        decreases ds.len() - i,
    {
        assert(cards.take(i + 1).drop_last() == cards.take(i as int));
        assert(cards.take(i + 1).last() == modified_card(ds@[i as int]@));
        push_card(out, &ds[i]);
        i = i + 1;
        assert(out@ =~= start + concat(cards.take(i as int)));
    }
    assert(cards.take(ds.len() as int) == cards);
}

fn push_items(out: &mut String, ds: &Vec<FunctionDelta>, side_b: bool)
    ensures
        final(out)@ == old(out)@ + if side_b {
            items_by_name_b(views(ds@))
        } else {
            items_by_name_a(views(ds@))
        },
{
    let ghost start = out@;
    let ghost items = Seq::new(
        ds.len() as nat,
        |i: int|
            list_item(
                name_or_unknown(
                    if side_b {
                        views(ds@)[i].name_b
                    } else {
                        views(ds@)[i].name_a
                    },
                ),
            ),
    );
    let mut i: usize = 0;
    while i < ds.len()
        invariant
            i <= ds.len(),
            items == Seq::new(
                ds.len() as nat,
                |i: int|
                    list_item(
                        name_or_unknown(
                            if side_b {
                                views(ds@)[i].name_b
                            } else {
                                views(ds@)[i].name_a
                            },
                        ),
                    ),
            ),
            out@ == start + concat(items.take(i as int)),
        decreases ds.len() - i,
    {
        assert(items.take(i + 1).drop_last() == items.take(i as int));
        let name = if side_b {
            unknown_or(&ds[i].name_b)
        } else {
            unknown_or(&ds[i].name_a)
        };
        assert(items.take(i + 1).last() == list_item(name@));
        out.append("<li class='card fn'>");
        let text = escape_html(name.as_str());
        out.append(text.as_str());
        out.append("</li>");
        i = i + 1;
        assert(out@ =~= start + concat(items.take(i as int)));
    }
    assert(items.take(ds.len() as int) == items);
    assert(side_b ==> items =~= Seq::new(
        ds.len() as nat,
        |i: int| list_item(name_or_unknown(views(ds@)[i].name_b)),
    ));
    assert(!side_b ==> items =~= Seq::new(
        ds.len() as nat,
        |i: int| list_item(name_or_unknown(views(ds@)[i].name_a)),
    ));
}

/// Renders a comparison as one self-contained HTML document.
///
/// The document shows the four counts, a card for each modified pair (its
/// two names, the Hamming distance and the difference), then the names of
/// the added, removed and unchanged functions. It never fails.
pub fn render_html(result: &DiffResult) -> (r: Result<String, ErrorKind>)
    ensures
        r is Ok,
        r->Ok_0@ == html_of(result@),
{
    let mut html = String::from_str(PAGE_HEAD);
    push_decimal(&mut html, result.unchanged.len() as u64);
    html.append(AFTER_UNCHANGED_COUNT);
    push_decimal(&mut html, result.modified.len() as u64);
    html.append(AFTER_MODIFIED_COUNT);
    push_decimal(&mut html, result.added.len() as u64);
    html.append(AFTER_ADDED_COUNT);
    push_decimal(&mut html, result.removed.len() as u64);
    html.append(AFTER_REMOVED_COUNT);
    push_cards(&mut html, &result.modified);
    html.append(AFTER_MODIFIED_CARDS);
    push_items(&mut html, &result.added, true);
    html.append(AFTER_ADDED_ITEMS);
    push_items(&mut html, &result.removed, false);
    html.append(AFTER_REMOVED_ITEMS);
    push_items(&mut html, &result.unchanged, false);
    html.append(PAGE_TAIL);
    assert(html@ =~= html_of(result@));
    Ok(html)
}

} // verus!
