//! Line-level differences between two texts.

use crate::model::views;
use vstd::prelude::*;
use vstd::string::StringExecFns;

verus! {

/// What happened to one line between the old text and the new one.
#[derive(Debug, Clone, Copy, PartialEq, Eq, Structural)]
pub enum LineTag {
    /// The line stands only in the old text.
    Delete,
    /// The line stands only in the new text.
    Insert,
    /// The line stands in both.
    Equal,
}

/// One line of a difference: its tag and its text.
#[derive(Debug, Clone)]
pub struct LineChange {
    pub tag: LineTag,
    pub text: String,
}

/// Mathematical model of a [`LineChange`].
pub struct LineChangeView {
    pub tag: LineTag,
    pub text: Seq<char>,
}

impl View for LineChange {
    type V = LineChangeView;

    open spec fn view(&self) -> LineChangeView {
        LineChangeView { tag: self.tag, text: self.text@ }
    }
}

/// The changes that the line differ of the `similar` crate reports for two
/// texts, in its order; the text of each change is the line as the crate
/// displays it, which ends in a line break.
pub uninterp spec fn line_changes(old: Seq<char>, new: Seq<char>) -> Seq<LineChangeView>;

/// Runs `similar::TextDiff::from_lines` on the two texts and hands out every
/// change of `iter_all_changes`, each with its tag and its displayed text.
///
/// Nothing is proved of the differ: the result is only given its name,
/// [`line_changes`], which depends on the two texts alone (the differ runs
/// without a deadline).
#[verifier::external_body]
fn diff_lines(old: &str, new: &str) -> (changes: Vec<LineChange>)
    ensures
        views(changes@) == line_changes(old@, new@),
{
    similar::TextDiff::from_lines(old, new)
        .iter_all_changes()
        .map(|c| LineChange {
            tag: match c.tag() {
                similar::ChangeTag::Delete => LineTag::Delete,
                similar::ChangeTag::Insert => LineTag::Insert,
                similar::ChangeTag::Equal => LineTag::Equal,
            },
            text: c.to_string(),
        })
        .collect()
}

/// The sign that a rendered change begins with.
pub open spec fn sign_of(tag: LineTag) -> char {
    match tag {
        LineTag::Delete => '-',
        LineTag::Insert => '+',
        LineTag::Equal => ' ',
    }
}

/// One change as text: its sign, its text, a line break.
pub open spec fn rendered_change(change: LineChangeView) -> Seq<char> {
    seq![sign_of(change.tag)] + change.text + seq!['\n']
}

/// The changes as text, one after the other.
pub open spec fn rendered_changes(changes: Seq<LineChangeView>) -> Seq<char>
    decreases changes.len(),
{
    if changes.len() == 0 {
        Seq::empty()
    } else {
        rendered_changes(changes.drop_last()) + rendered_change(changes.last())
    }
}

/// Renders a list of changes: each contributes its sign (`-`, `+` or a
/// space), its text and a line break.
pub fn render_changes(changes: &Vec<LineChange>) -> (out: String)
    ensures
        out@ == rendered_changes(views(changes@)),
{
    let mut out = String::new();
    let mut i: usize = 0;
    while i < changes.len()
        invariant
            i <= changes.len(),
            out@ == rendered_changes(views(changes@).take(i as int)),
        decreases changes.len() - i,
    {
        let ghost after = views(changes@).take(i + 1);
        assert(after.drop_last() == views(changes@).take(i as int));
        assert(after.last() == changes@[i as int]@);
        let sign = match changes[i].tag {
            LineTag::Delete => '-',
            LineTag::Insert => '+',
            LineTag::Equal => ' ',
        };
        out.push(sign);
        out.append(changes[i].text.as_str());
        out.push('\n');
        i = i + 1;
    }
    assert(views(changes@).take(changes.len() as int) == views(changes@));
    out
}

/// The line-level difference of two texts, rendered.
pub open spec fn text_diff(old: Seq<char>, new: Seq<char>) -> Seq<char> {
    rendered_changes(line_changes(old, new))
}

/// Computes the line-level difference between `old` and `new` and renders
/// it with [`render_changes`].
pub fn diff_text(old: &str, new: &str) -> (out: String)
    ensures
        out@ == text_diff(old@, new@),
{
    let changes = diff_lines(old, new);
    render_changes(&changes)
}

} // verus!
