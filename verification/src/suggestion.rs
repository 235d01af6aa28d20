//! The classification verdict for one observed name: matching, missing or
//! bad, with ordered diagnostic comments, and stable textual renderings of
//! both (plain and Markdown-escaped).
use crate::strings::{join_strings, spec_join, strs_view};
use vstd::prelude::*;
use vstd::string::StringExecFns;

verus! {

/// One diagnostic comment attached to a verdict.
#[derive(Debug, Clone, PartialEq)]
pub enum SuggestionComment {
    WrongCase,
    Similar(Vec<String>),
    Extends(String),
    Deprecated(String),
    NoNamespace,
}

/// The verdict for one observed name.
#[derive(Debug, Clone, PartialEq)]
pub enum Suggestion {
    Matching,
    Missing(Vec<SuggestionComment>),
    Bad(Vec<SuggestionComment>),
}

/// The mathematical value of a comment: the same variants over character
/// sequences.
pub enum CommentView {
    WrongCase,
    Similar(Seq<Seq<char>>),
    Extends(Seq<char>),
    Deprecated(Seq<char>),
    NoNamespace,
}

/// The mathematical value of a verdict.
pub enum SuggestionView {
    Matching,
    Missing(Seq<CommentView>),
    Bad(Seq<CommentView>),
}

impl View for SuggestionComment {
    type V = CommentView;

    open spec fn view(&self) -> CommentView {
        match self {
            SuggestionComment::WrongCase => CommentView::WrongCase,
            SuggestionComment::Similar(v) => CommentView::Similar(strs_view(v@)),
            SuggestionComment::Extends(s) => CommentView::Extends(s@),
            SuggestionComment::Deprecated(s) => CommentView::Deprecated(s@),
            SuggestionComment::NoNamespace => CommentView::NoNamespace,
        }
    }
}

/// The views of a sequence of comments.
pub open spec fn comments_view(cs: Seq<SuggestionComment>) -> Seq<CommentView> {
    cs.map_values(|c: SuggestionComment| c@)
}

impl View for Suggestion {
    type V = SuggestionView;

    open spec fn view(&self) -> SuggestionView {
        match self {
            Suggestion::Matching => SuggestionView::Matching,
            Suggestion::Missing(cs) => SuggestionView::Missing(comments_view(cs@)),
            Suggestion::Bad(cs) => SuggestionView::Bad(comments_view(cs@)),
        }
    }
}

/// The stable short name of a verdict.
pub open spec fn spec_suggestion_name(s: SuggestionView) -> Seq<char> {
    match s {
        SuggestionView::Matching => "Matching"@,
        SuggestionView::Missing(_) => "Missing"@,
        SuggestionView::Bad(_) => "Bad"@,
    }
}

/// The Markdown rendering of a comment.
pub open spec fn spec_comment_markdown(c: CommentView) -> Seq<char> {
    match c {
        CommentView::WrongCase => "WrongCase"@,
        CommentView::NoNamespace => "NoNamespace"@,
        CommentView::Similar(v) => "Similar to `"@ + spec_join(v, "`, `"@) + "`"@,
        CommentView::Extends(s) => "Extends `"@ + s + "`"@,
        CommentView::Deprecated(s) => "Deprecated: "@ + s,
    }
}

/// The plain rendering of a comment.
pub open spec fn spec_comment_text(c: CommentView) -> Seq<char> {
    match c {
        CommentView::WrongCase => "WrongCase"@,
        CommentView::NoNamespace => "NoNamespace"@,
        CommentView::Similar(v) => "Similar to "@ + spec_join(v, " "@),
        CommentView::Extends(s) => "Extends "@ + s,
        CommentView::Deprecated(s) => "Deprecated: "@ + s,
    }
}

/// One comment rendered in the requested style.
pub open spec fn spec_comment_string(c: CommentView, markdown: bool) -> Seq<char> {
    if markdown {
        spec_comment_markdown(c)
    } else {
        spec_comment_text(c)
    }
}

/// A verdict's comments rendered in the requested style and joined with
/// `"; "`; empty for a matching verdict.
pub open spec fn spec_comments_string(s: SuggestionView, markdown: bool) -> Seq<char> {
    match s {
        SuggestionView::Matching => Seq::empty(),
        SuggestionView::Missing(cs) => spec_join(
            cs.map_values(|c: CommentView| spec_comment_string(c, markdown)),
            "; "@,
        ),
        SuggestionView::Bad(cs) => spec_join(
            cs.map_values(|c: CommentView| spec_comment_string(c, markdown)),
            "; "@,
        ),
    }
}

impl SuggestionComment {
    /// Renders the comment for a Markdown table cell.
    pub fn to_markdown(&self) -> (r: String)
        ensures
            r@ == spec_comment_markdown(self@),
    {
        match self {
            SuggestionComment::WrongCase => "WrongCase".to_owned(),
            SuggestionComment::NoNamespace => "NoNamespace".to_owned(),
            SuggestionComment::Similar(v) => {
                let mut r = String::from_str("Similar to `");
                let joined = join_strings(v, "`, `");
                r.append(joined.as_str());
                r.append("`");
                r
            },
            SuggestionComment::Extends(s) => {
                let mut r = String::from_str("Extends `");
                r.append(s.as_str());
                r.append("`");
                r
            },
            SuggestionComment::Deprecated(s) => {
                let mut r = String::from_str("Deprecated: ");
                r.append(s.as_str());
                r
            },
        }
    }

    /// Renders the comment as plain text.
    pub fn to_text(&self) -> (r: String)
        ensures
            r@ == spec_comment_text(self@),
    {
        match self {
            SuggestionComment::WrongCase => "WrongCase".to_owned(),
            SuggestionComment::NoNamespace => "NoNamespace".to_owned(),
            SuggestionComment::Similar(v) => {
                let mut r = String::from_str("Similar to ");
                let joined = join_strings(v, " ");
                r.append(joined.as_str());
                r
            },
            SuggestionComment::Extends(s) => {
                let mut r = String::from_str("Extends ");
                r.append(s.as_str());
                r
            },
            SuggestionComment::Deprecated(s) => {
                let mut r = String::from_str("Deprecated: ");
                r.append(s.as_str());
                r
            },
        }
    }
}

impl Suggestion {
    /// The stable short name of the verdict.
    pub fn get_name(&self) -> (r: String)
        ensures
            r@ == spec_suggestion_name(self@),
    {
        match self {
            Suggestion::Matching => "Matching".to_owned(),
            Suggestion::Missing(_) => "Missing".to_owned(),
            Suggestion::Bad(_) => "Bad".to_owned(),
        }
    }

    /// Renders the comments in the requested style, joined with `"; "`.
    pub fn get_comments_string(&self, markdown: bool) -> (r: String)
        ensures
            r@ == spec_comments_string(self@, markdown),
    {
        match self {
            Suggestion::Matching => String::new(),
            Suggestion::Missing(comments) => render_comments(comments, markdown),
            Suggestion::Bad(comments) => render_comments(comments, markdown),
        }
    }
}

/// Renders each comment in the requested style and joins the pieces.
fn render_comments(comments: &Vec<SuggestionComment>, markdown: bool) -> (r: String)
    ensures
        r@ == spec_join(
            comments_view(comments@).map_values(|c: CommentView| spec_comment_string(c, markdown)),
            "; "@,
        ),
{
    let mut parts: Vec<String> = Vec::new();
    let mut i: usize = 0;
    while i < comments.len()
        invariant
            i <= comments@.len(),
            strs_view(parts@) =~= comments_view(comments@).map_values(
                |c: CommentView| spec_comment_string(c, markdown),
            ).take(i as int),
        decreases comments@.len() - i,
    {
        let piece = if markdown {
            comments[i].to_markdown()
        } else {
            comments[i].to_text()
        };
        parts.push(piece);
        i += 1;
        proof {
            let mapped = comments_view(comments@).map_values(
                |c: CommentView| spec_comment_string(c, markdown),
            );
            assert(mapped[i - 1] == spec_comment_string(comments@[i - 1]@, markdown));
            assert(mapped.take(i as int) =~= mapped.take(i - 1).push(mapped[i - 1]));
            assert(strs_view(parts@) =~= strs_view(parts@.drop_last()).push(piece@));
        }
    }
    proof {
        assert(comments_view(comments@).map_values(
            |c: CommentView| spec_comment_string(c, markdown),
        ).take(comments@.len() as int) =~= comments_view(comments@).map_values(
            |c: CommentView| spec_comment_string(c, markdown),
        ));
    }
    join_strings(&parts, "; ")
}


/// A run of spaces.
pub open spec fn spec_spaces(n: int) -> Seq<char> {
    Seq::new(if n < 0 { 0 } else { n } as nat, |i: int| ' ')
}

/// The verdict name padded with spaces to the report column width of seven.
pub open spec fn spec_pad_name(s: Seq<char>) -> Seq<char> {
    if s.len() >= 7 {
        s
    } else {
        s + spec_spaces(7 - s.len())
    }
}

/// One line of the console report: a matching verdict is its name alone;
/// any other verdict is its padded name, two spaces, and its plain
/// comments.
pub open spec fn spec_suggestion_line(s: SuggestionView) -> Seq<char> {
    match s {
        SuggestionView::Matching => "Matching"@,
        SuggestionView::Missing(_) => spec_pad_name(spec_suggestion_name(s)) + "  "@
            + spec_comments_string(s, false),
        SuggestionView::Bad(_) => spec_pad_name(spec_suggestion_name(s)) + "  "@
            + spec_comments_string(s, false),
    }
}

impl Suggestion {
    /// Renders the verdict as one line of the console report.
    pub fn to_text(&self) -> (r: String)
        ensures
            r@ == spec_suggestion_line(self@),
    {
        match self {
            Suggestion::Matching => "Matching".to_owned(),
            _ => {
                let ghost nm = spec_suggestion_name(self@);
                let mut r = self.get_name();
                let mut n = r.as_str().unicode_len();
                while n < 7
                    invariant
                        n == r@.len(),
                        nm.len() <= n,
                        nm.len() < 7 ==> n <= 7,
                        nm.len() >= 7 ==> n == nm.len(),
                        r@ =~= nm + spec_spaces(n - nm.len()),
                    decreases 7 - n,
                {
                    r.push(' ');
                    n += 1;
                    proof {
                        assert(r@ =~= nm + spec_spaces(n - nm.len()));
                    }
                }
                proof {
                    assert(r@ =~= spec_pad_name(nm));
                }
                r.append("  ");
                let comments = self.get_comments_string(false);
                r.append(comments.as_str());
                r
            },
        }
    }
}

} // verus!
