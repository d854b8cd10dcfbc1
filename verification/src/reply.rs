//! The message with which each outcome is answered.

use vstd::prelude::*;
use vstd::string::*;
use crate::command::{Action, Outcome, OutcomeView, Place};
use crate::film::{debug_text, describe, ValidationError};
use crate::markdown::{escape, escaped, line, lines, render, render_line};

verus! {

/// The catalogue of commands.
pub const HELP: &'static str = "🍿 Commands supported:\n\n\
/add — Append to tips\n\
/mv — Move to seen\n\
/rnd — Weekly challenge\n\
/rm — Remove from seen\n\
/ls — List tips\n\
/la — List all seen\n\
/who — Film info\n\
/help — Help message";

/// What is said when a film was filed.
pub const ADDED: &'static str = "👍 Film successfully added!";

/// What is said when a film was promoted.
pub const MOVED: &'static str = "👍 Film successfully moved";

/// What is said when a film was removed.
pub const REMOVED: &'static str = "👍 Film successfully removed";

/// What is said when nothing is pending, so that nothing can be picked.
pub const NOTHING_PENDING: &'static str = "⚠️ Random challenge failed, is *tips* empty?";

/// What is said of a payload that does not hold three fields.
pub const MALFORMED_INPUT: &'static str = "⚠️ Invalid items number: title,,,year,,,url";

/// What is said of a year that is no number in range.
pub const INVALID_YEAR: &'static str = "⚠️ Invalid film year: ∈ [1800, 2140]";

/// What is said of an address that is not secure.
pub const INSECURE_URL: &'static str = "⚠️ Add failed, invalid film url";

/// What is said when no pending film has the identifier.
pub const MOVE_NOT_FOUND: &'static str = "⚠️ Move failed, invalid film id";

/// What is said when no completed film has the identifier.
pub const REMOVE_NOT_FOUND: &'static str = "⚠️ Remove failed, invalid film id";

/// What is said when no film has the identifier.
pub const INFO_NOT_FOUND: &'static str = "⚠️ Info failed, invalid film id";

/// How `add` is used.
pub const ADD_USAGE: &'static str = "ℹ️ Usage:   /add <title>,,,<year>,,,<url>";

/// How `mv` is used.
pub const MOVE_USAGE: &'static str = "ℹ️ Usage:   /mv <tips film id>";

/// How `rm` is used.
pub const REMOVE_USAGE: &'static str = "ℹ️ Usage:   /rm <seen film id>";

/// How `who` is used.
pub const INFO_USAGE: &'static str = "ℹ️ Usage:   /who <film id>";

/// What stands above a film that was picked.
pub const PICKED_HEADING: &'static str = "🎲✨ *Weekly challenge*\n\n";

/// What stands above the pending films.
pub const PENDING_HEADING: &'static str = "📌 *Tips*\n\n";

/// What stands above the completed films.
pub const COMPLETED_HEADING: &'static str = "✅ *Seen*\n\n";

/// What stands before the identifier of a film that is described.
pub const INFO_OPENING: &'static str = "ℹ️ *Who is ";

/// What stands between that identifier and the description.
pub const INFO_CLOSING: &'static str = "?*\n\n";

/// A message for the user.
#[derive(Debug, PartialEq, Eq)]
pub struct Reply {
    /// What the message says.
    pub text: String,
    /// Whether the text is written in MarkdownV2.
    pub markup: bool,
    /// Whether a preview of the links in it may be shown.
    pub preview: bool,
}

/// What a reply is, as plain values.
pub struct ReplyView {
    pub text: Seq<char>,
    pub markup: bool,
    pub preview: bool,
}

impl View for Reply {
    type V = ReplyView;

    open spec fn view(&self) -> ReplyView {
        ReplyView { text: self.text@, markup: self.markup, preview: self.preview }
    }
}

/// The hint for a command that came without its argument.
pub open spec fn usage_text(action: Action) -> Seq<char> {
    match action {
        Action::Add => ADD_USAGE@,
        Action::Move => MOVE_USAGE@,
        Action::Remove => REMOVE_USAGE@,
        Action::Info => INFO_USAGE@,
    }
}

/// The complaint about an identifier that was not found.
pub open spec fn not_found_text(place: Place) -> Seq<char> {
    match place {
        Place::Pending => MOVE_NOT_FOUND@,
        Place::Completed => REMOVE_NOT_FOUND@,
        Place::Anywhere => INFO_NOT_FOUND@,
    }
}

/// The complaint about a film that was turned away.
pub open spec fn rejection_text(e: ValidationError) -> Seq<char> {
    match e {
        ValidationError::MalformedInput => MALFORMED_INPUT@,
        ValidationError::InvalidYear => INVALID_YEAR@,
        ValidationError::InsecureUrl => INSECURE_URL@,
    }
}

/// What the reply to an outcome says. A film is shown as its line in a
/// listing, and described by its escaped debug text.
pub open spec fn message(o: OutcomeView) -> Seq<char> {
    match o {
        OutcomeView::Added(_) => ADDED@,
        OutcomeView::Rejected(e) => rejection_text(e),
        OutcomeView::Moved => MOVED@,
        OutcomeView::Removed => REMOVED@,
        OutcomeView::Picked(id, film) => PICKED_HEADING@ + line((id, film)),
        OutcomeView::Empty => NOTHING_PENDING@,
        OutcomeView::Pending(items) => PENDING_HEADING@ + lines(items),
        OutcomeView::Completed(items) => COMPLETED_HEADING@ + lines(items),
        OutcomeView::Info(id, film) => INFO_OPENING@ + id + INFO_CLOSING@ + escaped(
            debug_text(film.title, film.year, film.url),
        ),
        OutcomeView::NotFound(place) => not_found_text(place),
        OutcomeView::Usage(action) => usage_text(action),
        OutcomeView::Help => HELP@,
    }
}

/// Whether the reply to an outcome is written in MarkdownV2: those that show
/// films are, and so is the one that found nothing to pick.
pub open spec fn marked_up(o: OutcomeView) -> bool {
    o is Picked || o is Empty || o is Pending || o is Completed || o is Info
}

/// Whether links in the reply may be previewed: not in the two listings.
pub open spec fn previewed(o: OutcomeView) -> bool {
    !(o is Pending || o is Completed)
}

/// The reply to an outcome.
pub open spec fn reply_to(o: OutcomeView) -> ReplyView {
    ReplyView { text: message(o), markup: marked_up(o), preview: previewed(o) }
}

/// The hint for a command that came without its argument.
fn usage(action: Action) -> (text: &'static str)
    ensures
        text@ == usage_text(action),
{
    match action {
        Action::Add => ADD_USAGE,
        Action::Move => MOVE_USAGE,
        Action::Remove => REMOVE_USAGE,
        Action::Info => INFO_USAGE,
    }
}

/// The complaint about an identifier that was not found.
fn not_found(place: Place) -> (text: &'static str)
    ensures
        text@ == not_found_text(place),
{
    match place {
        Place::Pending => MOVE_NOT_FOUND,
        Place::Completed => REMOVE_NOT_FOUND,
        Place::Anywhere => INFO_NOT_FOUND,
    }
}

/// The complaint about a film that was turned away.
fn rejection(e: ValidationError) -> (text: &'static str)
    ensures
        text@ == rejection_text(e),
{
    match e {
        ValidationError::MalformedInput => MALFORMED_INPUT,
        ValidationError::InvalidYear => INVALID_YEAR,
        ValidationError::InsecureUrl => INSECURE_URL,
    }
}

/// A message in plain text, whose links may be previewed.
fn plain(text: &str) -> (r: Reply)
    ensures
        r@ == (ReplyView { text: text@, markup: false, preview: true }),
{
    Reply { text: String::from_str(text), markup: false, preview: true }
}

impl Outcome {
    /// The message with which this outcome is answered.
    pub fn reply(&self) -> (r: Reply)
        ensures
            r@ == reply_to(self@),
    {
        match self {
            Outcome::Added(_) => plain(ADDED),
            Outcome::Rejected(e) => plain(rejection(*e)),
            Outcome::Moved => plain(MOVED),
            Outcome::Removed => plain(REMOVED),
            Outcome::Picked(id, film) => {
                let mut text = String::from_str(PICKED_HEADING);
                let shown = render_line(id.as_str(), film);
                text.append(shown.as_str());
                Reply { text, markup: true, preview: true }
            },
            Outcome::Empty => Reply {
                text: String::from_str(NOTHING_PENDING),
                markup: true,
                preview: true,
            },
            Outcome::Pending(items) => {
                let mut text = String::from_str(PENDING_HEADING);
                let shown = render(items);
                text.append(shown.as_str());
                Reply { text, markup: true, preview: false }
            },
            Outcome::Completed(items) => {
                let mut text = String::from_str(COMPLETED_HEADING);
                let shown = render(items);
                text.append(shown.as_str());
                Reply { text, markup: true, preview: false }
            },
            Outcome::Info(id, film) => {
                let described = describe(film);
                let shown = escape(described.as_str());
                let mut text = String::from_str(INFO_OPENING);
                text.append(id.as_str());
                text.append(INFO_CLOSING);
                text.append(shown.as_str());
                Reply { text, markup: true, preview: true }
            },
            Outcome::NotFound(place) => plain(not_found(*place)),
            Outcome::Usage(action) => plain(usage(*action)),
            Outcome::Help => plain(HELP),
        }
    }
}

} // verus!
