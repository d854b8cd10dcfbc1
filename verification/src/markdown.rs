//! Text in Telegram's MarkdownV2 style: escaping, and the lines in which
//! listings are shown.

use vstd::prelude::*;
use vstd::string::*;
use crate::film::Film;
use crate::listing::{listing, Item, Listing};

verus! {

/// Whether `c` is one of the eighteen characters that the markup gives a
/// meaning of their own. The backslash is not among them.
pub open spec fn is_reserved(c: char) -> bool {
    c == '_' || c == '*' || c == '[' || c == ']' || c == '(' || c == ')' || c == '~' || c == '`'
        || c == '>' || c == '#' || c == '+' || c == '-' || c == '=' || c == '|' || c == '{' || c
        == '}' || c == '.' || c == '!'
}

/// `s` with a backslash put before each reserved character, and every other
/// character left as it is.
pub open spec fn escaped(s: Seq<char>) -> Seq<char>
    decreases s.len(),
{
    if s.len() == 0 {
        s
    } else if is_reserved(s.last()) {
        escaped(s.drop_last()) + seq!['\\', s.last()]
    } else {
        escaped(s.drop_last()).push(s.last())
    }
}

/// Calls `teloxide::utils::markdown::escape`, which replaces each of the
/// eighteen reserved characters in turn by a backslash and that character. No
/// replacement brings in a character that a later one looks for, so the result
/// is `escaped`. Not proved here.
#[verifier::external_body]
pub(crate) fn escape(s: &str) -> (r: String)
    ensures
        r@ == escaped(s@),
{
    teloxide::utils::markdown::escape(s)
}

/// One line of a listing: the identifier as a link to the escaped address,
/// three spaces, the escaped title.
pub open spec fn line(item: Item) -> Seq<char> {
    "["@ + item.0 + "]("@ + escaped(item.1.url) + ")   "@ + escaped(item.1.title)
}

/// The lines of a listing in its order, with a line feed between each two and
/// none at the end. An empty listing gives the empty text.
pub open spec fn lines(l: Listing) -> Seq<char>
    decreases l.len(),
{
    if l.len() == 0 {
        Seq::empty()
    } else if l.len() == 1 {
        line(l[0])
    } else {
        lines(l.drop_last()) + "\n"@ + line(l.last())
    }
}

/// Writes the line for one item.
pub fn render_line(id: &str, film: &Film) -> (text: String)
    ensures
        text@ == line((id@, film@)),
{
    let url = escape(film.url());
    let title = escape(film.title());
    let mut text = String::from_str("[");
    text.append(id);
    text.append("](");
    text.append(url.as_str());
    text.append(")   ");
    text.append(title.as_str());
    text
}

/// Writes the lines for `items`.
pub fn render(items: &Vec<(String, Film)>) -> (text: String)
    ensures
        text@ == lines(listing(items@)),
{
    let mut text = String::new();
    let n: usize = items.len();
    let mut i: usize = 0;
    while i < n
        invariant
            i <= n,
            n == items@.len(),
            text@ == lines(listing(items@).subrange(0, i as int)),
        decreases n - i,
    {
        let next = render_line(items[i].0.as_str(), &items[i].1);
        proof {
            let before = listing(items@).subrange(0, i as int);
            let upto = listing(items@).subrange(0, i + 1);
            assert(upto.drop_last() =~= before);
        }
        if i > 0 {
            text.append("\n");
        }
        text.append(next.as_str());
        i = i + 1;
    }
    proof {
        assert(listing(items@).subrange(0, n as int) =~= listing(items@));
    }
    text
}

} // verus!
