use vstd::prelude::*;

use crate::error::{Failure, LoadError};
use crate::text::chars_of;

verus! {

/// The abnormal dash glyph (U+2043, hyphen bullet).
pub const ABNORMAL_DASH: char = '\u{2043}';

/// The four curly quotation marks: left and right double, left and right single.
pub open spec fn is_smart_quote(c: char) -> bool {
    c == '\u{201C}' || c == '\u{201D}' || c == '\u{2018}' || c == '\u{2019}'
}

pub open spec fn has_abnormal_dash(t: Seq<char>) -> bool {
    exists|i: int| 0 <= i < t.len() && t[i] == ABNORMAL_DASH
}

pub open spec fn has_smart_quote(t: Seq<char>) -> bool {
    exists|i: int| 0 <= i < t.len() && is_smart_quote(#[trigger] t[i])
}

/// The text begins with the opening delimiter line `---\n`.
pub open spec fn opens(t: Seq<char>) -> bool {
    t.len() >= 4 && t[0] == '-' && t[1] == '-' && t[2] == '-' && t[3] == '\n'
}

/// Three dashes start at position `i`.
pub open spec fn dashes_at(t: Seq<char>, i: int) -> bool {
    0 <= i && i + 3 <= t.len() && t[i] == '-' && t[i + 1] == '-' && t[i + 2] == '-'
}

/// `i` is the first position after the opening line where three dashes start.
pub open spec fn closes_at(t: Seq<char>, i: int) -> bool {
    4 <= i && dashes_at(t, i) && forall|j: int| 4 <= j < i ==> !#[trigger] dashes_at(t, j)
}

pub open spec fn has_closing(t: Seq<char>) -> bool {
    exists|i: int| closes_at(t, i)
}

pub open spec fn closing_of(t: Seq<char>) -> int {
    choose|i: int| closes_at(t, i)
}

/// Where the body starts: past the closing dashes and the one character that
/// ends their line, if there is one.
pub open spec fn body_start(t: Seq<char>, i: int) -> int {
    if i + 4 <= t.len() {
        i + 4
    } else {
        t.len() as int
    }
}

/// What checking and framing a document's text yields: the front matter and
/// the body, or the first failure in the order dash, quotes, opening line,
/// closing line.
pub open spec fn framing(path: Seq<char>, t: Seq<char>) -> Result<(Seq<char>, Seq<char>), Failure> {
    if has_abnormal_dash(t) {
        Err(Failure::AbnormalDash(path))
    } else if has_smart_quote(t) {
        Err(Failure::SmartQuote(path))
    } else if !opens(t) {
        Err(Failure::MissingOpening(path))
    } else if !has_closing(t) {
        Err(Failure::MissingClosing(path))
    } else {
        Ok((t.subrange(4, closing_of(t)), t.subrange(body_start(t, closing_of(t)), t.len() as int)))
    }
}

/// A document split at its delimiters.
pub struct Framed {
    pub front_matter: String,
    pub body: String,
}

/// Whether the text holds a disallowed glyph: the abnormal dash is reported
/// before any smart quote.
pub fn check_hygiene(path: &str, chars: &Vec<char>) -> (r: Result<(), LoadError>)
    ensures
        match r {
            Ok(()) => !has_abnormal_dash(chars@) && !has_smart_quote(chars@),
            Err(e) => if has_abnormal_dash(chars@) {
                e@ == Failure::AbnormalDash(path@)
            } else {
                has_smart_quote(chars@) && e@ == Failure::SmartQuote(path@)
            },
        },
{
    let mut i: usize = 0;
    while i < chars.len()
        invariant
            i <= chars@.len(),
            forall|j: int| 0 <= j < i ==> chars@[j] != ABNORMAL_DASH,
        decreases chars@.len() - i,
    {
        if chars[i] == ABNORMAL_DASH {
            return Err(LoadError::AbnormalDash { path: path.to_owned() });
        }
        i += 1;
    }
    assert(!has_abnormal_dash(chars@));
    let mut i: usize = 0;
    while i < chars.len()
        invariant
            i <= chars@.len(),
            !has_abnormal_dash(chars@),
            forall|j: int| 0 <= j < i ==> !is_smart_quote(#[trigger] chars@[j]),
        decreases chars@.len() - i,
    {
        let c = chars[i];
        if c == '\u{201C}' || c == '\u{201D}' || c == '\u{2018}' || c == '\u{2019}' {
            return Err(LoadError::SmartQuote { path: path.to_owned() });
        }
        i += 1;
    }
    Ok(())
}

/// The first position at or after 4 where three dashes start.
fn find_closing(chars: &Vec<char>) -> (r: Option<usize>)
    ensures
        match r {
            Some(i) => closes_at(chars@, i as int),
            None => !has_closing(chars@),
        },
{
    let mut i: usize = 4;
    while i < chars.len() && chars.len() - i >= 3
        invariant
            4 <= i,
            forall|j: int| 4 <= j < i ==> !#[trigger] dashes_at(chars@, j),
        decreases chars@.len() - i,
    {
        if chars[i] == '-' && chars[i + 1] == '-' && chars[i + 2] == '-' {
            return Some(i);
        }
        i += 1;
    }
    proof {
        assert forall|k: int| !closes_at(chars@, k) by {
            if closes_at(chars@, k) && k >= i {
                assert(k + 3 <= chars@.len());
            }
        }
    }
    None
}

/// Checks a document's text and splits it into front matter and body.
pub fn frame_document(path: &str, text: &str) -> (r: Result<Framed, LoadError>)
    ensures
        match (r, framing(path@, text@)) {
            (Ok(f), Ok((m, b))) => f.front_matter@ == m && f.body@ == b,
            (Err(e), Err(g)) => e@ == g,
            _ => false,
        },
{
    let chars = chars_of(text);
    match check_hygiene(path, &chars) {
        Err(e) => return Err(e),
        Ok(()) => {},
    }
    let n = chars.len();
    if !(n >= 4 && chars[0] == '-' && chars[1] == '-' && chars[2] == '-' && chars[3] == '\n') {
        return Err(LoadError::MissingOpening { path: path.to_owned() });
    }
    match find_closing(&chars) {
        None => Err(LoadError::MissingClosing { path: path.to_owned() }),
        Some(i) => {
            proof {
                let t = text@;
                assert(closes_at(t, closing_of(t)));
                if closing_of(t) < i {
                    assert(!dashes_at(t, closing_of(t)));
                }
                if closing_of(t) > i {
                    assert(!dashes_at(t, i as int));
                }
            }
            let start = if n - i >= 4 { i + 4 } else { n };
            let front_matter = text.substring_char(4, i).to_owned();
            let body = text.substring_char(start, n).to_owned();
            Ok(Framed { front_matter, body })
        },
    }
}

/// The closing delimiter line as it stands in the text: the three dashes and
/// the character after them, if any.
pub open spec fn closing_line(t: Seq<char>) -> Seq<char> {
    t.subrange(closing_of(t), body_start(t, closing_of(t)))
}

/// Rejoining a framed document gives back its text exactly: the opening line,
/// the front matter, the closing delimiter line and the body. Where the
/// closing dashes end a line, that line is `---\n`.
pub proof fn lemma_round_trip(path: Seq<char>, t: Seq<char>)
    requires
        framing(path, t) is Ok,
    ensures
        ({
            let (m, b) = framing(path, t)->Ok_0;
            &&& t == "---\n"@ + m + closing_line(t) + b
            &&& closing_line(t).len() <= 4
            &&& closing_line(t).subrange(0, 3) == "---"@
            &&& closing_of(t) + 3 < t.len() && t[closing_of(t) + 3] == '\n' ==> closing_line(t)
                == "---\n"@
        }),
{
    reveal_strlit("---\n");
    reveal_strlit("---");
    let i = closing_of(t);
    assert(closes_at(t, i));
    let (m, b) = framing(path, t)->Ok_0;
    assert(t.subrange(0, 4) =~= "---\n"@);
    assert(t =~= t.subrange(0, 4) + m + closing_line(t) + b);
    assert(closing_line(t).subrange(0, 3) =~= "---"@);
    if i + 3 < t.len() && t[i + 3] == '\n' {
        assert(closing_line(t) =~= "---\n"@);
    }
}

/// A document that lacks the opening line, the empty one included, and holds
/// no disallowed glyph fails with the missing-opening error.
pub proof fn lemma_missing_opening(path: Seq<char>, t: Seq<char>)
    requires
        !opens(t),
        !has_abnormal_dash(t),
        !has_smart_quote(t),
    ensures
        framing(path, t) == Err::<(Seq<char>, Seq<char>), Failure>(Failure::MissingOpening(path)),
{
}

/// A document with the opening line but no closing dashes, and no disallowed
/// glyph, fails with the missing-closing error.
pub proof fn lemma_missing_closing(path: Seq<char>, t: Seq<char>)
    requires
        opens(t),
        !(exists|i: int| 4 <= i && #[trigger] dashes_at(t, i)),
        !has_abnormal_dash(t),
        !has_smart_quote(t),
    ensures
        framing(path, t) == Err::<(Seq<char>, Seq<char>), Failure>(Failure::MissingClosing(path)),
{
}

/// A document that holds the abnormal dash anywhere fails with the dash error,
/// whatever else it holds.
pub proof fn lemma_abnormal_dash(path: Seq<char>, t: Seq<char>, k: int)
    requires
        0 <= k < t.len(),
        t[k] == ABNORMAL_DASH,
    ensures
        framing(path, t) == Err::<(Seq<char>, Seq<char>), Failure>(Failure::AbnormalDash(path)),
{
}

/// A document that holds a curly quotation mark, and no abnormal dash, fails
/// with the quote error.
pub proof fn lemma_smart_quote(path: Seq<char>, t: Seq<char>, k: int)
    requires
        0 <= k < t.len(),
        is_smart_quote(t[k]),
        !has_abnormal_dash(t),
    ensures
        framing(path, t) == Err::<(Seq<char>, Seq<char>), Failure>(Failure::SmartQuote(path)),
{
}

} // verus!
