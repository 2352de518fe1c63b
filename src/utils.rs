//! Formatting helpers: dates, reading time, slugs, truncation, links.
use vstd::prelude::*;
use vstd::string::StringSliceAdditionalSpecFns;
use vstd::utf8::{decode_utf8, encode_utf8_decode_utf8, is_char_boundary};

use crate::github_api::{is_web_url, is_web_url_exec};
use crate::text::{
    chars_of, concat_str, count_words, join_chars, join_with, lower_of, pieces_by, split_runs,
    string_from_chars, to_lowercase, word_count,
};

pub use crate::markdown_loader::markdown_to_html;

verus! {

/// A date string as it is displayed: unchanged.
pub fn format_date(date_str: &str) -> (r: String)
    ensures
        r@ == date_str@,
{
    date_str.to_owned()
}

/// Minutes to read `words` words at 200 words a minute, rounded up, at least
/// one (and at most `u32::MAX`).
pub open spec fn reading_minutes(words: nat) -> u32 {
    let m = (words + 199) / 200;
    if m < 1 {
        1
    } else if m > u32::MAX {
        u32::MAX
    } else {
        m as u32
    }
}

/// Minutes to read `content`: its words at 200 a minute, rounded up, at least one.
pub fn calculate_reading_time(content: &str) -> (r: u32)
    ensures
        r == reading_minutes(word_count(content@)),
{
    let words = count_words(content);
    let minutes = words / 200 + if words % 200 > 0 {
        1usize
    } else {
        0usize
    };
    assert(minutes == (words + 199) / 200) by (nonlinear_arith)
        requires
            minutes == words / 200 + if words % 200 > 0 {
                1int
            } else {
                0int
            },
            words >= 0,
    ;
    if minutes < 1 {
        1
    } else if minutes > u32::MAX as usize {
        u32::MAX
    } else {
        minutes as u32
    }
}

/// Minutes to read `content`, as [`calculate_reading_time`] counts them.
pub fn calculate_read_time(content: &str) -> (r: u32)
    ensures
        r == reading_minutes(word_count(content@)),
{
    calculate_reading_time(content)
}

// ---------------------------------------------------------------------------
// Slugs
// ---------------------------------------------------------------------------

/// What `char::is_alphanumeric` says of a character.
pub uninterp spec fn alphanumeric(c: char) -> bool;

/// Relies on `char::is_alphanumeric`: whether the character is alphabetic or
/// numeric in Unicode's tables.
#[verifier::external_body]
fn is_alphanumeric(c: char) -> (r: bool)
    ensures
        r == alphanumeric(c),
{
    c.is_alphanumeric()
}

/// The characters that separate the words of a slug.
pub open spec fn slug_separator() -> spec_fn(char) -> bool {
    |c: char| !alphanumeric(c)
}

/// The slug of an already lower-cased title: its runs of alphanumeric
/// characters joined by `-`.
pub open spec fn slug_of(lowered: Seq<char>) -> Seq<char> {
    join_with(pieces_by(lowered, slug_separator()), '-')
}

/// The URL slug of a title: lower-cased, with each run of other characters
/// than letters and digits replaced by a single `-`, none at either end.
pub fn slugify(title: &str) -> (r: String)
    ensures
        r@ == slug_of(lower_of(title@)),
{
    let lowered = to_lowercase(title);
    let cs = chars_of(lowered.as_str());
    let mut seps: Vec<bool> = Vec::new();
    let mut i: usize = 0;
    while i < cs.len()
        invariant
            i <= cs@.len(),
            seps@.len() == i,
            forall|k: int| 0 <= k < i ==> seps@[k] == slug_separator()(cs@[k]),
        decreases cs@.len() - i,
    {
        let alnum = is_alphanumeric(cs[i]);
        seps.push(!alnum);
        i = i + 1;
    }
    let pieces = split_runs(&cs, &seps, Ghost(slug_separator()));
    let joined = join_chars(&pieces, '-');
    string_from_chars(joined.as_slice())
}

// ---------------------------------------------------------------------------
// Truncation
// ---------------------------------------------------------------------------

/// Where a too-long text is cut: three bytes before the limit, or at 0.
pub open spec fn cut_at(max_len: usize) -> int {
    if max_len >= 3 {
        max_len - 3
    } else {
        0
    }
}

/// The part of `text` before byte `mid`, which is a character boundary.
fn prefix_bytes(text: &str, mid: usize) -> (r: String)
    requires
        is_char_boundary(text.spec_bytes(), mid as int),
    ensures
        r@ == decode_utf8(text.spec_bytes().subrange(0, mid as int)),
{
    let (head, _) = text.split_at(mid);
    proof {
        encode_utf8_decode_utf8(head@);
    }
    head.to_owned()
}

/// `text` if it is at most `max_len` bytes long; otherwise its first
/// `max_len - 3` bytes followed by `...`.
pub fn truncate(text: &str, max_len: usize) -> (r: String)
    requires
        text.spec_bytes().len() <= usize::MAX,
        text.spec_bytes().len() > max_len ==> is_char_boundary(text.spec_bytes(), cut_at(max_len)),
    ensures
        text.spec_bytes().len() <= max_len ==> r@ == text@,
        text.spec_bytes().len() > max_len ==> r@ == decode_utf8(text.spec_bytes().subrange(0, cut_at(max_len)))
            + "..."@,
{
    if text.len() <= max_len {
        text.to_owned()
    } else {
        let mid = if max_len >= 3 {
            max_len - 3
        } else {
            0
        };
        let head = prefix_bytes(text, mid);
        concat_str(head.as_str(), "...")
    }
}

/// [`truncate`] under another name.
pub fn truncate_string(text: &str, max_len: usize) -> (r: String)
    requires
        text.spec_bytes().len() <= usize::MAX,
        text.spec_bytes().len() > max_len ==> is_char_boundary(text.spec_bytes(), cut_at(max_len)),
    ensures
        text.spec_bytes().len() <= max_len ==> r@ == text@,
        text.spec_bytes().len() > max_len ==> r@ == decode_utf8(text.spec_bytes().subrange(0, cut_at(max_len)))
            + "..."@,
{
    truncate(text, max_len)
}

/// Whether a link leaves the site: it starts with `http://` or `https://`.
pub fn is_external_link(url: &str) -> (r: bool)
    ensures
        r == is_web_url(url@),
{
    is_web_url_exec(url)
}

} // verus!
