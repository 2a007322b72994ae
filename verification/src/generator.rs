//! The slug generator: from a title and a date to the base slug.

use crate::clock::Timestamp;
use crate::digits::{lemma_padded_digits, padded, push_padded};
use vstd::prelude::*;

verus! {

/// How many characters of a title go into its slug.
pub const TITLE_CHARS: usize = 26;

/// What `slug::slugify` makes of a text.
pub uninterp spec fn slugified(text: Seq<char>) -> Seq<char>;

/// A character that may stand in a slug: a lower-case letter, a digit or a
/// hyphen.
pub open spec fn slug_char(c: char) -> bool {
    ||| 'a' <= c <= 'z'
    ||| '0' <= c <= '9'
    ||| c == '-'
}

/// Every character of the text may stand in a URL path as it is.
pub open spec fn url_safe(text: Seq<char>) -> bool {
    forall|i: int| 0 <= i < text.len() ==> slug_char(#[trigger] text[i])
}

/// Calls `slug::slugify`, which transliterates the text to ASCII, lowers its
/// letters and joins the runs of letters and digits with single hyphens.
///
/// The result is named, not spelled out; of its shape the contract repeats
/// what the function's documentation promises: only `a`-`z`, `0`-`9` and `-`.
#[verifier::external_body]
fn slugify(text: &str) -> (slug: String)
    ensures
        slug@ == slugified(text@),
        url_safe(slug@),
{
    slug::slugify(text)
}

/// The part of a title that its slug is made from: its first
/// [`TITLE_CHARS`] characters, or all of it if it has fewer.
pub open spec fn title_head(title: Seq<char>) -> Seq<char> {
    if title.len() > TITLE_CHARS {
        title.subrange(0, TITLE_CHARS as int)
    } else {
        title
    }
}

/// The year as a slug writes it: four digits, more for a year past 9999; a
/// year before 0 has its minus sign in place of the first digit.
pub open spec fn year_text(year: int) -> Seq<char> {
    if year < 0 {
        seq!['-'] + padded((-year) as nat, 3)
    } else {
        padded(year as nat, 4)
    }
}

/// The date suffix of a slug: `-YYYY-MM-DD`.
pub open spec fn date_suffix(year: int, month: nat, day: nat) -> Seq<char> {
    seq!['-'] + year_text(year) + seq!['-'] + padded(month, 2) + seq!['-'] + padded(day, 2)
}

/// The base slug of a title on a date.
pub open spec fn base_slug(title: Seq<char>, year: int, month: nat, day: nat) -> Seq<char> {
    slugified(title_head(title)) + date_suffix(year, month, day)
}

/// The first [`TITLE_CHARS`] characters of a title. Characters are counted,
/// not bytes, so no character is cut in two.
pub fn head_of_title(title: &str) -> (head: &str)
    ensures
        head@ == title_head(title@),
{
    if title.unicode_len() > TITLE_CHARS {
        title.substring_char(0, TITLE_CHARS)
    } else {
        title
    }
}

/// Appends the date suffix `-YYYY-MM-DD` to `out`.
pub fn push_date_suffix(out: &mut String, year: i32, month: u32, day: u32)
    ensures
        final(out)@ == old(out)@ + date_suffix(year as int, month as nat, day as nat),
{
    proof {
        reveal_strlit("-");
    }
    out.append("-");
    if year < 0 {
        out.append("-");
        let magnitude: u64 = (-(year as i64)) as u64;
        push_padded(out, magnitude, 3);
    } else {
        push_padded(out, year as u64, 4);
    }
    out.append("-");
    push_padded(out, month as u64, 2);
    out.append("-");
    push_padded(out, day as u64, 2);
    proof {
        assert("-"@ =~= seq!['-']);
        assert(out@ =~= old(out)@ + date_suffix(year as int, month as nat, day as nat));
    }
}

/// A date suffix holds digits and hyphens only.
pub proof fn lemma_date_suffix_url_safe(year: int, month: nat, day: nat)
    ensures
        url_safe(date_suffix(year, month, day)),
{
    lemma_padded_digits((-year) as nat, 3);
    lemma_padded_digits(year as nat, 4);
    lemma_padded_digits(month, 2);
    lemma_padded_digits(day, 2);
}

/// The base slug for a title, dated by the year, month and day of `date`.
///
/// The same title and date always give the same slug, and the slug holds
/// nothing but lower-case letters, digits and hyphens. Of the title only the
/// first [`TITLE_CHARS`] characters count.
pub fn generate(title: &str, date: &Timestamp) -> (slug: String)
    ensures
        slug@ == base_slug(title@, date.year as int, date.month as nat, date.day as nat),
        url_safe(slug@),
{
    let mut slug = slugify(head_of_title(title));
    push_date_suffix(&mut slug, date.year, date.month, date.day);
    proof {
        lemma_date_suffix_url_safe(date.year as int, date.month as nat, date.day as nat);
    }
    slug
}

} // verus!
