//! Why a new slug is always free: in a directory that grew by the rules, the
//! slug that the count asks for was never issued.

use crate::clock::Timestamp;
use crate::digits::{
    decimal, is_digit, lemma_decimal_digits, lemma_decimal_injective, lemma_padded_digits, padded,
};
use crate::directory::{
    issued, lemma_filter_related, lemma_similar_push, retargeted, similar, slugs_of, SlugEntry,
};
use crate::draft::{revised_post, DraftText};
use crate::error::{BlogError, StorageFailure};
use crate::generator::{date_suffix, slugified, title_head, year_text};
use crate::ident::PostId;
use crate::policy::{lemma_numbered_begins_with_base, numbered};
use crate::post::PostRecord;
use crate::state::{publish_failure, published, update_failure, update_slug, updated, BlogState};
use crate::store::post_of;
use vstd::prelude::*;

verus! {

/// The text with the date suffix of a day behind it.
pub open spec fn dated_as(head: Seq<char>, year: int, month: nat, day: nat) -> Seq<char> {
    head + date_suffix(year, month, day)
}

/// The text ends with the date suffix of a day that a calendar can show: a
/// month from 1 to 12 and a day from 1 to 31.
pub open spec fn dated(text: Seq<char>) -> bool {
    exists|head: Seq<char>, year: int, month: nat, day: nat|
        1 <= month <= 12 && 1 <= day <= 31 && text == #[trigger] dated_as(head, year, month, day)
}

/// How a dated text ends: hyphen, two digits, hyphen, two digits, and before
/// that at least three digits of the year.
pub open spec fn ends_like_a_date(text: Seq<char>) -> bool {
    let n = text.len() as int;
    &&& n >= 11
    &&& is_digit(text[n - 1])
    &&& is_digit(text[n - 2])
    &&& text[n - 3] == '-'
    &&& is_digit(text[n - 4])
    &&& is_digit(text[n - 5])
    &&& text[n - 6] == '-'
    &&& is_digit(text[n - 7])
    &&& is_digit(text[n - 8])
    &&& is_digit(text[n - 9])
}

/// A number below 100, padded to two places, has exactly two digits.
proof fn lemma_padded_two(n: nat)
    requires
        n < 100,
    ensures
        padded(n, 2).len() == 2,
        is_digit(padded(n, 2)[0]),
        is_digit(padded(n, 2)[1]),
{
    lemma_padded_digits(n, 2);
    lemma_decimal_digits(n);
    if n >= 10 {
        assert(decimal(n).len() == decimal(n / 10).len() + 1);
        assert(decimal(n / 10).len() == 1);
    }
}

/// The text of a year ends with three digits.
proof fn lemma_year_ends_with_digits(year: int)
    ensures
        ({
            let text = year_text(year);
            let n = text.len() as int;
            n >= 4 && is_digit(text[n - 1]) && is_digit(text[n - 2]) && is_digit(text[n - 3])
        }),
{
    if year < 0 {
        lemma_padded_digits((-year) as nat, 3);
        let digits = padded((-year) as nat, 3);
        let text = year_text(year);
        let n = text.len() as int;
        assert(text[n - 1] == digits[n - 2]);
        assert(text[n - 2] == digits[n - 3]);
        assert(text[n - 3] == digits[n - 4]);
    } else {
        lemma_padded_digits(year as nat, 4);
    }
}

/// A dated text ends like a date.
pub proof fn lemma_dated_ends_like_a_date(text: Seq<char>)
    requires
        dated(text),
    ensures
        ends_like_a_date(text),
{
    let (head, year, month, day) = choose|head: Seq<char>, year: int, month: nat, day: nat|
        1 <= month <= 12 && 1 <= day <= 31 && text == #[trigger] dated_as(head, year, month, day);
    lemma_padded_two(month);
    lemma_padded_two(day);
    lemma_year_ends_with_digits(year);
    let y = year_text(year);
    let m = padded(month, 2);
    let d = padded(day, 2);
    let n = text.len() as int;
    let front = head + seq!['-'] + y;
    assert(text =~= front + seq!['-'] + m + seq!['-'] + d);
    assert(n == front.len() + 6);
    assert(text[n - 1] == d[1]);
    assert(text[n - 2] == d[0]);
    assert(text[n - 4] == m[1]);
    assert(text[n - 5] == m[0]);
    assert(text[n - 7] == y[y.len() - 1]);
    assert(text[n - 8] == y[y.len() - 2]);
    assert(text[n - 9] == y[y.len() - 3]);
}

/// A numbered slug, cut behind its base, leaves a hyphen and digits.
proof fn lemma_numbered_tail(base: Seq<char>, n: nat)
    requires
        n >= 1,
    ensures
        numbered(base, n).len() == base.len() + 1 + decimal(n).len(),
        numbered(base, n)[base.len() as int] == '-',
        forall|i: int|
            base.len() < i < numbered(base, n).len() ==> is_digit(#[trigger] numbered(base, n)[i]),
        numbered(base, n).subrange(0, base.len() as int) == base,
        numbered(base, n).subrange(base.len() as int + 1, numbered(base, n).len() as int)
            == decimal(n),
{
    lemma_decimal_digits(n);
    let whole = numbered(base, n);
    assert forall|i: int| base.len() < i < whole.len() implies is_digit(#[trigger] whole[i]) by {
        assert(whole[i] == decimal(n)[i - base.len() - 1]);
    }
    assert(whole.subrange(0, base.len() as int) =~= base);
    assert(whole.subrange(base.len() as int + 1, whole.len() as int) =~= decimal(n));
}

/// A numbered slug has one base and one number.
pub proof fn lemma_numbered_one_way(base: Seq<char>, n: nat, other: Seq<char>, m: nat)
    requires
        n >= 1,
        m >= 1,
        numbered(base, n) == numbered(other, m),
    ensures
        base == other,
        n == m,
{
    lemma_numbered_tail(base, n);
    lemma_numbered_tail(other, m);
    let whole = numbered(base, n);
    if base.len() < other.len() {
        assert(is_digit(whole[other.len() as int]));
    } else if other.len() < base.len() {
        assert(is_digit(whole[base.len() as int]));
    } else {
        lemma_decimal_injective(n, m);
    }
}

/// A dated text with a number behind it is not a dated text.
pub proof fn lemma_numbered_is_not_dated(base: Seq<char>, n: nat)
    requires
        dated(base),
        n >= 1,
    ensures
        !dated(numbered(base, n)),
{
    let whole = numbered(base, n);
    if dated(whole) {
        lemma_dated_ends_like_a_date(base);
        lemma_dated_ends_like_a_date(whole);
        lemma_numbered_tail(base, n);
        let end = whole.len() as int;
        let cut = base.len() as int;
        // the hyphen before the number is the last one, three from the end
        if cut < end - 3 {
            assert(is_digit(whole[end - 3]));
        } else if cut > end - 3 {
            assert(whole[cut] == '-');
        } else {
            // so the base, which ends like a date, has its hyphen where the
            // year of the whole has a digit
            assert(base[cut - 6] == whole[end - 9]) by {
                assert(whole.subrange(0, cut)[cut - 6] == whole[cut - 6]);
            }
        }
    }
}

/// Each slug was the one that the count asked for when it was issued: a dated
/// base, numbered by how many of the older slugs began with it.
pub open spec fn minted_by_count(rows: Seq<SlugEntry>) -> bool {
    forall|i: int| 0 <= i < rows.len() ==> #[trigger] minted_at(rows, i)
}

/// The slug of row `i` is some dated base, numbered by how many of the older
/// slugs begin with that base.
pub open spec fn minted_at(rows: Seq<SlugEntry>, i: int) -> bool {
    exists|base: Seq<char>| #[trigger] minted_from(rows, i, base)
}

/// The slug of row `i` is `base`, numbered by how many of the older slugs
/// begin with `base`.
pub open spec fn minted_from(rows: Seq<SlugEntry>, i: int, base: Seq<char>) -> bool {
    dated(base) && rows[i].slug == numbered(base, similar(rows.take(i), base).len())
}

/// Among the first rows there are no more similar ones than among all.
proof fn lemma_similar_grows(rows: Seq<SlugEntry>, i: int, candidate: Seq<char>)
    requires
        0 <= i <= rows.len(),
    ensures
        similar(rows.take(i), candidate).len() <= similar(rows, candidate).len(),
{
    let keep = |row: SlugEntry| candidate.is_prefix_of(row.slug);
    assert(rows =~= rows.take(i) + rows.skip(i));
    Seq::filter_distributes_over_add(rows.take(i), rows.skip(i), keep);
}

/// In a directory that grew by the rules, the slug that the count asks for is
/// free: whatever dated base a revision has, the base numbered by how many
/// slugs begin with it was never issued.
pub proof fn lemma_counted_slug_is_free(rows: Seq<SlugEntry>, base: Seq<char>)
    requires
        minted_by_count(rows),
        dated(base),
    ensures
        !issued(rows, numbered(base, similar(rows, base).len())),
{
    let count = similar(rows, base).len();
    let slug = numbered(base, count);
    if issued(rows, slug) {
        let i = choose|i: int| 0 <= i < slugs_of(rows).len() && slugs_of(rows)[i] == slug;
        assert(rows[i].slug == slug);
        assert(minted_at(rows, i));
        let other = choose|other: Seq<char>| minted_from(rows, i, other);
        let then = similar(rows.take(i), other).len();
        // the row itself begins with the base, so it is counted
        lemma_numbered_begins_with_base(base, count);
        assert(rows.take(i + 1) =~= rows.take(i).push(rows[i]));
        lemma_similar_push(rows.take(i), rows[i], base);
        lemma_similar_grows(rows, i + 1, base);
        assert(count >= 1);
        if then == 0 {
            lemma_numbered_is_not_dated(base, count);
        } else {
            lemma_numbered_one_way(base, count, other, then);
        }
    }
}

/// Issuing the slug that the count asks for keeps the directory grown by the
/// rules.
pub proof fn lemma_minted_after_issue(rows: Seq<SlugEntry>, base: Seq<char>, post: PostId)
    requires
        minted_by_count(rows),
        dated(base),
    ensures
        minted_by_count(
            rows.push(
                SlugEntry {
                    slug: numbered(base, similar(rows, base).len()),
                    post,
                    superseded_by: None,
                },
            ),
        ),
{
    let entry = SlugEntry {
        slug: numbered(base, similar(rows, base).len()),
        post,
        superseded_by: None,
    };
    let grown = rows.push(entry);
    assert forall|i: int| 0 <= i < grown.len() implies #[trigger] minted_at(grown, i) by {
        if i < rows.len() {
            assert(minted_at(rows, i));
            let origin = choose|origin: Seq<char>| minted_from(rows, i, origin);
            assert(grown.take(i) =~= rows.take(i));
            assert(minted_from(grown, i, origin));
        } else {
            assert(grown.take(i) =~= rows);
            assert(minted_from(grown, i, base));
        }
    }
}

/// Retargeting keeps the directory grown by the rules: it changes no slug.
pub proof fn lemma_minted_after_retarget(rows: Seq<SlugEntry>, post: PostId, canonical: Seq<char>)
    requires
        minted_by_count(rows),
    ensures
        minted_by_count(retargeted(rows, post, canonical)),
{
    let turned = retargeted(rows, post, canonical);
    assert forall|i: int| 0 <= i < turned.len() implies #[trigger] minted_at(turned, i) by {
        assert(minted_at(rows, i));
        let origin = choose|origin: Seq<char>| minted_from(rows, i, origin);
        lemma_filter_related(
            rows.take(i),
            turned.take(i),
            |row: SlugEntry| origin.is_prefix_of(row.slug),
            |x: SlugEntry, y: SlugEntry| x.slug == y.slug,
        );
        assert(minted_from(turned, i, origin));
    }
}

/// The base slug of a post that was revised on a day that a calendar can
/// show is dated.
pub proof fn lemma_base_is_dated(post: PostRecord)
    requires
        1 <= post.revised.month <= 12,
        1 <= post.revised.day <= 31,
    ensures
        dated(post.base()),
{
    assert(post.base() == dated_as(
        slugified(title_head(post.title)),
        post.revised.year as int,
        post.revised.month as nat,
        post.revised.day as nat,
    ));
}

/// Publishing is never refused for want of a free slug.
///
/// In a state whose directory grew by the rules, a post dated on a day that a
/// calendar can show is not refused because its slug was issued before; and
/// the directory that publishing leaves has grown by the rules again.
pub proof fn lemma_publish_finds_a_free_slug(state: BlogState, post: PostRecord)
    requires
        minted_by_count(state.slugs),
        post.revised.in_range(),
    ensures
        publish_failure(state, post) != Some(BlogError::Storage(StorageFailure::DuplicateSlug)),
        minted_by_count(published(state, post).slugs),
{
    lemma_base_is_dated(post);
    lemma_counted_slug_is_free(state.slugs, post.base());
    lemma_minted_after_issue(state.slugs, post.base(), post.id);
}

/// Revising is never refused for want of a free slug.
///
/// In a state whose directory grew by the rules, a revision made on a day
/// that a calendar can show is not refused because its slug was issued
/// before; and the directory that revising leaves has grown by the rules
/// again.
pub proof fn lemma_update_finds_a_free_slug(
    state: BlogState,
    id: PostId,
    at: Timestamp,
    draft: DraftText,
)
    requires
        minted_by_count(state.slugs),
        at.in_range(),
    ensures
        update_failure(state, id, at, draft) != Some(
            BlogError::Storage(StorageFailure::DuplicateSlug),
        ),
        minted_by_count(updated(state, id, at, draft).slugs),
{
    if post_of(state.posts, id) is Some {
        let revision = revised_post(post_of(state.posts, id).unwrap(), at, draft);
        let (slug, minted) = update_slug(state, revision);
        lemma_base_is_dated(revision);
        lemma_counted_slug_is_free(state.slugs, revision.base());
        if update_failure(state, id, at, draft) is None {
            if minted {
                lemma_minted_after_issue(state.slugs, revision.base(), id);
                lemma_minted_after_retarget(
                    state.slugs.push(SlugEntry { slug, post: id, superseded_by: None }),
                    id,
                    slug,
                );
            } else {
                lemma_minted_after_retarget(state.slugs, id, slug);
            }
        }
    }
}

} // verus!
