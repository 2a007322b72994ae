//! What publishing and revising promise beyond a single call.

use crate::clock::Timestamp;
use crate::consistency::{canonical_row, consistent, leads_to_canonical, own_similar};
use crate::directory::{
    distinct_slugs, issued, lemma_filter_members, lemma_no_similar, lemma_resolves_to_row,
    lemma_retargeted_slugs, lemma_similar_push, resolved, retargeted, retargeted_row, similar,
    slugs_of, SlugEntry,
};
use crate::draft::{revised_post, valid_draft, DraftText};
use crate::error::BlogError;
use crate::ident::PostId;
use crate::minting::{dated, lemma_counted_slug_is_free, lemma_minted_after_issue, minted_by_count};
use crate::policy::{lemma_numbered_begins_with_base, lemma_numbered_injective, numbered, owned};
use crate::post::PostRecord;
use crate::reading::ReadingView;
use crate::state::{
    lemma_update_slug_place, publish_failure, publish_slug, published, read_result,
    update_failure, update_slug, updated, BlogState,
};
use crate::store::{ids_of, lemma_overwritten, post_of, stored};
use vstd::prelude::*;

verus! {

/// The state after publishing the posts one after the other.
pub open spec fn published_all(state: BlogState, posts: Seq<PostRecord>) -> BlogState
    decreases posts.len(),
{
    if posts.len() == 0 {
        state
    } else {
        published(published_all(state, posts.drop_last()), posts.last())
    }
}

/// The posts are new to the state and differ from each other, each has a
/// title, and all have the base slug `base`.
pub open spec fn fresh_posts_with_base(state: BlogState, posts: Seq<PostRecord>, base: Seq<char>)
    -> bool {
    &&& forall|i: int|
        0 <= i < posts.len() ==> (#[trigger] posts[i]).base() == base && posts[i].title.len() > 0
            && !stored(state.posts, posts[i].id)
    &&& forall|i: int, j: int|
        0 <= i < j < posts.len() ==> (#[trigger] posts[i]).id != (#[trigger] posts[j]).id
}

/// The rows that a run of publishes with one base adds, where `from` slugs
/// began with the base before: the base numbered `from`, `from + 1`, and so
/// on, one for each post, none pointing anywhere.
pub open spec fn numbered_rows(posts: Seq<PostRecord>, base: Seq<char>, from: nat) -> Seq<
    SlugEntry,
> {
    Seq::new(
        posts.len(),
        |i: int|
            SlugEntry {
                slug: numbered(base, (from + i) as nat),
                post: posts[i].id,
                superseded_by: None,
            },
    )
}

/// The next number for the base is free, and will be after every publish:
/// either no slug begins with the base yet, or the directory grew by the
/// rules and the base is dated.
pub open spec fn numbers_are_free(state: BlogState, base: Seq<char>) -> bool {
    similar(state.slugs, base).len() == 0 || (minted_by_count(state.slugs) && dated(base))
}

/// A part of posts that are fresh is fresh.
proof fn lemma_fresh_part(state: BlogState, posts: Seq<PostRecord>, base: Seq<char>, len: int)
    requires
        fresh_posts_with_base(state, posts, base),
        0 <= len <= posts.len(),
    ensures
        fresh_posts_with_base(state, posts.take(len), base),
{
    let part = posts.take(len);
    assert forall|i: int| 0 <= i < part.len() implies (#[trigger] part[i]).base() == base
        && part[i].title.len() > 0 && !stored(state.posts, part[i].id) by {
        assert(part[i] == posts[i]);
    }
    assert forall|i: int, j: int| 0 <= i < j < part.len() implies (#[trigger] part[i]).id != (
    #[trigger] part[j]).id by {
        assert(part[i] == posts[i] && part[j] == posts[j]);
    }
}

/// What a run of publishes with one base leaves.
proof fn lemma_published_all(state: BlogState, posts: Seq<PostRecord>, base: Seq<char>)
    requires
        fresh_posts_with_base(state, posts, base),
        numbers_are_free(state, base),
    ensures
        published_all(state, posts).posts == state.posts + posts,
        published_all(state, posts).archive == state.archive,
        published_all(state, posts).slugs == state.slugs + numbered_rows(
            posts,
            base,
            similar(state.slugs, base).len(),
        ),
        similar(published_all(state, posts).slugs, base).len() == similar(state.slugs, base).len()
            + posts.len(),
        minted_by_count(state.slugs) && dated(base) ==> minted_by_count(
            published_all(state, posts).slugs,
        ),
        posts.len() > 0 ==> publish_failure(
            published_all(state, posts.drop_last()),
            posts.last(),
        ) is None && publish_slug(published_all(state, posts.drop_last()), posts.last())
            == numbered(base, (similar(state.slugs, base).len() + posts.len() - 1) as nat),
    decreases posts.len(),
{
    let from = similar(state.slugs, base).len();
    if posts.len() == 0 {
        assert(state.posts + posts =~= state.posts);
        assert(state.slugs + numbered_rows(posts, base, from) =~= state.slugs);
    } else {
        let earlier = posts.drop_last();
        let post = posts.last();
        let k = earlier.len();
        assert(earlier =~= posts.take(k as int));
        lemma_fresh_part(state, posts, base, k as int);
        lemma_published_all(state, earlier, base);
        let before = published_all(state, earlier);
        assert(post == posts[k as int]);
        assert(publish_slug(before, post) == numbered(base, from + k));
        assert(!stored(before.posts, post.id)) by {
            if stored(before.posts, post.id) {
                let ids = ids_of(before.posts);
                let j = choose|j: int| 0 <= j < ids.len() && ids[j] == post.id;
                if j < state.posts.len() {
                    assert(ids_of(state.posts)[j] == post.id);
                } else {
                    assert(earlier[j - state.posts.len()] == posts[j - state.posts.len()]);
                }
            }
        }
        assert(!issued(before.slugs, numbered(base, from + k))) by {
            if minted_by_count(state.slugs) && dated(base) {
                lemma_counted_slug_is_free(before.slugs, base);
            } else if issued(before.slugs, numbered(base, from + k)) {
                let slugs = slugs_of(before.slugs);
                let j = choose|j: int| 0 <= j < slugs.len() && slugs[j] == numbered(base, k);
                if j < state.slugs.len() {
                    lemma_numbered_begins_with_base(base, k);
                    lemma_no_similar(state.slugs, base, j);
                } else {
                    lemma_numbered_injective(base, (j - state.slugs.len()) as nat, k);
                }
            }
        }
        assert(publish_failure(before, post) is None);
        let entry = SlugEntry {
            slug: numbered(base, from + k),
            post: post.id,
            superseded_by: None,
        };
        assert(state.posts + posts =~= (state.posts + earlier).push(post));
        assert(state.slugs + numbered_rows(posts, base, from) =~= (state.slugs + numbered_rows(
            earlier,
            base,
            from,
        )).push(entry));
        lemma_numbered_begins_with_base(base, from + k);
        lemma_similar_push(before.slugs, entry, base);
        if minted_by_count(state.slugs) && dated(base) {
            lemma_minted_after_issue(before.slugs, base, post.id);
        }
    }
}

/// Publishing the same title on the same day again and again numbers the
/// slugs in the order of publishing.
///
/// Take posts that are new, each with a title, all with one base slug, and a
/// state in which no slug begins with that base. Published one after the
/// other, none is refused; the first gets the bare base, the next `base-1`,
/// then `base-2`, and so on; and no two of these slugs are the same.
///
/// Where slugs begin with the base already, the same holds from their count
/// on, as long as the directory grew by the rules and the base is dated: the
/// first post gets the base with the count behind it, the next the count
/// plus one, and so on.
pub proof fn lemma_publishes_numbered_in_order(
    state: BlogState,
    posts: Seq<PostRecord>,
    base: Seq<char>,
)
    requires
        fresh_posts_with_base(state, posts, base),
        numbers_are_free(state, base),
    ensures
        forall|i: int|
            0 <= i < posts.len() ==> publish_failure(
                published_all(state, #[trigger] posts.take(i)),
                posts[i],
            ) is None && publish_slug(published_all(state, posts.take(i)), posts[i]) == numbered(
                base,
                (similar(state.slugs, base).len() + i) as nat,
            ),
        forall|i: int, j: int|
            0 <= i < j ==> #[trigger] numbered(base, i as nat) != #[trigger] numbered(
                base,
                j as nat,
            ),
        published_all(state, posts).slugs == state.slugs + numbered_rows(
            posts,
            base,
            similar(state.slugs, base).len(),
        ),
{
    assert forall|i: int| 0 <= i < posts.len() implies publish_failure(
        published_all(state, #[trigger] posts.take(i)),
        posts[i],
    ) is None && publish_slug(published_all(state, posts.take(i)), posts[i]) == numbered(
        base,
        (similar(state.slugs, base).len() + i) as nat,
    ) by {
        let upto = posts.take(i + 1);
        lemma_fresh_part(state, posts, base, i + 1);
        assert(upto.drop_last() =~= posts.take(i));
        assert(upto.last() == posts[i]);
        lemma_published_all(state, upto, base);
    }
    assert forall|i: int, j: int| 0 <= i < j implies #[trigger] numbered(base, i as nat)
        != #[trigger] numbered(base, j as nat) by {
        if numbered(base, i as nat) == numbered(base, j as nat) {
            lemma_numbered_injective(base, i as nat, j as nat);
        }
    }
    lemma_published_all(state, posts, base);
}

/// Whatever the state, a publish that goes through moves the number for its
/// base on by one: the next post with the same base gets the next number.
pub proof fn lemma_next_publish_gets_next_number(
    state: BlogState,
    post: PostRecord,
    next: PostRecord,
)
    requires
        publish_failure(state, post) is None,
        next.base() == post.base(),
    ensures
        publish_slug(published(state, post), next) == numbered(
            post.base(),
            similar(state.slugs, post.base()).len() + 1,
        ),
        publish_slug(published(state, post), next) != publish_slug(state, post),
{
    let base = post.base();
    let count = similar(state.slugs, base).len();
    let entry = SlugEntry { slug: publish_slug(state, post), post: post.id, superseded_by: None };
    lemma_numbered_begins_with_base(base, count);
    lemma_similar_push(state.slugs, entry, base);
    if numbered(base, count + 1) == numbered(base, count) {
        lemma_numbered_injective(base, count + 1, count);
    }
}

/// Revising a post so that its base slug stays the same keeps its slug.
///
/// In a consistent state, take a stored post and a draft with a title that,
/// at the time of the revision, gives the base slug that the post has. The
/// revision goes through; its slug is not new but the one under which the
/// post was served before; and the directory is left exactly as it was: no
/// new row, no new redirect.
pub proof fn lemma_update_with_unchanged_base_keeps_slug(
    state: BlogState,
    id: PostId,
    at: Timestamp,
    draft: DraftText,
)
    requires
        consistent(state),
        valid_draft(draft),
        stored(state.posts, id),
        revised_post(post_of(state.posts, id).unwrap(), at, draft).base() == post_of(
            state.posts,
            id,
        ).unwrap().base(),
    ensures
        ({
            let revision = revised_post(post_of(state.posts, id).unwrap(), at, draft);
            let (slug, minted) = update_slug(state, revision);
            &&& update_failure(state, id, at, draft) is None
            &&& !minted
            &&& resolved(state.slugs, slug) == Some((id, slug))
            &&& updated(state, id, at, draft).slugs == state.slugs
        }),
{
    ids_of(state.posts).index_of_first_ensures(id);
    let k = ids_of(state.posts).index_of_first(id).unwrap();
    let existing = state.posts[k];
    let revision = revised_post(existing, at, draft);
    let (slug, minted) = update_slug(state, revision);
    // the post's youngest slug with this base points nowhere: it is kept
    let own = own_similar(state.slugs, existing);
    assert(own.len() > 0 && own.last().superseded_by is None);
    assert(own == owned(similar(state.slugs, revision.base()), id));
    assert(!minted && slug == own.last().slug);
    let c = lemma_update_slug_place(state, revision);
    lemma_filter_members(similar(state.slugs, existing.base()), |row: SlugEntry| row.post == id);
    lemma_filter_members(
        state.slugs,
        |row: SlugEntry| existing.base().is_prefix_of(row.slug),
    );
    assert(state.slugs.contains(own.last()));
    let youngest = choose|i: int| 0 <= i < state.slugs.len() && state.slugs[i] == own.last();
    assert(slugs_of(state.slugs)[youngest] == slug);
    assert(slugs_of(state.slugs)[c] == slug);
    assert(youngest == c);
    lemma_resolves_to_row(state.slugs, c);
    // every other slug of the post points there already
    assert(retargeted(state.slugs, id, slug) =~= state.slugs) by {
        assert forall|i: int| 0 <= i < state.slugs.len() implies retargeted_row(
            #[trigger] state.slugs[i],
            id,
            slug,
        ) == state.slugs[i] by {
            let row = state.slugs[i];
            if row.post == id {
                if row.slug == slug {
                    assert(slugs_of(state.slugs)[i] == slug);
                    assert(i == c);
                } else if row.superseded_by is None {
                    assert(canonical_row(state.slugs, i, id) && canonical_row(state.slugs, c, id));
                } else {
                    assert(leads_to_canonical(state.slugs, i));
                    let j = choose|j: int|
                        canonical_row(state.slugs, j, id) && state.slugs[j].slug
                            == row.superseded_by.unwrap();
                    assert(canonical_row(state.slugs, c, id));
                    assert(j == c);
                }
            }
        }
    }
}

/// After a revision every slug that the post ever had leads to the slug of
/// the revision.
///
/// In a directory without duplicates, once a revision went through: its slug
/// resolves to itself and is served with the revised post; every other slug
/// that the post had before resolves to the slug of the revision, so a reader
/// is redirected there, in one step. Where the post owned no slug that begins
/// with its new base, the slug of the revision is one that was never issued
/// before.
pub proof fn lemma_update_redirects_old_slugs(
    state: BlogState,
    id: PostId,
    at: Timestamp,
    draft: DraftText,
)
    requires
        distinct_slugs(state.slugs),
        update_failure(state, id, at, draft) is None,
    ensures
        ({
            let revision = revised_post(post_of(state.posts, id).unwrap(), at, draft);
            let (slug, minted) = update_slug(state, revision);
            let after = updated(state, id, at, draft);
            &&& minted <==> owned(similar(state.slugs, revision.base()), id).len() == 0
            &&& minted ==> !issued(state.slugs, slug)
            &&& resolved(after.slugs, slug) == Some((id, slug))
            &&& read_result(after, slug) == Ok::<ReadingView, BlogError>(
                ReadingView::Page(revision),
            )
            &&& forall|i: int|
                0 <= i < state.slugs.len() && (#[trigger] state.slugs[i]).post == id ==> resolved(
                    after.slugs,
                    state.slugs[i].slug,
                ) == Some((id, slug))
            &&& forall|i: int|
                0 <= i < state.slugs.len() && (#[trigger] state.slugs[i]).post == id
                    && state.slugs[i].slug != slug ==> read_result(after, state.slugs[i].slug)
                    == Ok::<ReadingView, BlogError>(ReadingView::Redirect(slug))
        }),
{
    let existing = post_of(state.posts, id).unwrap();
    let revision = revised_post(existing, at, draft);
    let (slug, minted) = update_slug(state, revision);
    let after = updated(state, id, at, draft);
    let entry = SlugEntry { slug, post: id, superseded_by: None };
    let grown = if minted {
        state.slugs.push(entry)
    } else {
        state.slugs
    };
    ids_of(state.posts).index_of_first_ensures(id);
    lemma_overwritten(state.posts, revision);
    lemma_retargeted_slugs(grown, id, slug);
    assert(distinct_slugs(grown)) by {
        if minted {
            assert(slugs_of(grown) =~= slugs_of(state.slugs).push(slug));
        }
    }
    let place = lemma_update_slug_place(state, revision);
    assert(grown[place].slug == slug && grown[place].post == id);
    lemma_resolves_to_row(after.slugs, place);
    assert forall|i: int|
        0 <= i < state.slugs.len() && (#[trigger] state.slugs[i]).post == id implies resolved(
        after.slugs,
        state.slugs[i].slug,
    ) == Some((id, slug)) by {
        lemma_resolves_to_row(after.slugs, i);
    }
}

/// A revision archives exactly the version it replaces.
///
/// Once a revision went through, the archive is what it was with one more
/// version at its end, the post as it stood before; under the post's
/// identifier the store holds the revision, which has the new title,
/// subtitle and content and the old time of publication; and every other post
/// is as it was.
pub proof fn lemma_update_archives_replaced_version(
    state: BlogState,
    id: PostId,
    at: Timestamp,
    draft: DraftText,
)
    requires
        update_failure(state, id, at, draft) is None,
    ensures
        ({
            let existing = post_of(state.posts, id).unwrap();
            let after = updated(state, id, at, draft);
            &&& after.archive == state.archive.push(existing)
            &&& after.posts.len() == state.posts.len()
            &&& post_of(after.posts, id) == Some(revised_post(existing, at, draft))
            &&& forall|other: PostId|
                other != id ==> post_of(after.posts, other) == post_of(state.posts, other)
        }),
{
    let existing = post_of(state.posts, id).unwrap();
    ids_of(state.posts).index_of_first_ensures(id);
    lemma_overwritten(state.posts, revised_post(existing, at, draft));
}

} // verus!
