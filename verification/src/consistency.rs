//! What holds of every state that publishing and revising can reach, and what
//! a reader can rely on because of it.

use crate::clock::Timestamp;
use crate::directory::{
    distinct_slugs, issued, lemma_filter_members, lemma_filter_related, lemma_resolves_to_row,
    lemma_similar_push, retargeted_row, row_of, similar, slugs_of, SlugEntry,
};
use crate::draft::{revised_post, DraftText};
use crate::error::BlogError;
use crate::ident::PostId;
use crate::policy::{lemma_numbered_begins_with_base, lemma_owned_push, owned};
use crate::post::PostRecord;
use crate::reading::ReadingView;
use crate::state::{
    lemma_update_slug_place, publish_failure, publish_slug, published, read_result,
    update_failure, update_slug, updated, BlogState,
};
use crate::store::{
    distinct_ids, ids_of, lemma_overwritten, lemma_stored_after_push, post_of, stored,
};
use vstd::prelude::*;

verus! {

/// Row `i` is the canonical row of `post`: it belongs to the post and points
/// nowhere.
pub open spec fn canonical_row(slugs: Seq<SlugEntry>, i: int, post: PostId) -> bool {
    0 <= i < slugs.len() && slugs[i].post == post && slugs[i].superseded_by is None
}

/// The post has a canonical row.
pub open spec fn has_canonical(slugs: Seq<SlugEntry>, post: PostId) -> bool {
    exists|i: int| canonical_row(slugs, i, post)
}

/// Row `i` is canonical, or it points to the slug of a canonical row of its
/// post.
pub open spec fn leads_to_canonical(slugs: Seq<SlugEntry>, i: int) -> bool {
    match slugs[i].superseded_by {
        None => true,
        Some(target) => exists|j: int|
            canonical_row(slugs, j, slugs[i].post) && slugs[j].slug == target,
    }
}

/// Posts and slugs are linked as they should be:
/// no slug and no identifier stands twice; every slug names a stored post;
/// every post has exactly one slug that points nowhere, its canonical slug;
/// and every other slug of the post points to that one.
pub open spec fn linked(state: BlogState) -> bool {
    &&& distinct_slugs(state.slugs)
    &&& distinct_ids(state.posts)
    &&& forall|i: int|
        0 <= i < state.slugs.len() ==> stored(state.posts, (#[trigger] state.slugs[i]).post)
    &&& forall|k: int|
        0 <= k < state.posts.len() ==> has_canonical(state.slugs, (#[trigger] state.posts[k]).id)
    &&& forall|i: int, j: int, post: PostId|
        #[trigger] canonical_row(state.slugs, i, post) && #[trigger] canonical_row(
            state.slugs,
            j,
            post,
        ) ==> i == j
    &&& forall|i: int| 0 <= i < state.slugs.len() ==> #[trigger] leads_to_canonical(state.slugs, i)
}

/// The slugs of `post` that begin with its base slug, oldest first.
pub open spec fn own_similar(slugs: Seq<SlugEntry>, post: PostRecord) -> Seq<SlugEntry> {
    owned(similar(slugs, post.base()), post.id)
}

/// The canonical slug of every post is the youngest of its slugs that begin
/// with its base slug: the one that a revision with the same base would keep.
pub open spec fn settled(state: BlogState) -> bool {
    forall|k: int|
        0 <= k < state.posts.len() ==> own_similar(state.slugs, #[trigger] state.posts[k]).len() > 0
            && own_similar(state.slugs, state.posts[k]).last().superseded_by is None
}

/// The state is one that the coordinator keeps: posts and slugs are linked
/// as they should be, and the canonical slug of every post is the one that a
/// revision with the same base slug would keep.
pub open spec fn consistent(state: BlogState) -> bool {
    linked(state) && settled(state)
}

/// The state without posts and slugs is consistent.
pub proof fn lemma_empty_consistent(state: BlogState)
    requires
        state.posts.len() == 0,
        state.slugs.len() == 0,
    ensures
        consistent(state),
{
}

/// Publishing keeps posts and slugs linked.
proof fn lemma_publish_keeps_linked(state: BlogState, post: PostRecord)
    requires
        linked(state),
    ensures
        linked(published(state, post)),
{
    if publish_failure(state, post) is None {
        let after = published(state, post);
        let slug = publish_slug(state, post);
        let n = state.slugs.len() as int;
        assert(slugs_of(after.slugs) =~= slugs_of(state.slugs).push(slug));
        assert(ids_of(after.posts) =~= ids_of(state.posts).push(post.id));
        assert forall|i: int| 0 <= i < after.slugs.len() implies stored(
            after.posts,
            (#[trigger] after.slugs[i]).post,
        ) by {
            if i < n {
                assert(stored(state.posts, state.slugs[i].post));
            }
            lemma_stored_after_push(state.posts, post, after.slugs[i].post);
        }
        assert forall|k: int| 0 <= k < after.posts.len() implies has_canonical(
            after.slugs,
            (#[trigger] after.posts[k]).id,
        ) by {
            if k < state.posts.len() {
                assert(has_canonical(state.slugs, state.posts[k].id));
                let i = choose|i: int| canonical_row(state.slugs, i, state.posts[k].id);
                assert(canonical_row(after.slugs, i, after.posts[k].id));
            } else {
                assert(canonical_row(after.slugs, n, after.posts[k].id));
            }
        }
        assert forall|i: int, j: int, owner: PostId| #[trigger]
            canonical_row(after.slugs, i, owner) && #[trigger] canonical_row(
                after.slugs,
                j,
                owner,
            ) implies i == j by {
            // an older row cannot belong to the new post, which was not stored
            if i < n {
                assert(stored(state.posts, state.slugs[i].post));
            }
            if j < n {
                assert(stored(state.posts, state.slugs[j].post));
            }
            if i < n && j < n {
                assert(canonical_row(state.slugs, i, owner) && canonical_row(
                    state.slugs,
                    j,
                    owner,
                ));
            }
        }
        assert forall|i: int| 0 <= i < after.slugs.len() implies #[trigger] leads_to_canonical(
            after.slugs,
            i,
        ) by {
            if i < n {
                assert(leads_to_canonical(state.slugs, i));
                if state.slugs[i].superseded_by is Some {
                    let j = choose|j: int|
                        canonical_row(state.slugs, j, state.slugs[i].post) && state.slugs[j].slug
                            == state.slugs[i].superseded_by.unwrap();
                    assert(canonical_row(after.slugs, j, after.slugs[i].post));
                }
            }
        }
    }
}

/// Revising keeps posts and slugs linked.
proof fn lemma_update_keeps_linked(state: BlogState, id: PostId, at: Timestamp, draft: DraftText)
    requires
        linked(state),
    ensures
        linked(updated(state, id, at, draft)),
{
    if update_failure(state, id, at, draft) is None {
        let after = updated(state, id, at, draft);
        let existing = post_of(state.posts, id).unwrap();
        let post = revised_post(existing, at, draft);
        let (slug, minted) = update_slug(state, post);
        let entry = SlugEntry { slug, post: id, superseded_by: None };
        let grown = if minted {
            state.slugs.push(entry)
        } else {
            state.slugs
        };
        let n = state.slugs.len() as int;
        ids_of(state.posts).index_of_first_ensures(id);
        lemma_overwritten(state.posts, post);
        // the row with the slug of the revision becomes the canonical row
        let chosen = lemma_update_slug_place(state, post);
        assert(grown[chosen].slug == slug && grown[chosen].post == id);
        assert(slugs_of(after.slugs) =~= slugs_of(grown));
        assert(distinct_slugs(grown)) by {
            if minted {
                assert(slugs_of(grown) =~= slugs_of(state.slugs).push(slug));
            }
        }
        assert forall|i: int| 0 <= i < after.slugs.len() implies #[trigger] after.slugs[i]
            == retargeted_row(grown[i], id, slug) by {}
        assert(canonical_row(after.slugs, chosen, id));
        assert forall|i: int| 0 <= i < after.slugs.len() implies stored(
            after.posts,
            (#[trigger] after.slugs[i]).post,
        ) by {
            if i < n {
                assert(stored(state.posts, state.slugs[i].post));
            }
        }
        assert forall|k: int| 0 <= k < after.posts.len() implies has_canonical(
            after.slugs,
            (#[trigger] after.posts[k]).id,
        ) by {
            assert(ids_of(after.posts)[k] == ids_of(state.posts)[k]);
            if state.posts[k].id != id {
                assert(has_canonical(state.slugs, state.posts[k].id));
                let i = choose|i: int| canonical_row(state.slugs, i, state.posts[k].id);
                assert(canonical_row(after.slugs, i, after.posts[k].id));
            }
        }
        assert forall|i: int, j: int, owner: PostId| #[trigger]
            canonical_row(after.slugs, i, owner) && #[trigger] canonical_row(
                after.slugs,
                j,
                owner,
            ) implies i == j by {
            if owner == id {
                // both rows have the slug of the revision
                assert(slugs_of(grown)[i] == slug);
                assert(slugs_of(grown)[j] == slug);
            } else {
                assert(canonical_row(state.slugs, i, owner) && canonical_row(
                    state.slugs,
                    j,
                    owner,
                ));
            }
        }
        assert forall|i: int| 0 <= i < after.slugs.len() implies #[trigger] leads_to_canonical(
            after.slugs,
            i,
        ) by {
            if after.slugs[i].post == id {
                assert(after.slugs[i].superseded_by is Some ==> after.slugs[chosen].slug
                    == after.slugs[i].superseded_by.unwrap());
            } else {
                assert(leads_to_canonical(state.slugs, i));
                if state.slugs[i].superseded_by is Some {
                    let j = choose|j: int|
                        canonical_row(state.slugs, j, state.slugs[i].post) && state.slugs[j].slug
                            == state.slugs[i].superseded_by.unwrap();
                    assert(canonical_row(after.slugs, j, after.slugs[i].post));
                }
            }
        }
    }
}

/// Publishing keeps every canonical slug the youngest of its kind.
proof fn lemma_publish_keeps_settled(state: BlogState, post: PostRecord)
    requires
        linked(state),
        settled(state),
    ensures
        settled(published(state, post)),
{
    if publish_failure(state, post) is None {
        let after = published(state, post);
        let slug = publish_slug(state, post);
        let entry = SlugEntry { slug, post: post.id, superseded_by: None };
        assert forall|k: int| 0 <= k < after.posts.len() implies own_similar(
            after.slugs,
            #[trigger] after.posts[k],
        ).len() > 0 && own_similar(after.slugs, after.posts[k]).last().superseded_by is None by {
            let other = after.posts[k];
            lemma_similar_push(state.slugs, entry, other.base());
            lemma_owned_push(similar(state.slugs, other.base()), entry, other.id);
            if k < state.posts.len() {
                assert(other == state.posts[k]);
                assert(ids_of(state.posts)[k] == other.id);
            } else {
                lemma_numbered_begins_with_base(
                    post.base(),
                    similar(state.slugs, post.base()).len(),
                );
            }
        }
    }
}

/// Publishing keeps the state consistent.
pub proof fn lemma_publish_keeps_consistent(state: BlogState, post: PostRecord)
    requires
        consistent(state),
    ensures
        consistent(published(state, post)),
{
    lemma_publish_keeps_linked(state, post);
    lemma_publish_keeps_settled(state, post);
}

/// Revising keeps every canonical slug the youngest of its kind.
proof fn lemma_update_keeps_settled(state: BlogState, id: PostId, at: Timestamp, draft: DraftText)
    requires
        linked(state),
        settled(state),
    ensures
        settled(updated(state, id, at, draft)),
{
    if update_failure(state, id, at, draft) is None {
        let after = updated(state, id, at, draft);
        let existing = post_of(state.posts, id).unwrap();
        let revision = revised_post(existing, at, draft);
        let (slug, minted) = update_slug(state, revision);
        let entry = SlugEntry { slug, post: id, superseded_by: None };
        let grown = if minted {
            state.slugs.push(entry)
        } else {
            state.slugs
        };
        ids_of(state.posts).index_of_first_ensures(id);
        let place = ids_of(state.posts).index_of_first(id).unwrap();
        assert(after.posts == state.posts.update(place, revision));
        assert forall|k: int| 0 <= k < after.posts.len() implies own_similar(
            after.slugs,
            #[trigger] after.posts[k],
        ).len() > 0 && own_similar(after.slugs, after.posts[k]).last().superseded_by is None by {
            let other = after.posts[k];
            let base = other.base();
            let like = |row: SlugEntry| base.is_prefix_of(row.slug);
            let own = |row: SlugEntry| row.post == other.id;
            if minted {
                lemma_similar_push(state.slugs, entry, base);
                lemma_owned_push(similar(state.slugs, base), entry, other.id);
            }
            if k != place {
                // rows of another post are as they were
                assert(other == state.posts[k]);
                assert(ids_of(state.posts)[k] == other.id);
                assert(other.id != id);
                let untouched = |x: SlugEntry, y: SlugEntry|
                    x.slug == y.slug && x.post == y.post && (x.post != id ==> x == y);
                lemma_filter_related(grown, after.slugs, like, untouched);
                lemma_filter_related(
                    similar(grown, base),
                    similar(after.slugs, base),
                    own,
                    untouched,
                );
                lemma_filter_members(similar(grown, base), own);
                let before = owned(similar(grown, base), other.id);
                assert(before == own_similar(state.slugs, state.posts[k]));
                assert(untouched(before.last(), own_similar(after.slugs, other).last()));
            } else {
                // the youngest similar row of the revised post has its slug
                assert(other == revision);
                let turned = |x: SlugEntry, y: SlugEntry| y == retargeted_row(x, id, slug);
                lemma_filter_related(grown, after.slugs, like, turned);
                lemma_filter_related(
                    similar(grown, base),
                    similar(after.slugs, base),
                    own,
                    turned,
                );
                let before = owned(similar(grown, base), id);
                if minted {
                    lemma_numbered_begins_with_base(base, similar(state.slugs, base).len());
                }
                assert(before.len() > 0 && before.last().slug == slug);
                assert(turned(before.last(), own_similar(after.slugs, other).last()));
                lemma_filter_members(similar(grown, base), own);
            }
        }
    }
}

/// Revising keeps the state consistent.
pub proof fn lemma_update_keeps_consistent(
    state: BlogState,
    id: PostId,
    at: Timestamp,
    draft: DraftText,
)
    requires
        consistent(state),
    ensures
        consistent(updated(state, id, at, draft)),
{
    lemma_update_keeps_linked(state, id, at, draft);
    lemma_update_keeps_settled(state, id, at, draft);
}

/// In a consistent state every slug that was ever issued leads to its post
/// in at most one step: a slug that points nowhere is served with the page of
/// its post, and a slug that points to another is redirected there, where the
/// page of the same post is served. So a redirect never leads to a redirect,
/// and an issued slug is never answered with an error.
pub proof fn lemma_read_at_most_one_hop(state: BlogState, slug: Seq<char>)
    requires
        consistent(state),
        issued(state.slugs, slug),
    ensures
        ({
            let row = row_of(state.slugs, slug).unwrap();
            let page = Ok::<ReadingView, BlogError>(
                ReadingView::Page(post_of(state.posts, row.post).unwrap()),
            );
            &&& row.slug == slug
            &&& post_of(state.posts, row.post) is Some
            &&& post_of(state.posts, row.post).unwrap().id == row.post
            &&& row.superseded_by is None ==> read_result(state, slug) == page
            &&& row.superseded_by matches Some(target) ==> target != slug && read_result(
                state,
                slug,
            ) == Ok::<ReadingView, BlogError>(ReadingView::Redirect(target))
            &&& read_result(state, row.canonical()) == page
        }),
{
    let slugs = slugs_of(state.slugs);
    slugs.index_of_first_ensures(slug);
    let i = slugs.index_of_first(slug).unwrap();
    let row = state.slugs[i];
    assert(slugs[i] == row.slug);
    lemma_resolves_to_row(state.slugs, i);
    assert(stored(state.posts, row.post));
    ids_of(state.posts).index_of_first_ensures(row.post);
    assert(leads_to_canonical(state.slugs, i));
    match row.superseded_by {
        None => {},
        Some(target) => {
            let j = choose|j: int|
                canonical_row(state.slugs, j, row.post) && state.slugs[j].slug == target;
            lemma_resolves_to_row(state.slugs, j);
            assert(slugs[j] == target);
        },
    }
}

} // verus!
