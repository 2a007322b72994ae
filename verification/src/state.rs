//! The blog as a whole: what is stored, and what publishing, revising and
//! reading make of it.

use crate::clock::Timestamp;
use crate::directory::{
    issued, lemma_filter_members, resolved, retargeted, similar, SlugEntry,
};
use crate::draft::{revised_post, valid_draft, DraftText};
use crate::error::{BlogError, StorageFailure};
use crate::ident::PostId;
use crate::policy::{numbered, owned, revision_slug};
use crate::post::PostRecord;
use crate::reading::{lookup_of, page_of, LookupView, ReadingView};
use crate::store::{overwritten, post_of, stored};
use vstd::prelude::*;

verus! {

/// All that is stored: the posts, the archive and the slug directory.
pub struct BlogState {
    pub posts: Seq<PostRecord>,
    pub archive: Seq<PostRecord>,
    pub slugs: Seq<SlugEntry>,
}

/// The slug that a new post gets: its base, numbered by how many slugs begin
/// with it.
pub open spec fn publish_slug(state: BlogState, post: PostRecord) -> Seq<char> {
    numbered(post.base(), similar(state.slugs, post.base()).len())
}

/// Why publishing `post` is refused, if it is.
pub open spec fn publish_failure(state: BlogState, post: PostRecord) -> Option<BlogError> {
    if post.title.len() == 0 {
        Some(BlogError::Invalid)
    } else if stored(state.posts, post.id) {
        Some(BlogError::Storage(StorageFailure::DuplicatePost))
    } else if issued(state.slugs, publish_slug(state, post)) {
        Some(BlogError::Storage(StorageFailure::DuplicateSlug))
    } else {
        None
    }
}

/// The state after publishing `post`: the post and its slug are added, or,
/// where publishing is refused, nothing changes.
pub open spec fn published(state: BlogState, post: PostRecord) -> BlogState {
    if publish_failure(state, post) is Some {
        state
    } else {
        BlogState {
            posts: state.posts.push(post),
            archive: state.archive,
            slugs: state.slugs.push(
                SlugEntry { slug: publish_slug(state, post), post: post.id, superseded_by: None },
            ),
        }
    }
}

/// The slug that the revision `post` of a stored post gets, and whether it is
/// new.
pub open spec fn update_slug(state: BlogState, post: PostRecord) -> (Seq<char>, bool) {
    revision_slug(post.base(), similar(state.slugs, post.base()), post.id)
}

/// The slug of a revision that went through stands in a row of the post,
/// once the new slug, if there is one, is issued.
pub proof fn lemma_update_slug_place(state: BlogState, post: PostRecord) -> (place: int)
    requires
        !(update_slug(state, post).1 && issued(state.slugs, update_slug(state, post).0)),
    ensures
        update_slug(state, post).1 ==> place == state.slugs.len(),
        !update_slug(state, post).1 ==> 0 <= place < state.slugs.len() && state.slugs[place].slug
            == update_slug(state, post).0 && state.slugs[place].post == post.id,
{
    let (slug, minted) = update_slug(state, post);
    if minted {
        state.slugs.len() as int
    } else {
        let like = similar(state.slugs, post.base());
        let own = owned(like, post.id);
        lemma_filter_members(like, |row: SlugEntry| row.post == post.id);
        lemma_filter_members(state.slugs, |row: SlugEntry| post.base().is_prefix_of(row.slug));
        let row = own[own.len() - 1];
        assert(like.contains(row));
        let j = choose|j: int| 0 <= j < like.len() && like[j] == row;
        assert(state.slugs.contains(like[j]));
        choose|i: int| 0 <= i < state.slugs.len() && state.slugs[i] == row
    }
}

/// Why revising the post `id` with a draft is refused, if it is.
pub open spec fn update_failure(state: BlogState, id: PostId, at: Timestamp, draft: DraftText)
    -> Option<BlogError> {
    if !valid_draft(draft) {
        Some(BlogError::Invalid)
    } else {
        match post_of(state.posts, id) {
            None => Some(BlogError::NotFound),
            Some(existing) => {
                let (slug, minted) = update_slug(state, revised_post(existing, at, draft));
                if minted && issued(state.slugs, slug) {
                    Some(BlogError::Storage(StorageFailure::DuplicateSlug))
                } else {
                    None
                }
            },
        }
    }
}

/// The state after revising the post `id` with a draft: the version that was
/// stored goes to the archive, the revision takes its place, a new slug is
/// issued, and every other slug of the post points to the slug of the
/// revision. Where the revision is refused, nothing changes.
pub open spec fn updated(state: BlogState, id: PostId, at: Timestamp, draft: DraftText)
    -> BlogState {
    if update_failure(state, id, at, draft) is Some {
        state
    } else {
        let existing = post_of(state.posts, id).unwrap();
        let post = revised_post(existing, at, draft);
        let (slug, minted) = update_slug(state, post);
        let issued_slugs = if minted {
            state.slugs.push(SlugEntry { slug, post: id, superseded_by: None })
        } else {
            state.slugs
        };
        BlogState {
            posts: overwritten(state.posts, post),
            archive: state.archive.push(existing),
            slugs: retargeted(issued_slugs, id, slug),
        }
    }
}

/// What reading a slug gives.
pub open spec fn read_result(state: BlogState, slug: Seq<char>) -> Result<ReadingView, BlogError> {
    match lookup_of(slug, resolved(state.slugs, slug)) {
        LookupView::Unknown => Err(BlogError::NotFound),
        LookupView::Moved(canonical) => Ok(ReadingView::Redirect(canonical)),
        LookupView::Current(id) => page_of(post_of(state.posts, id)),
    }
}

} // verus!
