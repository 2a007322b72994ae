//! The post store: the current content of every post, and the archive of the
//! versions that revisions have replaced.

use crate::error::StorageFailure;
use crate::ident::PostId;
use crate::post::{Post, PostRecord};
use vstd::prelude::*;

verus! {

/// The identifiers of the posts, in the posts' order.
pub open spec fn ids_of(posts: Seq<PostRecord>) -> Seq<PostId> {
    posts.map_values(|post: PostRecord| post.id)
}

/// Some post has this identifier.
pub open spec fn stored(posts: Seq<PostRecord>, id: PostId) -> bool {
    ids_of(posts).contains(id)
}

/// No identifier stands for two posts.
pub open spec fn distinct_ids(posts: Seq<PostRecord>) -> bool {
    ids_of(posts).no_duplicates()
}

/// The post with this identifier, if there is one.
pub open spec fn post_of(posts: Seq<PostRecord>, id: PostId) -> Option<PostRecord> {
    match ids_of(posts).index_of_first(id) {
        Some(index) => Some(posts[index]),
        None => None,
    }
}

/// The posts after `post` has taken the place of the stored post with its
/// identifier; unchanged if there is none.
pub open spec fn overwritten(posts: Seq<PostRecord>, post: PostRecord) -> Seq<PostRecord> {
    match ids_of(posts).index_of_first(post.id) {
        Some(index) => posts.update(index, post),
        None => posts,
    }
}

/// The archived versions of one post, oldest first.
pub open spec fn versions_of(archive: Seq<PostRecord>, id: PostId) -> Seq<PostRecord> {
    archive.filter(|version: PostRecord| version.id == id)
}

/// A stored identifier stays stored when a post is added.
pub proof fn lemma_stored_after_push(posts: Seq<PostRecord>, post: PostRecord, id: PostId)
    ensures
        stored(posts, id) ==> stored(posts.push(post), id),
        stored(posts.push(post), post.id),
{
    assert(ids_of(posts.push(post)) =~= ids_of(posts).push(post.id));
    if stored(posts, id) {
        let k = choose|k: int| 0 <= k < ids_of(posts).len() && ids_of(posts)[k] == id;
        assert(ids_of(posts.push(post))[k] == id);
    }
    assert(ids_of(posts.push(post))[posts.len() as int] == post.id);
}

/// Overwriting a post leaves every identifier in its place, and the new
/// version is what is found under its identifier.
pub proof fn lemma_overwritten(posts: Seq<PostRecord>, post: PostRecord)
    ensures
        ids_of(overwritten(posts, post)) == ids_of(posts),
        stored(posts, post.id) ==> post_of(overwritten(posts, post), post.id) == Some(post),
        forall|other: PostId|
            other != post.id ==> post_of(overwritten(posts, post), other) == post_of(posts, other),
{
    let ids = ids_of(posts);
    ids.index_of_first_ensures(post.id);
    assert(ids_of(overwritten(posts, post)) =~= ids);
    assert forall|other: PostId| other != post.id implies post_of(
        overwritten(posts, post),
        other,
    ) == post_of(posts, other) by {
        ids.index_of_first_ensures(other);
    }
}

/// What a [`PostStore`] holds.
pub struct StoreState {
    /// The current content of each post.
    pub posts: Seq<PostRecord>,
    /// The replaced versions of all posts, in the order they were archived.
    pub archive: Seq<PostRecord>,
}

/// The post store.
pub struct PostStore {
    posts: Vec<Post>,
    archive: Vec<Post>,
}

impl View for PostStore {
    type V = StoreState;

    closed spec fn view(&self) -> StoreState {
        StoreState {
            posts: self.posts@.map_values(|post: Post| post@),
            archive: self.archive@.map_values(|post: Post| post@),
        }
    }
}

impl PostStore {
    /// A store without posts.
    pub fn new() -> (store: PostStore)
        ensures
            store@.posts == Seq::<PostRecord>::empty(),
            store@.archive == Seq::<PostRecord>::empty(),
    {
        let store = PostStore { posts: Vec::new(), archive: Vec::new() };
        assert(store@.posts =~= Seq::<PostRecord>::empty());
        assert(store@.archive =~= Seq::<PostRecord>::empty());
        store
    }

    /// The place of the post with this identifier.
    fn position(&self, id: PostId) -> (place: Option<usize>)
        ensures
            match place {
                Some(index) => ids_of(self@.posts).index_of_first(id) == Some(index as int)
                    && index < self.posts.len(),
                None => ids_of(self@.posts).index_of_first(id) is None,
            },
    {
        let mut index: usize = 0;
        while index < self.posts.len()
            invariant
                index <= self.posts.len(),
                forall|j: int| 0 <= j < index ==> ids_of(self@.posts)[j] != id,
            decreases self.posts.len() - index,
        {
            if self.posts[index].id == id {
                proof {
                    assert(ids_of(self@.posts)[index as int] == id);
                    ids_of(self@.posts).index_of_first_ensures(id);
                }
                return Some(index);
            }
            index = index + 1;
        }
        proof {
            ids_of(self@.posts).index_of_first_ensures(id);
        }
        None
    }

    /// Tells whether a post with this identifier is stored.
    pub fn contains(&self, id: PostId) -> (found: bool)
        ensures
            found == stored(self@.posts, id),
    {
        proof {
            ids_of(self@.posts).index_of_first_ensures(id);
        }
        self.position(id).is_some()
    }

    /// Stores a new post. An identifier that is already stored is refused,
    /// and the store stays as it was.
    pub fn insert(&mut self, post: Post) -> (done: Result<(), StorageFailure>)
        ensures
            final(self)@.archive == old(self)@.archive,
            match done {
                Ok(()) => !stored(old(self)@.posts, post.id) && final(self)@.posts
                    == old(self)@.posts.push(post@),
                Err(failure) => failure == StorageFailure::DuplicatePost && stored(
                    old(self)@.posts,
                    post.id,
                ) && final(self)@.posts == old(self)@.posts,
            },
            distinct_ids(old(self)@.posts) ==> distinct_ids(final(self)@.posts),
    {
        if self.contains(post.id) {
            return Err(StorageFailure::DuplicatePost);
        }
        proof {
            assert(ids_of(self@.posts.push(post@)) =~= ids_of(self@.posts).push(post.id));
            assert(self.posts@.push(post).map_values(|p: Post| p@) =~= self@.posts.push(post@));
        }
        self.posts.push(post);
        Ok(())
    }

    /// A copy of the post with this identifier, if there is one.
    pub fn find_by_id(&self, id: PostId) -> (found: Option<Post>)
        ensures
            match found {
                Some(post) => post_of(self@.posts, id) == Some(post@),
                None => post_of(self@.posts, id) is None,
            },
    {
        match self.position(id) {
            Some(index) => Some(self.posts[index].clone()),
            None => None,
        }
    }

    /// Overwrites the stored post that has the identifier of `post` with
    /// `post`, all fields at once. Where no such post is stored, the write is
    /// refused and the store stays as it was.
    pub fn update(&mut self, post: Post) -> (done: Result<(), StorageFailure>)
        ensures
            final(self)@.archive == old(self)@.archive,
            final(self)@.posts == overwritten(old(self)@.posts, post@),
            ids_of(final(self)@.posts) == ids_of(old(self)@.posts),
            match done {
                Ok(()) => stored(old(self)@.posts, post.id),
                Err(failure) => failure == StorageFailure::MissingPost && !stored(
                    old(self)@.posts,
                    post.id,
                ),
            },
    {
        proof {
            ids_of(self@.posts).index_of_first_ensures(post.id);
        }
        match self.position(post.id) {
            Some(index) => {
                proof {
                    assert(self.posts@.update(index as int, post).map_values(|p: Post| p@)
                        =~= self@.posts.update(index as int, post@));
                    assert(ids_of(self@.posts.update(index as int, post@)) =~= ids_of(
                        self@.posts,
                    ));
                }
                self.posts[index] = post;
                Ok(())
            },
            None => Err(StorageFailure::MissingPost),
        }
    }

    /// Adds a version to the archive, after all that it holds.
    pub fn archive(&mut self, version: Post)
        ensures
            final(self)@.posts == old(self)@.posts,
            final(self)@.archive == old(self)@.archive.push(version@),
    {
        proof {
            assert(self.archive@.push(version).map_values(|p: Post| p@) =~= self@.archive.push(
                version@,
            ));
        }
        self.archive.push(version);
    }

    /// Copies of the archived versions of one post, oldest first.
    pub fn archived(&self, id: PostId) -> (versions: Vec<Post>)
        ensures
            versions@.map_values(|post: Post| post@) == versions_of(self@.archive, id),
    {
        let mut versions: Vec<Post> = Vec::new();
        let mut index: usize = 0;
        proof {
            reveal(Seq::filter);
            assert(self@.archive.take(0) =~= Seq::<PostRecord>::empty());
        }
        while index < self.archive.len()
            invariant
                index <= self.archive.len(),
                versions@.map_values(|post: Post| post@) =~= versions_of(
                    self@.archive.take(index as int),
                    id,
                ),
            decreases self.archive.len() - index,
        {
            proof {
                reveal(Seq::filter);
                assert(self@.archive.take(index + 1).drop_last() =~= self@.archive.take(
                    index as int,
                ));
            }
            if self.archive[index].id == id {
                let copy = self.archive[index].clone();
                assert(versions@.push(copy).map_values(|post: Post| post@) =~= versions@.map_values(
                    |post: Post| post@,
                ).push(copy@));
                versions.push(copy);
            }
            index = index + 1;
        }
        assert(self@.archive.take(index as int) =~= self@.archive);
        versions
    }

    /// The number of archived versions, of all posts together.
    pub fn archive_len(&self) -> (count: usize)
        ensures
            count == self@.archive.len(),
    {
        self.archive.len()
    }

    /// The number of posts.
    pub fn len(&self) -> (count: usize)
        ensures
            count == self@.posts.len(),
    {
        self.posts.len()
    }
}

} // verus!
