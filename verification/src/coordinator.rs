//! The revision coordinator: publishing, revising and reading, each as one
//! step that either happens whole or not at all.
//!
//! The coordinator carries out one request at a time: every method that
//! writes takes it exclusively. A server that keeps its state in a database
//! and takes the decisions of [`crate::policy`] and [`crate::reading`] from
//! here is only as orderly as the isolation of its transactions: two
//! revisions that count similar slugs at the same moment may ask for the same
//! number, and the directory then refuses the later one; it never overwrites
//! a slug.

use crate::clock::{now, Timestamp};
use crate::consistency::{
    consistent, lemma_empty_consistent, lemma_publish_keeps_consistent,
    lemma_update_keeps_consistent,
};
use crate::directory::{SlugDirectory, SlugEntry};
use crate::draft::{new_post, revised_post, Draft, DraftText};
use crate::error::{BlogError, StorageFailure};
use crate::ident::{fresh_id, PostId};
use crate::minting::{
    lemma_publish_finds_a_free_slug, lemma_update_finds_a_free_slug, minted_by_count,
};
use crate::policy::{slug_for_publish, slug_for_update};
use crate::post::PostRecord;
use crate::reading::{after_fetch, after_resolve, Lookup, Reading, ReadingView};
use crate::state::{
    publish_failure, publish_slug, published, read_result, update_failure, update_slug, updated,
    BlogState,
};
use crate::store::{ids_of, post_of, PostStore};
use vstd::prelude::*;

verus! {

/// The answer to a revision that was carried out.
#[derive(Debug)]
pub struct Receipt {
    pub id: PostId,
    /// The slug under which the post is served from now on.
    pub slug: String,
}

/// The answer `done` is the one that publishing `post` owes.
pub open spec fn publish_answer(
    state: BlogState,
    post: PostRecord,
    done: Result<Receipt, BlogError>,
) -> bool {
    match done {
        Ok(receipt) => publish_failure(state, post) is None && receipt.id == post.id
            && receipt.slug@ == publish_slug(state, post),
        Err(error) => publish_failure(state, post) == Some(error),
    }
}

/// The answer `done` is the one that revising the post `id` with a draft
/// owes.
pub open spec fn update_answer(
    state: BlogState,
    id: PostId,
    at: Timestamp,
    draft: DraftText,
    done: Result<Receipt, BlogError>,
) -> bool {
    match done {
        Ok(receipt) => update_failure(state, id, at, draft) is None && receipt.id == id
            && receipt.slug@ == update_slug(
            state,
            revised_post(post_of(state.posts, id).unwrap(), at, draft),
        ).0,
        Err(error) => update_failure(state, id, at, draft) == Some(error),
    }
}

/// The request was refused because the slug it needed was issued before.
pub open spec fn short_of_a_slug<T>(done: Result<T, BlogError>) -> bool {
    done matches Err(BlogError::Storage(StorageFailure::DuplicateSlug))
}

/// The answer `done` is the one that reading `slug` owes.
pub open spec fn read_answer(state: BlogState, slug: Seq<char>, done: Result<Reading, BlogError>)
    -> bool {
    match done {
        Ok(reading) => read_result(state, slug) == Ok::<ReadingView, BlogError>(reading@),
        Err(error) => read_result(state, slug) == Err::<ReadingView, BlogError>(error),
    }
}

/// A request to the coordinator.
#[derive(Debug)]
pub enum Operation {
    /// Publish a draft as a new post.
    Publish(Draft),
    /// Revise the post with this identifier.
    Update(PostId, Draft),
    /// Serve this slug.
    ReadBySlug(String),
}

/// The answer to a request that was carried out.
#[derive(Debug)]
pub enum Answer {
    /// A post was published or revised.
    Revised(Receipt),
    /// A slug was served.
    Served(Reading),
}

/// The revision coordinator. It alone writes to the post store and the slug
/// directory that it holds.
pub struct Coordinator {
    store: PostStore,
    directory: SlugDirectory,
}

impl View for Coordinator {
    type V = BlogState;

    closed spec fn view(&self) -> BlogState {
        BlogState {
            posts: self.store@.posts,
            archive: self.store@.archive,
            slugs: self.directory@,
        }
    }
}

impl Coordinator {
    /// A coordinator over nothing: no post, no slug.
    pub fn new() -> (blog: Coordinator)
        ensures
            blog@.posts == Seq::<PostRecord>::empty(),
            blog@.archive == Seq::<PostRecord>::empty(),
            blog@.slugs == Seq::<SlugEntry>::empty(),
            consistent(blog@),
            minted_by_count(blog@.slugs),
    {
        let blog = Coordinator { store: PostStore::new(), directory: SlugDirectory::new() };
        proof {
            lemma_empty_consistent(blog@);
        }
        blog
    }

    /// A coordinator over a store and a directory as they are.
    pub fn from_parts(store: PostStore, directory: SlugDirectory) -> (blog: Coordinator)
        ensures
            blog@.posts == store@.posts,
            blog@.archive == store@.archive,
            blog@.slugs == directory@,
    {
        Coordinator { store, directory }
    }

    /// The post store.
    pub fn store(&self) -> (store: &PostStore)
        ensures
            store@.posts == self@.posts,
            store@.archive == self@.archive,
    {
        &self.store
    }

    /// The slug directory.
    pub fn directory(&self) -> (directory: &SlugDirectory)
        ensures
            directory@ == self@.slugs,
    {
        &self.directory
    }

    /// Publishes a draft as the post `id` at the time `at`.
    ///
    /// A draft without a title is refused as invalid, an identifier that is
    /// already stored and a slug that is already issued as storage failures.
    /// A refused draft leaves no trace. A consistent state stays consistent.
    /// In a directory that grew by the rules, no draft dated on a day that a
    /// calendar can show is refused for its slug, and the directory keeps
    /// growing by the rules.
    pub fn publish_as(&mut self, id: PostId, at: Timestamp, draft: Draft) -> (done: Result<
        Receipt,
        BlogError,
    >)
        ensures
            final(self)@ == published(old(self)@, new_post(id, at, draft@)),
            publish_answer(old(self)@, new_post(id, at, draft@), done),
            done is Err ==> final(self)@ == old(self)@,
            consistent(old(self)@) ==> consistent(final(self)@),
            minted_by_count(old(self)@.slugs) && at.in_range() ==> minted_by_count(
                final(self)@.slugs,
            ) && !short_of_a_slug(done),
    {
        proof {
            if consistent(self@) {
                lemma_publish_keeps_consistent(self@, new_post(id, at, draft@));
            }
            if minted_by_count(self@.slugs) && at.in_range() {
                lemma_publish_finds_a_free_slug(self@, new_post(id, at, draft@));
            }
        }
        match draft.check() {
            Ok(()) => {},
            Err(error) => {
                return Err(error);
            },
        }
        // Every check comes before the first write, so that a refused draft
        // leaves nothing to undo.
        if self.store.contains(id) {
            return Err(BlogError::Storage(StorageFailure::DuplicatePost));
        }
        let post = draft.into_post(id, at);
        let base = post.slug();
        let taken = self.directory.count_similar(base.as_str());
        let slug = slug_for_publish(base, taken);
        if self.directory.contains(slug.as_str()) {
            return Err(BlogError::Storage(StorageFailure::DuplicateSlug));
        }
        match self.store.insert(post) {
            Ok(()) => {},
            Err(failure) => {
                return Err(BlogError::Storage(failure));
            },
        }
        match self.directory.insert(slug.clone(), id) {
            Ok(()) => Ok(Receipt { id, slug }),
            Err(failure) => Err(BlogError::Storage(failure)),
        }
    }

    /// Revises the post `id` with a draft at the time `at`.
    ///
    /// A draft without a title is refused as invalid, an identifier that is
    /// not stored as not found, and a new slug that is already issued as a
    /// storage failure. A refused draft leaves no trace. A consistent state
    /// stays consistent. In a directory that grew by the rules, no revision
    /// made on a day that a calendar can show is refused for its slug, and
    /// the directory keeps growing by the rules.
    pub fn update_as(&mut self, id: PostId, at: Timestamp, draft: Draft) -> (done: Result<
        Receipt,
        BlogError,
    >)
        ensures
            final(self)@ == updated(old(self)@, id, at, draft@),
            update_answer(old(self)@, id, at, draft@, done),
            done is Err ==> final(self)@ == old(self)@,
            consistent(old(self)@) ==> consistent(final(self)@),
            minted_by_count(old(self)@.slugs) && at.in_range() ==> minted_by_count(
                final(self)@.slugs,
            ) && !short_of_a_slug(done),
    {
        proof {
            if consistent(self@) {
                lemma_update_keeps_consistent(self@, id, at, draft@);
            }
            if minted_by_count(self@.slugs) && at.in_range() {
                lemma_update_finds_a_free_slug(self@, id, at, draft@);
            }
        }
        match draft.check() {
            Ok(()) => {},
            Err(error) => {
                return Err(error);
            },
        }
        let existing = match self.store.find_by_id(id) {
            Some(existing) => existing,
            None => {
                return Err(BlogError::NotFound);
            },
        };
        proof {
            ids_of(self@.posts).index_of_first_ensures(id);
        }
        let post = draft.revise(&existing, at);
        // Every check comes before the first write, so that a refused draft
        // leaves nothing to undo.
        let base = post.slug();
        let like = self.directory.find_similar(base.as_str());
        let choice = slug_for_update(base, &like, id);
        if choice.minted && self.directory.contains(choice.slug.as_str()) {
            return Err(BlogError::Storage(StorageFailure::DuplicateSlug));
        }
        self.store.archive(existing);
        match self.store.update(post) {
            Ok(()) => {},
            Err(failure) => {
                return Err(BlogError::Storage(failure));
            },
        }
        if choice.minted {
            match self.directory.insert(choice.slug.clone(), id) {
                Ok(()) => {},
                Err(failure) => {
                    return Err(BlogError::Storage(failure));
                },
            }
        }
        self.directory.retarget(id, choice.slug.as_str());
        Ok(Receipt { id, slug: choice.slug })
    }

    /// Serves a slug: the post if the slug is its current one, a redirect to
    /// the current slug if it is retired. A slug that was never issued is not
    /// found; a current slug whose post is missing is reported as an
    /// inconsistency of the stored state.
    pub fn read_by_slug(&self, slug: &str) -> (done: Result<Reading, BlogError>)
        ensures
            read_answer(self@, slug@, done),
    {
        match after_resolve(slug, self.directory.resolve_canonical(slug)) {
            Lookup::Unknown => Err(BlogError::NotFound),
            Lookup::Moved(canonical) => Ok(Reading::Redirect(canonical)),
            Lookup::Current(id) => after_fetch(self.store.find_by_id(id)),
        }
    }

    /// Publishes a draft as a new post, under an identifier drawn for it, at
    /// the time the clock shows.
    ///
    /// Which identifier and which time is not known beforehand; whatever they
    /// are, the draft is published as [`Coordinator::publish_as`] publishes
    /// it under them.
    pub fn publish(&mut self, draft: Draft) -> (done: Result<Receipt, BlogError>)
        ensures
            exists|id: PostId, at: Timestamp|
                at.in_range() && final(self)@ == published(
                    old(self)@,
                    #[trigger] new_post(id, at, draft@),
                ) && publish_answer(old(self)@, new_post(id, at, draft@), done),
            done is Err ==> final(self)@ == old(self)@,
            consistent(old(self)@) ==> consistent(final(self)@),
            minted_by_count(old(self)@.slugs) ==> minted_by_count(final(self)@.slugs)
                && !short_of_a_slug(done),
    {
        let id = fresh_id();
        let at = now();
        let ghost text = draft@;
        let done = self.publish_as(id, at, draft);
        proof {
            assert(at.in_range() && self@ == published(old(self)@, new_post(id, at, text))
                && publish_answer(old(self)@, new_post(id, at, text), done));
        }
        done
    }

    /// Revises the post `id` with a draft, at the time the clock shows.
    ///
    /// Which time is not known beforehand; whatever it is, the post is
    /// revised as [`Coordinator::update_as`] revises it at that time.
    pub fn update(&mut self, id: PostId, draft: Draft) -> (done: Result<Receipt, BlogError>)
        ensures
            exists|at: Timestamp|
                at.in_range() && final(self)@ == #[trigger] updated(old(self)@, id, at, draft@)
                    && update_answer(old(self)@, id, at, draft@, done),
            done is Err ==> final(self)@ == old(self)@,
            consistent(old(self)@) ==> consistent(final(self)@),
            minted_by_count(old(self)@.slugs) ==> minted_by_count(final(self)@.slugs)
                && !short_of_a_slug(done),
    {
        let at = now();
        let ghost text = draft@;
        let done = self.update_as(id, at, draft);
        proof {
            assert(at.in_range() && self@ == updated(old(self)@, id, at, text) && update_answer(
                old(self)@,
                id,
                at,
                text,
                done,
            ));
        }
        done
    }

    /// Carries out a request: publishing, revising or reading, each as the
    /// method of that name does it.
    pub fn perform(&mut self, operation: Operation) -> (done: Result<Answer, BlogError>)
        ensures
            match operation {
                Operation::Publish(draft) => exists|id: PostId, at: Timestamp|
                    at.in_range() && final(self)@ == published(
                        old(self)@,
                        #[trigger] new_post(id, at, draft@),
                    ) && match done {
                        Ok(Answer::Revised(receipt)) => publish_answer(
                            old(self)@,
                            new_post(id, at, draft@),
                            Ok(receipt),
                        ),
                        Ok(Answer::Served(_)) => false,
                        Err(error) => publish_answer(
                            old(self)@,
                            new_post(id, at, draft@),
                            Err(error),
                        ),
                    },
                Operation::Update(id, draft) => exists|at: Timestamp|
                    at.in_range() && final(self)@ == #[trigger] updated(
                        old(self)@,
                        id,
                        at,
                        draft@,
                    ) && match done {
                        Ok(Answer::Revised(receipt)) => update_answer(
                            old(self)@,
                            id,
                            at,
                            draft@,
                            Ok(receipt),
                        ),
                        Ok(Answer::Served(_)) => false,
                        Err(error) => update_answer(old(self)@, id, at, draft@, Err(error)),
                    },
                Operation::ReadBySlug(slug) => final(self)@ == old(self)@ && match done {
                    Ok(Answer::Served(reading)) => read_answer(old(self)@, slug@, Ok(reading)),
                    Ok(Answer::Revised(_)) => false,
                    Err(error) => read_answer(old(self)@, slug@, Err(error)),
                },
            },
            done is Err ==> final(self)@ == old(self)@,
            consistent(old(self)@) ==> consistent(final(self)@),
            minted_by_count(old(self)@.slugs) ==> minted_by_count(final(self)@.slugs)
                && !short_of_a_slug(done),
    {
        match operation {
            Operation::Publish(draft) => match self.publish(draft) {
                Ok(receipt) => Ok(Answer::Revised(receipt)),
                Err(error) => Err(error),
            },
            Operation::Update(id, draft) => match self.update(id, draft) {
                Ok(receipt) => Ok(Answer::Revised(receipt)),
                Err(error) => Err(error),
            },
            Operation::ReadBySlug(slug) => match self.read_by_slug(slug.as_str()) {
                Ok(reading) => Ok(Answer::Served(reading)),
                Err(error) => Err(error),
            },
        }
    }
}

} // verus!
