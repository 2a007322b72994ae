//! Drafts: what an author sends, and the posts that are made of it.

use crate::clock::Timestamp;
use crate::error::BlogError;
use crate::ident::PostId;
use crate::post::{Post, PostRecord};
use vstd::prelude::*;

verus! {

/// What an author sends to publish or revise a post.
#[derive(Debug)]
pub struct Draft {
    pub title: String,
    pub subtitle: Option<String>,
    pub content: String,
}

/// What a [`Draft`] holds.
pub struct DraftText {
    pub title: Seq<char>,
    pub subtitle: Option<Seq<char>>,
    pub content: Seq<char>,
}

impl View for Draft {
    type V = DraftText;

    open spec fn view(&self) -> DraftText {
        DraftText {
            title: self.title@,
            subtitle: match self.subtitle {
                Some(text) => Some(text@),
                None => None,
            },
            content: self.content@,
        }
    }
}

/// A draft can be published or take the place of a post: it has a title.
pub open spec fn valid_draft(draft: DraftText) -> bool {
    draft.title.len() > 0
}

/// The post that publishing a draft creates.
pub open spec fn new_post(id: PostId, at: Timestamp, draft: DraftText) -> PostRecord {
    PostRecord {
        id,
        title: draft.title,
        subtitle: draft.subtitle,
        content: draft.content,
        published: at,
        revised: at,
    }
}

/// The post that revising `existing` with a draft leaves: the identifier and
/// the time of publication stay, everything else is new.
pub open spec fn revised_post(existing: PostRecord, at: Timestamp, draft: DraftText) -> PostRecord {
    PostRecord {
        id: existing.id,
        title: draft.title,
        subtitle: draft.subtitle,
        content: draft.content,
        published: existing.published,
        revised: at,
    }
}

impl Draft {
    /// Checks the draft before anything is looked up or written: a draft
    /// without a title is invalid.
    pub fn check(&self) -> (done: Result<(), BlogError>)
        ensures
            match done {
                Ok(()) => valid_draft(self@),
                Err(error) => error == BlogError::Invalid && !valid_draft(self@),
            },
    {
        if self.title.as_str().is_empty() {
            Err(BlogError::Invalid)
        } else {
            Ok(())
        }
    }

    /// The post that publishing the draft creates.
    pub fn into_post(self, id: PostId, at: Timestamp) -> (post: Post)
        ensures
            post@ == new_post(id, at, self@),
    {
        Post {
            id,
            title: self.title,
            subtitle: self.subtitle,
            content: self.content,
            published: at,
            revised: at,
        }
    }

    /// The post that revising `existing` with the draft leaves.
    pub fn revise(self, existing: &Post, at: Timestamp) -> (post: Post)
        ensures
            post@ == revised_post(existing@, at, self@),
    {
        Post {
            id: existing.id,
            title: self.title,
            subtitle: self.subtitle,
            content: self.content,
            published: existing.published,
            revised: at,
        }
    }
}

} // verus!
