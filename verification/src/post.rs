//! Posts.

use crate::clock::Timestamp;
use crate::generator::{base_slug, generate, url_safe};
use crate::ident::PostId;
use vstd::prelude::*;

verus! {

/// A post as it is stored.
#[derive(Debug)]
pub struct Post {
    pub id: PostId,
    pub title: String,
    pub subtitle: Option<String>,
    pub content: String,
    /// When the post was first published. Later revisions keep it.
    pub published: Timestamp,
    /// When the content was last written: at publication, then at each
    /// revision. This is the date that the post's slug carries.
    pub revised: Timestamp,
}

/// What a [`Post`] holds.
pub struct PostRecord {
    pub id: PostId,
    pub title: Seq<char>,
    pub subtitle: Option<Seq<char>>,
    pub content: Seq<char>,
    pub published: Timestamp,
    pub revised: Timestamp,
}

impl View for Post {
    type V = PostRecord;

    open spec fn view(&self) -> PostRecord {
        PostRecord {
            id: self.id,
            title: self.title@,
            subtitle: match self.subtitle {
                Some(text) => Some(text@),
                None => None,
            },
            content: self.content@,
            published: self.published,
            revised: self.revised,
        }
    }
}

impl Clone for Post {
    fn clone(&self) -> (copy: Post)
        ensures
            copy@ == self@,
    {
        Post {
            id: self.id,
            title: self.title.clone(),
            subtitle: match &self.subtitle {
                Some(text) => Some(text.clone()),
                None => None,
            },
            content: self.content.clone(),
            published: self.published,
            revised: self.revised,
        }
    }
}

impl PostRecord {
    /// The base slug of the post: made from its title and dated by the day of
    /// its last revision.
    pub open spec fn base(self) -> Seq<char> {
        base_slug(
            self.title,
            self.revised.year as int,
            self.revised.month as nat,
            self.revised.day as nat,
        )
    }
}

impl Post {
    /// The base slug of the post: made from its title and dated by the day of
    /// its last revision. Numbering, where the base is taken, comes later.
    pub fn slug(&self) -> (slug: String)
        ensures
            slug@ == self@.base(),
            url_safe(slug@),
    {
        generate(self.title.as_str(), &self.revised)
    }
}

} // verus!
