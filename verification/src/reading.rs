//! Reading by slug: what a reader gets for the slug they ask for.

use crate::error::BlogError;
use crate::ident::PostId;
use crate::post::{Post, PostRecord};
use vstd::prelude::*;

verus! {

/// What follows once the directory has answered.
#[derive(Debug)]
pub enum Lookup {
    /// The slug was never issued.
    Unknown,
    /// The slug is retired: the reader is sent to the current one.
    Moved(String),
    /// The slug is current: the post is to be fetched.
    Current(PostId),
}

/// What a [`Lookup`] holds.
pub enum LookupView {
    Unknown,
    Moved(Seq<char>),
    Current(PostId),
}

impl View for Lookup {
    type V = LookupView;

    open spec fn view(&self) -> LookupView {
        match self {
            Lookup::Unknown => LookupView::Unknown,
            Lookup::Moved(target) => LookupView::Moved(target@),
            Lookup::Current(id) => LookupView::Current(*id),
        }
    }
}

/// What the answer of the directory means for the slug that was asked for.
pub open spec fn lookup_of(requested: Seq<char>, resolved: Option<(PostId, Seq<char>)>)
    -> LookupView {
    match resolved {
        None => LookupView::Unknown,
        Some((id, canonical)) => if canonical == requested {
            LookupView::Current(id)
        } else {
            LookupView::Moved(canonical)
        },
    }
}

/// What a reader gets.
#[derive(Debug)]
pub enum Reading {
    /// The post, to be rendered.
    Page(Post),
    /// A permanent redirect to this slug.
    Redirect(String),
}

/// What a [`Reading`] holds.
pub enum ReadingView {
    Page(PostRecord),
    Redirect(Seq<char>),
}

impl View for Reading {
    type V = ReadingView;

    open spec fn view(&self) -> ReadingView {
        match self {
            Reading::Page(post) => ReadingView::Page(post@),
            Reading::Redirect(target) => ReadingView::Redirect(target@),
        }
    }
}

/// What a reader gets for a current slug, given what the store holds under
/// the post's identifier. A slug whose post is missing is a corrupt state,
/// not an unknown address.
pub open spec fn page_of(fetched: Option<PostRecord>) -> Result<ReadingView, BlogError> {
    match fetched {
        Some(post) => Ok(ReadingView::Page(post)),
        None => Err(BlogError::Inconsistent),
    }
}

/// Decides what follows from the answer of the directory: `resolved` is the
/// post and the current slug that the directory gives for `requested`, or
/// `None` if it does not know the slug.
pub fn after_resolve(requested: &str, resolved: Option<(PostId, String)>) -> (next: Lookup)
    ensures
        next@ == lookup_of(
            requested@,
            match resolved {
                Some((id, canonical)) => Some((id, canonical@)),
                None => None,
            },
        ),
{
    match resolved {
        None => Lookup::Unknown,
        Some((id, canonical)) => {
            if crate::text::same_text(canonical.as_str(), requested) {
                Lookup::Current(id)
            } else {
                Lookup::Moved(canonical)
            }
        },
    }
}

/// Decides what a reader gets for a current slug from what the store holds
/// under the post's identifier.
pub fn after_fetch(fetched: Option<Post>) -> (done: Result<Reading, BlogError>)
    ensures
        match done {
            Ok(reading) => page_of(
                match fetched {
                    Some(post) => Some(post@),
                    None => None,
                },
            ) == Ok::<ReadingView, BlogError>(reading@),
            Err(error) => fetched is None && error == BlogError::Inconsistent,
        },
{
    match fetched {
        Some(post) => Ok(Reading::Page(post)),
        None => Err(BlogError::Inconsistent),
    }
}

} // verus!
