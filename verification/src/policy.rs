//! Collision resolution: which slug a revision gets, given the slugs that
//! begin like its base.

use crate::digits::{decimal, lemma_decimal_digits, lemma_decimal_injective, push_decimal};
use crate::directory::{SlugEntry, SlugRow};
use crate::ident::PostId;
use vstd::prelude::*;

verus! {

/// The base with a number behind it: `base-n`. The number 0 leaves the base
/// bare.
pub open spec fn numbered(base: Seq<char>, n: nat) -> Seq<char> {
    if n == 0 {
        base
    } else {
        base + seq!['-'] + decimal(n)
    }
}

/// A numbered slug begins with its base.
pub proof fn lemma_numbered_begins_with_base(base: Seq<char>, n: nat)
    ensures
        base.is_prefix_of(numbered(base, n)),
{
    assert(numbered(base, n).subrange(0, base.len() as int) =~= base);
}

/// Different numbers give different slugs.
pub proof fn lemma_numbered_injective(base: Seq<char>, n: nat, m: nat)
    requires
        numbered(base, n) == numbered(base, m),
    ensures
        n == m,
{
    lemma_decimal_digits(n);
    lemma_decimal_digits(m);
    if n != 0 && m != 0 {
        let start = base.len() as int + 1;
        let whole = numbered(base, n);
        assert(whole.subrange(start, whole.len() as int) =~= decimal(n));
        assert(whole.subrange(start, whole.len() as int) =~= decimal(m));
        lemma_decimal_injective(n, m);
    } else if n != 0 || m != 0 {
        assert(numbered(base, n).len() != numbered(base, m).len());
    }
}

/// The rows among `similar` that belong to `post`, in their order.
pub open spec fn owned(similar: Seq<SlugEntry>, post: PostId) -> Seq<SlugEntry> {
    similar.filter(|row: SlugEntry| row.post == post)
}

/// The slug that a revision of `post` gets, and whether it is new.
///
/// `similar` holds the rows whose slug begins with `base`. If the post owns
/// one of them, that slug is kept (the youngest, if it owns several) and
/// nothing is new. Otherwise the slug is new: the base, numbered by how many
/// similar slugs there are.
pub open spec fn revision_slug(base: Seq<char>, similar: Seq<SlugEntry>, post: PostId) -> (
    Seq<char>,
    bool,
) {
    let own = owned(similar, post);
    if own.len() > 0 {
        (own.last().slug, false)
    } else {
        (numbered(base, similar.len()), true)
    }
}

/// How the rows of a post grow when a row is added at the end.
pub proof fn lemma_owned_push(rows: Seq<SlugEntry>, row: SlugEntry, post: PostId)
    ensures
        owned(rows.push(row), post) == if row.post == post {
            owned(rows, post).push(row)
        } else {
            owned(rows, post)
        },
{
    reveal(Seq::filter);
    assert(rows.push(row).drop_last() =~= rows);
}

/// The slug chosen for a revision.
#[derive(Debug)]
pub struct SlugChoice {
    pub slug: String,
    /// Whether the slug is new and has to be issued. A slug that the post
    /// already owns is not issued again.
    pub minted: bool,
}

/// The slug for a new post: the base if no slug begins with it, else the base
/// numbered by how many do.
pub fn slug_for_publish(base: String, taken: usize) -> (slug: String)
    ensures
        slug@ == numbered(base@, taken as nat),
{
    let mut slug = base;
    if taken > 0 {
        proof {
            reveal_strlit("-");
            assert("-"@ =~= seq!['-']);
        }
        slug.append("-");
        push_decimal(&mut slug, taken as u64);
    }
    slug
}

/// The slug for a revised post. `similar` are the rows whose slug begins with
/// `base`, oldest first.
pub fn slug_for_update(base: String, similar: &Vec<SlugRow>, post: PostId) -> (choice: SlugChoice)
    ensures
        (choice.slug@, choice.minted) == revision_slug(
            base@,
            similar@.map_values(|row: SlugRow| row@),
            post,
        ),
{
    let ghost rows = similar@.map_values(|row: SlugRow| row@);
    let mut kept: Option<usize> = None;
    let mut index: usize = 0;
    assert(rows.take(0) =~= Seq::<SlugEntry>::empty());
    reveal(Seq::filter);
    while index < similar.len()
        invariant
            index <= similar.len(),
            rows == similar@.map_values(|row: SlugRow| row@),
            match kept {
                Some(place) => place < index && owned(rows.take(index as int), post).len() > 0
                    && owned(rows.take(index as int), post).last() == rows[place as int],
                None => owned(rows.take(index as int), post).len() == 0,
            },
        decreases similar.len() - index,
    {
        proof {
            reveal(Seq::filter);
            assert(rows.take(index + 1).drop_last() =~= rows.take(index as int));
        }
        if similar[index].post == post {
            kept = Some(index);
        }
        index = index + 1;
    }
    assert(rows.take(index as int) =~= rows);
    match kept {
        Some(place) => SlugChoice { slug: similar[place].slug.clone(), minted: false },
        None => SlugChoice { slug: slug_for_publish(base, similar.len()), minted: true },
    }
}

} // verus!
