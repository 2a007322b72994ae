//! The slug directory: every slug ever issued, the post it names, and for a
//! retired slug the one that replaced it.

use crate::error::StorageFailure;
use crate::ident::PostId;
use crate::text::{same_text, starts_with};
use vstd::prelude::*;

verus! {

/// One row of the directory.
#[derive(Debug)]
pub struct SlugRow {
    pub slug: String,
    pub post: PostId,
    /// The slug that now stands for the post, if this one is retired.
    pub superseded_by: Option<String>,
}

/// What a [`SlugRow`] holds.
pub struct SlugEntry {
    pub slug: Seq<char>,
    pub post: PostId,
    pub superseded_by: Option<Seq<char>>,
}

impl View for SlugRow {
    type V = SlugEntry;

    open spec fn view(&self) -> SlugEntry {
        SlugEntry {
            slug: self.slug@,
            post: self.post,
            superseded_by: match self.superseded_by {
                Some(target) => Some(target@),
                None => None,
            },
        }
    }
}

impl Clone for SlugRow {
    fn clone(&self) -> (copy: SlugRow)
        ensures
            copy@ == self@,
    {
        SlugRow {
            slug: self.slug.clone(),
            post: self.post,
            superseded_by: match &self.superseded_by {
                Some(target) => Some(target.clone()),
                None => None,
            },
        }
    }
}

impl SlugRow {
    /// The slug under which the post of this row is served: the one it points
    /// to, or its own if it points nowhere.
    pub fn canonical(&self) -> (slug: String)
        ensures
            slug@ == self@.canonical(),
    {
        match &self.superseded_by {
            Some(target) => target.clone(),
            None => self.slug.clone(),
        }
    }
}

impl SlugEntry {
    /// The slug under which the post of this row is served: the one it points
    /// to, or itself if it points nowhere.
    pub open spec fn canonical(self) -> Seq<char> {
        match self.superseded_by {
            Some(target) => target,
            None => self.slug,
        }
    }
}

/// The slugs of the rows, in the rows' order.
pub open spec fn slugs_of(rows: Seq<SlugEntry>) -> Seq<Seq<char>> {
    rows.map_values(|row: SlugEntry| row.slug)
}

/// Some row has this slug.
pub open spec fn issued(rows: Seq<SlugEntry>, slug: Seq<char>) -> bool {
    slugs_of(rows).contains(slug)
}

/// No slug stands in two rows.
pub open spec fn distinct_slugs(rows: Seq<SlugEntry>) -> bool {
    slugs_of(rows).no_duplicates()
}

/// The rows whose slug begins with `candidate`, in the rows' order.
pub open spec fn similar(rows: Seq<SlugEntry>, candidate: Seq<char>) -> Seq<SlugEntry> {
    rows.filter(|row: SlugEntry| candidate.is_prefix_of(row.slug))
}

/// The row with this slug, if it was issued.
pub open spec fn row_of(rows: Seq<SlugEntry>, slug: Seq<char>) -> Option<SlugEntry> {
    match slugs_of(rows).index_of_first(slug) {
        Some(index) => Some(rows[index]),
        None => None,
    }
}

/// The post that a slug names and the slug under which that post is served.
pub open spec fn resolved(rows: Seq<SlugEntry>, slug: Seq<char>) -> Option<(PostId, Seq<char>)> {
    match row_of(rows, slug) {
        Some(row) => Some((row.post, row.canonical())),
        None => None,
    }
}

/// The rows of one post, in the rows' order.
pub open spec fn rows_of(rows: Seq<SlugEntry>, post: PostId) -> Seq<SlugEntry> {
    rows.filter(|row: SlugEntry| row.post == post)
}

/// A row after `canonical` has become the slug of `post`: a row of another
/// post is untouched, the row of `canonical` itself points nowhere, and every
/// other row of the post points to `canonical`.
pub open spec fn retargeted_row(row: SlugEntry, post: PostId, canonical: Seq<char>) -> SlugEntry {
    if row.post != post {
        row
    } else if row.slug == canonical {
        SlugEntry { superseded_by: None, ..row }
    } else {
        SlugEntry { superseded_by: Some(canonical), ..row }
    }
}

/// The rows after `canonical` has become the slug of `post`.
pub open spec fn retargeted(rows: Seq<SlugEntry>, post: PostId, canonical: Seq<char>) -> Seq<
    SlugEntry,
> {
    rows.map_values(|row: SlugEntry| retargeted_row(row, post, canonical))
}

/// How the similar rows grow when a row is added at the end.
pub proof fn lemma_similar_push(rows: Seq<SlugEntry>, row: SlugEntry, candidate: Seq<char>)
    ensures
        similar(rows.push(row), candidate) == if candidate.is_prefix_of(row.slug) {
            similar(rows, candidate).push(row)
        } else {
            similar(rows, candidate)
        },
{
    reveal(Seq::filter);
    assert(rows.push(row).drop_last() =~= rows);
}

/// Filtering two runs of rows that are related row by row, by a test that
/// cannot tell a row from the one it is related to, leaves runs that are
/// related row by row.
pub proof fn lemma_filter_related(
    a: Seq<SlugEntry>,
    b: Seq<SlugEntry>,
    keep: spec_fn(SlugEntry) -> bool,
    related: spec_fn(SlugEntry, SlugEntry) -> bool,
)
    requires
        a.len() == b.len(),
        forall|i: int| 0 <= i < a.len() ==> related(#[trigger] a[i], b[i]),
        forall|i: int| 0 <= i < a.len() ==> keep(#[trigger] a[i]) == keep(b[i]),
    ensures
        a.filter(keep).len() == b.filter(keep).len(),
        forall|j: int|
            0 <= j < a.filter(keep).len() ==> related(
                #[trigger] a.filter(keep)[j],
                b.filter(keep)[j],
            ),
    decreases a.len(),
{
    reveal(Seq::filter);
    if a.len() > 0 {
        assert forall|i: int| 0 <= i < a.drop_last().len() implies related(
            #[trigger] a.drop_last()[i],
            b.drop_last()[i],
        ) by {
            assert(related(a[i], b[i]));
        }
        assert forall|i: int| 0 <= i < a.drop_last().len() implies keep(
            #[trigger] a.drop_last()[i],
        ) == keep(b.drop_last()[i]) by {
            assert(keep(a[i]) == keep(b[i]));
        }
        lemma_filter_related(a.drop_last(), b.drop_last(), keep, related);
        assert(keep(a.last()) == keep(b.last()) && related(a.last(), b.last())) by {
            assert(keep(a[a.len() - 1]) == keep(b[a.len() - 1]));
            assert(related(a[a.len() - 1], b[a.len() - 1]));
        }
    }
}

/// What the filter keeps passes the test and comes from the rows.
pub proof fn lemma_filter_members(rows: Seq<SlugEntry>, keep: spec_fn(SlugEntry) -> bool)
    ensures
        forall|j: int|
            0 <= j < rows.filter(keep).len() ==> keep(#[trigger] rows.filter(keep)[j])
                && rows.contains(rows.filter(keep)[j]),
    decreases rows.len(),
{
    reveal(Seq::filter);
    if rows.len() > 0 {
        lemma_filter_members(rows.drop_last(), keep);
        assert forall|j: int| 0 <= j < rows.filter(keep).len() implies keep(
            #[trigger] rows.filter(keep)[j],
        ) && rows.contains(rows.filter(keep)[j]) by {
            if j < rows.drop_last().filter(keep).len() {
                let row = rows.drop_last().filter(keep)[j];
                assert(rows.drop_last().contains(row));
                let i = choose|i: int|
                    0 <= i < rows.drop_last().len() && rows.drop_last()[i] == row;
                assert(rows[i] == row);
            } else {
                assert(rows[rows.len() - 1] == rows.last());
            }
        }
    }
}

/// Where no row is similar, no slug begins with the candidate.
pub proof fn lemma_no_similar(rows: Seq<SlugEntry>, candidate: Seq<char>, i: int)
    requires
        similar(rows, candidate).len() == 0,
        0 <= i < rows.len(),
    ensures
        !candidate.is_prefix_of(rows[i].slug),
{
    if candidate.is_prefix_of(rows[i].slug) {
        rows.lemma_filter_contains(|row: SlugEntry| candidate.is_prefix_of(row.slug), i);
    }
}

/// Retargeting leaves every slug in its place.
pub proof fn lemma_retargeted_slugs(rows: Seq<SlugEntry>, post: PostId, canonical: Seq<char>)
    ensures
        slugs_of(retargeted(rows, post, canonical)) == slugs_of(rows),
{
    assert(slugs_of(retargeted(rows, post, canonical)) =~= slugs_of(rows));
}

/// The slug of a row is issued, and in a directory without duplicates it
/// resolves to that row.
pub proof fn lemma_resolves_to_row(rows: Seq<SlugEntry>, i: int)
    requires
        0 <= i < rows.len(),
        distinct_slugs(rows),
    ensures
        issued(rows, rows[i].slug),
        row_of(rows, rows[i].slug) == Some(rows[i]),
        resolved(rows, rows[i].slug) == Some((rows[i].post, rows[i].canonical())),
{
    let slugs = slugs_of(rows);
    assert(slugs[i] == rows[i].slug);
    slugs.index_of_first_ensures(rows[i].slug);
    let first = slugs.index_of_first(rows[i].slug).unwrap();
    assert(slugs[first] == slugs[i]);
}

/// The directory of slugs. No slug is ever removed from it, and a directory
/// that grew from an empty one holds no slug twice.
pub struct SlugDirectory {
    rows: Vec<SlugRow>,
}

impl View for SlugDirectory {
    type V = Seq<SlugEntry>;

    closed spec fn view(&self) -> Seq<SlugEntry> {
        self.rows@.map_values(|row: SlugRow| row@)
    }
}

impl SlugDirectory {
    /// An empty directory.
    pub fn new() -> (directory: SlugDirectory)
        ensures
            directory@ == Seq::<SlugEntry>::empty(),
    {
        let directory = SlugDirectory { rows: Vec::new() };
        assert(directory@ =~= Seq::<SlugEntry>::empty());
        directory
    }

    /// Tells whether the slug was ever issued.
    pub fn contains(&self, slug: &str) -> (found: bool)
        ensures
            found == issued(self@, slug@),
    {
        proof {
            slugs_of(self@).index_of_first_ensures(slug@);
        }
        self.position(slug).is_some()
    }

    /// The place of the first row with this slug.
    fn position(&self, slug: &str) -> (place: Option<usize>)
        ensures
            match place {
                Some(index) => slugs_of(self@).index_of_first(slug@) == Some(index as int)
                    && index < self.rows.len(),
                None => slugs_of(self@).index_of_first(slug@) is None,
            },
    {
        let mut index: usize = 0;
        while index < self.rows.len()
            invariant
                index <= self.rows.len(),
                forall|j: int| 0 <= j < index ==> slugs_of(self@)[j] != slug@,
            decreases self.rows.len() - index,
        {
            if same_text(self.rows[index].slug.as_str(), slug) {
                proof {
                    assert(slugs_of(self@)[index as int] == slug@);
                    slugs_of(self@).index_of_first_ensures(slug@);
                }
                return Some(index);
            }
            index = index + 1;
        }
        proof {
            slugs_of(self@).index_of_first_ensures(slug@);
        }
        None
    }

    /// Looks a slug up: the post it names and the slug under which that post
    /// is served now, which is the slug itself unless it is retired. `None`
    /// if the slug was never issued.
    pub fn resolve_canonical(&self, slug: &str) -> (found: Option<(PostId, String)>)
        ensures
            match found {
                Some((post, canonical)) => resolved(self@, slug@) == Some((post, canonical@)),
                None => resolved(self@, slug@) is None,
            },
    {
        match self.position(slug) {
            Some(index) => {
                let row = &self.rows[index];
                Some((row.post, row.canonical()))
            },
            None => None,
        }
    }

    /// The rows whose slug begins with `candidate`, character for character,
    /// oldest first.
    pub fn find_similar(&self, candidate: &str) -> (found: Vec<SlugRow>)
        ensures
            found@.map_values(|row: SlugRow| row@) == similar(self@, candidate@),
    {
        let mut found: Vec<SlugRow> = Vec::new();
        let mut index: usize = 0;
        assert(self@.take(0) =~= Seq::<SlugEntry>::empty());
        while index < self.rows.len()
            invariant
                index <= self.rows.len(),
                found@.map_values(|row: SlugRow| row@) =~= similar(
                    self@.take(index as int),
                    candidate@,
                ),
            decreases self.rows.len() - index,
        {
            proof {
                assert(self@.take(index + 1) =~= self@.take(index as int).push(
                    self@[index as int],
                ));
                lemma_similar_push(self@.take(index as int), self@[index as int], candidate@);
            }
            if starts_with(self.rows[index].slug.as_str(), candidate) {
                let copy = self.rows[index].clone();
                assert(found@.push(copy).map_values(|row: SlugRow| row@) =~= found@.map_values(
                    |row: SlugRow| row@,
                ).push(copy@));
                found.push(copy);
            }
            index = index + 1;
        }
        assert(self@.take(index as int) =~= self@);
        found
    }

    /// Copies of the rows of one post, oldest first: every slug that the
    /// post ever had.
    pub fn history(&self, post: PostId) -> (found: Vec<SlugRow>)
        ensures
            found@.map_values(|row: SlugRow| row@) == rows_of(self@, post),
    {
        let mut found: Vec<SlugRow> = Vec::new();
        let mut index: usize = 0;
        proof {
            reveal(Seq::filter);
            assert(self@.take(0) =~= Seq::<SlugEntry>::empty());
        }
        while index < self.rows.len()
            invariant
                index <= self.rows.len(),
                found@.map_values(|row: SlugRow| row@) =~= rows_of(self@.take(index as int), post),
            decreases self.rows.len() - index,
        {
            proof {
                reveal(Seq::filter);
                assert(self@.take(index + 1).drop_last() =~= self@.take(index as int));
            }
            if self.rows[index].post == post {
                let copy = self.rows[index].clone();
                assert(found@.push(copy).map_values(|row: SlugRow| row@) =~= found@.map_values(
                    |row: SlugRow| row@,
                ).push(copy@));
                found.push(copy);
            }
            index = index + 1;
        }
        assert(self@.take(index as int) =~= self@);
        found
    }

    /// The number of slugs that begin with `candidate`, character for
    /// character.
    pub fn count_similar(&self, candidate: &str) -> (count: usize)
        ensures
            count == similar(self@, candidate@).len(),
    {
        let mut count: usize = 0;
        let mut index: usize = 0;
        assert(self@.take(0) =~= Seq::<SlugEntry>::empty());
        while index < self.rows.len()
            invariant
                index <= self.rows.len(),
                count <= index,
                count == similar(self@.take(index as int), candidate@).len(),
            decreases self.rows.len() - index,
        {
            proof {
                assert(self@.take(index + 1) =~= self@.take(index as int).push(
                    self@[index as int],
                ));
                lemma_similar_push(self@.take(index as int), self@[index as int], candidate@);
            }
            if starts_with(self.rows[index].slug.as_str(), candidate) {
                count = count + 1;
            }
            index = index + 1;
        }
        assert(self@.take(index as int) =~= self@);
        count
    }

    /// Issues a slug for a post. The new row points nowhere. A slug that was
    /// issued before is refused, and the directory stays as it was.
    pub fn insert(&mut self, slug: String, post: PostId) -> (done: Result<(), StorageFailure>)
        ensures
            match done {
                Ok(()) => !issued(old(self)@, slug@) && final(self)@ == old(self)@.push(
                    SlugEntry { slug: slug@, post, superseded_by: None },
                ),
                Err(failure) => failure == StorageFailure::DuplicateSlug && issued(
                    old(self)@,
                    slug@,
                ) && final(self)@ == old(self)@,
            },
            distinct_slugs(old(self)@) ==> distinct_slugs(final(self)@),
    {
        if self.contains(slug.as_str()) {
            return Err(StorageFailure::DuplicateSlug);
        }
        proof {
            let entry = SlugEntry { slug: slug@, post, superseded_by: None };
            assert(slugs_of(self@.push(entry)) =~= slugs_of(self@).push(slug@));
            assert(self.rows@.push(SlugRow { slug, post, superseded_by: None }).map_values(
                |row: SlugRow| row@,
            ) =~= self@.push(entry));
        }
        self.rows.push(SlugRow { slug, post, superseded_by: None });
        Ok(())
    }

    /// Makes `canonical` the slug of `post`: every other row of the post is
    /// pointed at it, wherever it pointed before, and the row of `canonical`
    /// itself no longer points anywhere. Rows of other posts stay as they
    /// are.
    pub fn retarget(&mut self, post: PostId, canonical: &str)
        ensures
            final(self)@ == retargeted(old(self)@, post, canonical@),
            slugs_of(final(self)@) == slugs_of(old(self)@),
    {
        let mut index: usize = 0;
        while index < self.rows.len()
            invariant
                index <= self.rows.len(),
                self.rows.len() == old(self).rows.len(),
                forall|j: int|
                    0 <= j < index ==> (#[trigger] self.rows@[j])@ == retargeted_row(
                        old(self).rows@[j]@,
                        post,
                        canonical@,
                    ),
                forall|j: int|
                    index <= j < self.rows.len() ==> #[trigger] self.rows@[j] == old(self).rows@[j],
            decreases self.rows.len() - index,
        {
            let ghost before = self.rows@;
            if self.rows[index].post == post {
                if same_text(self.rows[index].slug.as_str(), canonical) {
                    self.rows[index].superseded_by = None;
                } else {
                    self.rows[index].superseded_by = Some(String::from_str(canonical));
                }
            }
            assert(forall|j: int|
                0 <= j < self.rows.len() && j != index ==> self.rows@[j] == before[j]);
            index = index + 1;
        }
        assert(self@ =~= retargeted(old(self)@, post, canonical@));
        assert(slugs_of(self@) =~= slugs_of(old(self)@));
    }

    /// The number of slugs issued so far.
    pub fn len(&self) -> (count: usize)
        ensures
            count == self@.len(),
    {
        self.rows.len()
    }
}

} // verus!
