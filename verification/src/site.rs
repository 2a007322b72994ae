//! Where the blog lives on its host: the paths under which pages and the
//! blog's own endpoints are served.

use crate::text::same_text;
use vstd::prelude::*;

verus! {

/// The directory, below the page root, that holds the blog's own endpoints.
pub const DOT_DIR: &'static str = ".blog3";

/// The text without the slashes at its beginning.
pub open spec fn without_leading_slashes(text: Seq<char>) -> Seq<char>
    decreases text.len(),
{
    if text.len() > 0 && text[0] == '/' {
        without_leading_slashes(text.drop_first())
    } else {
        text
    }
}

/// The text without the slashes at its end.
pub open spec fn without_trailing_slashes(text: Seq<char>) -> Seq<char>
    decreases text.len(),
{
    if text.len() > 0 && text.last() == '/' {
        without_trailing_slashes(text.drop_last())
    } else {
        text
    }
}

/// The page root as it is kept: one slash, then the configured text without
/// the slashes around it.
pub open spec fn normal_root(configured: Seq<char>) -> Seq<char> {
    seq!['/'] + without_trailing_slashes(without_leading_slashes(configured))
}

/// The path of `child` below the page root `root`.
pub open spec fn routed(root: Seq<char>, child: Seq<char>) -> Seq<char> {
    if root == seq!['/'] {
        child
    } else {
        root + child
    }
}

/// The path of `child` among the blog's own endpoints below `root`.
pub open spec fn routed_dot(root: Seq<char>, child: Seq<char>) -> Seq<char> {
    if root == seq!['/'] {
        seq!['/'] + DOT_DIR@ + child
    } else {
        root + seq!['/'] + DOT_DIR@ + child
    }
}

/// The text without the slashes around it.
pub fn trim_slashes(text: &str) -> (trimmed: &str)
    ensures
        trimmed@ == without_trailing_slashes(without_leading_slashes(text@)),
{
    let len = text.unicode_len();
    let mut start: usize = 0;
    assert(text@.subrange(0, len as int) =~= text@);
    while start < len && text.get_char(start) == '/'
        invariant
            len == text@.len(),
            start <= len,
            without_leading_slashes(text@) == without_leading_slashes(
                text@.subrange(start as int, len as int),
            ),
        decreases len - start,
    {
        proof {
            assert(text@.subrange(start as int, len as int).drop_first() =~= text@.subrange(
                start + 1,
                len as int,
            ));
        }
        start = start + 1;
    }
    let ghost inner = text@.subrange(start as int, len as int);
    assert(without_leading_slashes(text@) == inner);
    let mut end: usize = len;
    while end > start && text.get_char(end - 1) == '/'
        invariant
            len == text@.len(),
            start <= end <= len,
            inner == text@.subrange(start as int, len as int),
            without_trailing_slashes(inner) == without_trailing_slashes(
                text@.subrange(start as int, end as int),
            ),
        decreases end,
    {
        proof {
            assert(text@.subrange(start as int, end as int).drop_last() =~= text@.subrange(
                start as int,
                end - 1,
            ));
        }
        end = end - 1;
    }
    text.substring_char(start, end)
}

/// The page root: the path below which every page of the blog is served.
pub struct PageRoot {
    path: String,
}

impl View for PageRoot {
    type V = Seq<char>;

    closed spec fn view(&self) -> Seq<char> {
        self.path@
    }
}

impl PageRoot {
    /// The page root for a configured path: slashes around the path are
    /// dropped and one is put in front, so that `blog/`, `/blog` and `blog`
    /// all give `/blog`, and an empty path gives `/`.
    pub fn new(configured: &str) -> (root: PageRoot)
        ensures
            root@ == normal_root(configured@),
    {
        proof {
            reveal_strlit("/");
            assert("/"@ =~= seq!['/']);
        }
        let mut path = String::from_str("/");
        path.append(trim_slashes(configured));
        PageRoot { path }
    }

    /// The root as text.
    pub fn as_str(&self) -> (text: &str)
        ensures
            text@ == self@,
    {
        self.path.as_str()
    }

    /// The path of a page: `child` below the root. A root of `/` adds
    /// nothing, since `child` brings its own slash.
    pub fn route(&self, child: &str) -> (path: String)
        ensures
            path@ == routed(self@, child@),
    {
        proof {
            reveal_strlit("/");
            assert("/"@ =~= seq!['/']);
        }
        if same_text(self.path.as_str(), "/") {
            String::from_str(child)
        } else {
            let mut path = self.path.clone();
            path.append(child);
            path
        }
    }

    /// The path of one of the blog's own endpoints: `child` below
    /// [`DOT_DIR`] below the root.
    pub fn route_dot(&self, child: &str) -> (path: String)
        ensures
            path@ == routed_dot(self@, child@),
    {
        proof {
            reveal_strlit("/");
            assert("/"@ =~= seq!['/']);
        }
        let mut path = if same_text(self.path.as_str(), "/") {
            String::new()
        } else {
            self.path.clone()
        };
        path.append("/");
        path.append(DOT_DIR);
        path.append(child);
        proof {
            assert(path@ =~= routed_dot(self@, child@));
        }
        path
    }
}

} // verus!
