use blog3::clock::Timestamp;
use blog3::error::BlogError;
use blog3::ident::PostId;
use blog3::post::Post;
use blog3::reading::{after_fetch, after_resolve, Lookup, Reading};

const A: PostId = PostId { value: 1 };

#[test]
fn unknown_slug_is_unknown() {
    assert!(matches!(after_resolve("nowhere", None), Lookup::Unknown));
}

#[test]
fn current_slug_is_fetched() {
    match after_resolve("here", Some((A, String::from("here")))) {
        Lookup::Current(id) => assert_eq!(id, A),
        other => panic!("{other:?}"),
    }
}

#[test]
fn retired_slug_is_moved() {
    match after_resolve("old", Some((A, String::from("new")))) {
        Lookup::Moved(target) => assert_eq!(target, "new"),
        other => panic!("{other:?}"),
    }
    // a longer or a shorter slug is another slug
    assert!(matches!(after_resolve("old", Some((A, String::from("old-1")))), Lookup::Moved(_)));
    assert!(matches!(after_resolve("old-1", Some((A, String::from("old")))), Lookup::Moved(_)));
}

#[test]
fn fetched_post_is_the_page() {
    let at = Timestamp {
        year: 2024,
        month: 3,
        day: 5,
        hour: 0,
        minute: 0,
        second: 0,
        nanosecond: 0,
        offset_seconds: 0,
    };
    let post = Post {
        id: A,
        title: String::from("title"),
        subtitle: None,
        content: String::from("content"),
        published: at,
        revised: at,
    };
    match after_fetch(Some(post)) {
        Ok(Reading::Page(page)) => {
            assert_eq!(page.id, A);
            assert_eq!(page.title, "title");
            assert_eq!(page.content, "content");
        },
        other => panic!("{other:?}"),
    }
}

#[test]
fn missing_post_is_an_inconsistency() {
    match after_fetch(None) {
        Err(error) => assert_eq!(error, BlogError::Inconsistent),
        Ok(reading) => panic!("{reading:?}"),
    }
}
