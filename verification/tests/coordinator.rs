use blog3::clock::Timestamp;
use blog3::coordinator::{Answer, Coordinator, Operation};
use blog3::draft::Draft;
use blog3::directory::SlugDirectory;
use blog3::error::{BlogError, StorageFailure};
use blog3::ident::PostId;
use blog3::reading::Reading;
use blog3::store::PostStore;

fn on(day: u32) -> Timestamp {
    Timestamp {
        year: 2024,
        month: 3,
        day,
        hour: 10,
        minute: 0,
        second: 0,
        nanosecond: 0,
        offset_seconds: 3600,
    }
}

fn draft(title: &str) -> Draft {
    Draft { title: String::from(title), subtitle: None, content: String::from("...") }
}

fn id(value: u128) -> PostId {
    PostId { value }
}

fn page_of(blog: &Coordinator, slug: &str) -> blog3::post::Post {
    match blog.read_by_slug(slug) {
        Ok(Reading::Page(post)) => post,
        other => panic!("{slug}: {other:?}"),
    }
}

fn redirect_of(blog: &Coordinator, slug: &str) -> String {
    match blog.read_by_slug(slug) {
        Ok(Reading::Redirect(target)) => target,
        other => panic!("{slug}: {other:?}"),
    }
}

#[test]
fn end_to_end_example() {
    let mut blog = Coordinator::new();
    let first = blog.publish_as(id(1), on(5), draft("Hello World")).unwrap();
    assert_eq!(first.id, id(1));
    assert_eq!(first.slug, "hello-world-2024-03-05");

    let second = blog.publish_as(id(2), on(5), draft("Hello World")).unwrap();
    assert_eq!(second.id, id(2));
    assert_eq!(second.slug, "hello-world-2024-03-05-1");

    let unchanged = blog.update_as(id(1), on(5), draft("Hello World")).unwrap();
    assert_eq!(unchanged.id, id(1));
    assert_eq!(unchanged.slug, "hello-world-2024-03-05");
    assert_eq!(blog.directory().len(), 2);
    assert_eq!(page_of(&blog, "hello-world-2024-03-05").id, id(1));

    let renamed = blog.update_as(id(1), on(5), draft("Goodbye World")).unwrap();
    assert_eq!(renamed.slug, "goodbye-world-2024-03-05");
    assert_eq!(redirect_of(&blog, "hello-world-2024-03-05"), "goodbye-world-2024-03-05");
    assert_eq!(page_of(&blog, "goodbye-world-2024-03-05").title, "Goodbye World");
    assert_eq!(page_of(&blog, "hello-world-2024-03-05-1").id, id(2));
}

#[test]
fn update_on_a_later_day_dates_the_slug_by_the_edit() {
    let mut blog = Coordinator::new();
    blog.publish_as(id(1), on(5), draft("Hello World")).unwrap();
    let later = blog.update_as(id(1), on(9), draft("Hello World")).unwrap();
    assert_eq!(later.slug, "hello-world-2024-03-09");
    assert_eq!(redirect_of(&blog, "hello-world-2024-03-05"), "hello-world-2024-03-09");
    let post = page_of(&blog, "hello-world-2024-03-09");
    assert_eq!(post.published, on(5));
    assert_eq!(post.revised, on(9));
}

#[test]
fn publishes_with_one_title_and_day_are_numbered_in_order() {
    let mut blog = Coordinator::new();
    let mut slugs = Vec::new();
    for n in 0..12u128 {
        slugs.push(blog.publish_as(id(n), on(5), draft("Same Title")).unwrap().slug);
    }
    assert_eq!(slugs[0], "same-title-2024-03-05");
    for n in 1..12 {
        assert_eq!(slugs[n], format!("same-title-2024-03-05-{n}"));
    }
    for a in 0..slugs.len() {
        for b in (a + 1)..slugs.len() {
            assert_ne!(slugs[a], slugs[b]);
        }
        assert_eq!(page_of(&blog, &slugs[a]).id, id(a as u128));
    }
}

#[test]
fn publish_counts_every_slug_that_begins_with_the_base() {
    let mut blog = Coordinator::new();
    // the second title has the first as the beginning of its slug
    blog.publish_as(id(1), on(5), draft("a 2024-03-05")).unwrap();
    let plain = blog.publish_as(id(2), on(5), draft("a")).unwrap();
    assert_eq!(plain.slug, "a-2024-03-05-1");
    let next = blog.publish_as(id(3), on(5), draft("A")).unwrap();
    assert_eq!(next.slug, "a-2024-03-05-2");
}

#[test]
fn publish_stores_the_post_as_drafted() {
    let mut blog = Coordinator::new();
    let sent = Draft {
        title: String::from("With Subtitle"),
        subtitle: Some(String::from("below")),
        content: String::from("body text"),
    };
    let receipt = blog.publish_as(id(7), on(5), sent).unwrap();
    let post = page_of(&blog, &receipt.slug);
    assert_eq!(post.id, id(7));
    assert_eq!(post.title, "With Subtitle");
    assert_eq!(post.subtitle.as_deref(), Some("below"));
    assert_eq!(post.content, "body text");
    assert_eq!(post.published, on(5));
    assert_eq!(post.revised, on(5));
    assert_eq!(blog.store().len(), 1);
    assert_eq!(blog.store().archive_len(), 0);
    let rows = blog.directory().history(id(7));
    assert_eq!(rows.len(), 1);
    assert_eq!(rows[0].superseded_by, None);
}

#[test]
fn update_without_a_new_base_keeps_the_slug_and_the_directory() {
    let mut blog = Coordinator::new();
    blog.publish_as(id(1), on(5), draft("Stable Title")).unwrap();
    blog.publish_as(id(2), on(5), draft("Stable Title")).unwrap();
    for round in 0..3 {
        let mut edit = draft("Stable Title");
        edit.content = format!("typo fix {round}");
        let receipt = blog.update_as(id(2), on(5), edit).unwrap();
        assert_eq!(receipt.slug, "stable-title-2024-03-05-1");
        assert_eq!(blog.directory().len(), 2);
        let rows = blog.directory().history(id(2));
        assert_eq!(rows.len(), 1);
        assert_eq!(rows[0].superseded_by, None);
        assert_eq!(page_of(&blog, "stable-title-2024-03-05-1").content, format!("typo fix {round}"));
    }
    // a title that differs only beyond what the slug shows keeps the slug too
    let receipt = blog.update_as(id(2), on(5), draft("stable   TITLE!")).unwrap();
    assert_eq!(receipt.slug, "stable-title-2024-03-05-1");
    assert_eq!(blog.directory().len(), 2);
}

#[test]
fn update_with_a_new_base_redirects_every_earlier_slug() {
    let mut blog = Coordinator::new();
    blog.publish_as(id(1), on(5), draft("First Name")).unwrap();
    blog.publish_as(id(2), on(5), draft("Bystander")).unwrap();
    let second = blog.update_as(id(1), on(5), draft("Second Name")).unwrap();
    assert_eq!(second.slug, "second-name-2024-03-05");
    let third = blog.update_as(id(1), on(6), draft("Third Name")).unwrap();
    assert_eq!(third.slug, "third-name-2024-03-06");

    for old in ["first-name-2024-03-05", "second-name-2024-03-05"] {
        assert_eq!(redirect_of(&blog, old), "third-name-2024-03-06");
        assert_eq!(
            blog.directory().resolve_canonical(old),
            Some((id(1), String::from("third-name-2024-03-06")))
        );
    }
    assert_eq!(page_of(&blog, "third-name-2024-03-06").title, "Third Name");
    assert_eq!(page_of(&blog, "bystander-2024-03-05").id, id(2));
    assert_eq!(blog.directory().history(id(1)).len(), 3);
}

#[test]
fn every_issued_slug_leads_to_a_page_in_at_most_one_redirect() {
    let mut blog = Coordinator::new();
    blog.publish_as(id(1), on(5), draft("Alpha")).unwrap();
    blog.publish_as(id(2), on(5), draft("Alpha")).unwrap();
    blog.update_as(id(1), on(5), draft("Beta")).unwrap();
    blog.update_as(id(2), on(6), draft("Beta")).unwrap();
    blog.update_as(id(1), on(6), draft("Alpha")).unwrap();
    blog.update_as(id(1), on(5), draft("Alpha")).unwrap();
    blog.update_as(id(2), on(5), draft("Gamma")).unwrap();
    for post in [id(1), id(2)] {
        for row in blog.directory().history(post) {
            match blog.read_by_slug(&row.slug) {
                Ok(Reading::Page(page)) => assert_eq!(page.id, post),
                Ok(Reading::Redirect(target)) => {
                    assert_ne!(target, row.slug);
                    assert_eq!(page_of(&blog, &target).id, post);
                },
                Err(error) => panic!("{}: {error:?}", row.slug),
            }
        }
        let current = blog.directory().history(post);
        assert_eq!(current.iter().filter(|row| row.superseded_by.is_none()).count(), 1);
    }
}

#[test]
fn update_back_to_an_earlier_base_reuses_the_earlier_slug() {
    let mut blog = Coordinator::new();
    blog.publish_as(id(1), on(5), draft("Alpha")).unwrap();
    blog.update_as(id(1), on(5), draft("Beta")).unwrap();
    let back = blog.update_as(id(1), on(5), draft("Alpha")).unwrap();
    assert_eq!(back.slug, "alpha-2024-03-05");
    assert_eq!(blog.directory().len(), 2);
    assert_eq!(page_of(&blog, "alpha-2024-03-05").title, "Alpha");
    assert_eq!(redirect_of(&blog, "beta-2024-03-05"), "alpha-2024-03-05");
}

#[test]
fn update_onto_a_base_of_another_post_is_numbered() {
    let mut blog = Coordinator::new();
    blog.publish_as(id(1), on(5), draft("Taken")).unwrap();
    blog.publish_as(id(2), on(5), draft("Taken")).unwrap();
    blog.publish_as(id(3), on(5), draft("Mine")).unwrap();
    let moved = blog.update_as(id(3), on(5), draft("Taken")).unwrap();
    assert_eq!(moved.slug, "taken-2024-03-05-2");
    assert_eq!(redirect_of(&blog, "mine-2024-03-05"), "taken-2024-03-05-2");
    assert_eq!(page_of(&blog, "taken-2024-03-05").id, id(1));
    assert_eq!(page_of(&blog, "taken-2024-03-05-1").id, id(2));
}

#[test]
fn update_archives_the_version_it_replaces() {
    let mut blog = Coordinator::new();
    let first = Draft {
        title: String::from("First Version"),
        subtitle: Some(String::from("first subtitle")),
        content: String::from("first content"),
    };
    blog.publish_as(id(1), on(5), first).unwrap();
    blog.publish_as(id(2), on(5), draft("Other")).unwrap();
    assert_eq!(blog.store().archive_len(), 0);

    let revision = Draft {
        title: String::from("Revised"),
        subtitle: None,
        content: String::from("second content"),
    };
    let receipt = blog.update_as(id(1), on(6), revision).unwrap();
    assert_eq!(blog.store().archive_len(), 1);
    let versions = blog.store().archived(id(1));
    assert_eq!(versions.len(), 1);
    assert_eq!(versions[0].id, id(1));
    assert_eq!(versions[0].title, "First Version");
    assert_eq!(versions[0].subtitle.as_deref(), Some("first subtitle"));
    assert_eq!(versions[0].content, "first content");
    assert_eq!(versions[0].published, on(5));
    assert_eq!(versions[0].revised, on(5));

    let stored = blog.store().find_by_id(id(1)).unwrap();
    assert_eq!(stored.title, "Revised");
    assert_eq!(stored.subtitle, None);
    assert_eq!(stored.content, "second content");
    assert_eq!(stored.published, on(5));
    assert_eq!(stored.revised, on(6));
    assert_eq!(page_of(&blog, &receipt.slug).title, "Revised");

    blog.update_as(id(1), on(7), draft("Revised Again")).unwrap();
    let versions = blog.store().archived(id(1));
    assert_eq!(versions.len(), 2);
    assert_eq!(versions[0].title, "First Version");
    assert_eq!(versions[1].title, "Revised");
    assert_eq!(versions[1].revised, on(6));
    assert_eq!(blog.store().archive_len(), 2);
    assert!(blog.store().archived(id(2)).is_empty());
    assert_eq!(blog.store().find_by_id(id(2)).unwrap().title, "Other");
    assert_eq!(blog.store().len(), 2);
}

#[test]
fn publish_without_a_title_is_invalid() {
    let mut blog = Coordinator::new();
    assert_eq!(blog.publish_as(id(1), on(5), draft("")).unwrap_err(), BlogError::Invalid);
    assert_eq!(blog.store().len(), 0);
    assert_eq!(blog.directory().len(), 0);
}

#[test]
fn update_without_a_title_is_invalid() {
    let mut blog = Coordinator::new();
    blog.publish_as(id(1), on(5), draft("Titled")).unwrap();
    assert_eq!(blog.update_as(id(1), on(5), draft("")).unwrap_err(), BlogError::Invalid);
    assert_eq!(blog.update_as(id(9), on(5), draft("")).unwrap_err(), BlogError::Invalid);
    assert_eq!(blog.store().archive_len(), 0);
    assert_eq!(page_of(&blog, "titled-2024-03-05").title, "Titled");
}

#[test]
fn update_of_an_unknown_post_is_not_found() {
    let mut blog = Coordinator::new();
    blog.publish_as(id(1), on(5), draft("Known")).unwrap();
    assert_eq!(blog.update_as(id(2), on(5), draft("Unknown")).unwrap_err(), BlogError::NotFound);
    assert_eq!(blog.store().len(), 1);
    assert_eq!(blog.store().archive_len(), 0);
    assert_eq!(blog.directory().len(), 1);
    assert!(!blog.directory().contains("unknown-2024-03-05"));
}

#[test]
fn read_of_an_unknown_slug_is_not_found() {
    let mut blog = Coordinator::new();
    assert_eq!(blog.read_by_slug("nothing").unwrap_err(), BlogError::NotFound);
    blog.publish_as(id(1), on(5), draft("Known")).unwrap();
    assert_eq!(blog.read_by_slug("known").unwrap_err(), BlogError::NotFound);
    assert_eq!(blog.read_by_slug("known-2024-03-05-1").unwrap_err(), BlogError::NotFound);
    assert_eq!(blog.read_by_slug("Known-2024-03-05").unwrap_err(), BlogError::NotFound);
}

#[test]
fn publish_under_a_stored_identifier_is_refused() {
    let mut blog = Coordinator::new();
    blog.publish_as(id(1), on(5), draft("First")).unwrap();
    assert_eq!(
        blog.publish_as(id(1), on(5), draft("Second")).unwrap_err(),
        BlogError::Storage(StorageFailure::DuplicatePost)
    );
    assert_eq!(blog.store().len(), 1);
    assert_eq!(blog.directory().len(), 1);
    assert_eq!(page_of(&blog, "first-2024-03-05").title, "First");
    assert_eq!(blog.read_by_slug("second-2024-03-05").unwrap_err(), BlogError::NotFound);
}

#[test]
fn publish_that_fails_at_the_slug_leaves_no_post_and_no_slug() {
    // One slug begins with the base, and it is the very slug that the count
    // asks for: the post can be written, its slug cannot.
    let mut directory = SlugDirectory::new();
    directory.insert(String::from("clash-2024-03-05-1"), id(1)).unwrap();
    let mut store = PostStore::new();
    store
        .insert(blog3::post::Post {
            id: id(1),
            title: String::from("Clash 2024-03-05 1"),
            subtitle: None,
            content: String::new(),
            published: on(1),
            revised: on(1),
        })
        .unwrap();
    let mut blog = Coordinator::from_parts(store, directory);

    assert_eq!(
        blog.publish_as(id(2), on(5), draft("Clash")).unwrap_err(),
        BlogError::Storage(StorageFailure::DuplicateSlug)
    );
    assert!(!blog.store().contains(id(2)));
    assert!(blog.store().find_by_id(id(2)).is_none());
    assert_eq!(blog.store().len(), 1);
    assert_eq!(blog.store().archive_len(), 0);
    assert_eq!(blog.directory().len(), 1);
    assert!(blog.directory().history(id(2)).is_empty());
    assert_eq!(page_of(&blog, "clash-2024-03-05-1").id, id(1));
}

#[test]
fn update_that_fails_at_the_slug_leaves_the_post_as_it_was() {
    let mut directory = SlugDirectory::new();
    directory.insert(String::from("clash-2024-03-05-1"), id(1)).unwrap();
    directory.insert(String::from("mine-2024-03-05"), id(2)).unwrap();
    let mut store = PostStore::new();
    for (n, title) in [(1, "Clash 2024-03-05 1"), (2, "Mine")] {
        store
            .insert(blog3::post::Post {
                id: id(n),
                title: String::from(title),
                subtitle: None,
                content: String::from("before"),
                published: on(5),
                revised: on(5),
            })
            .unwrap();
    }
    let mut blog = Coordinator::from_parts(store, directory);

    assert_eq!(
        blog.update_as(id(2), on(5), draft("Clash")).unwrap_err(),
        BlogError::Storage(StorageFailure::DuplicateSlug)
    );
    let post = page_of(&blog, "mine-2024-03-05");
    assert_eq!(post.title, "Mine");
    assert_eq!(post.content, "before");
    assert_eq!(blog.store().archive_len(), 0);
    assert_eq!(blog.directory().len(), 2);
    assert_eq!(blog.directory().history(id(2))[0].superseded_by, None);
}

#[test]
fn slug_without_a_post_is_an_inconsistency() {
    let mut directory = SlugDirectory::new();
    directory.insert(String::from("orphan"), id(1)).unwrap();
    directory.insert(String::from("orphan-old"), id(1)).unwrap();
    directory.retarget(id(1), "orphan");
    let blog = Coordinator::from_parts(PostStore::new(), directory);
    assert_eq!(blog.read_by_slug("orphan").unwrap_err(), BlogError::Inconsistent);
    // a retired slug is redirected without a look at the store
    assert_eq!(redirect_of(&blog, "orphan-old"), "orphan");
    assert_eq!(blog.read_by_slug("other").unwrap_err(), BlogError::NotFound);
}

#[test]
fn publish_draws_an_identifier_and_reads_the_clock() {
    let mut blog = Coordinator::new();
    let first = blog.publish(draft("Drawn")).unwrap();
    let second = blog.publish(draft("Drawn Too")).unwrap();
    assert_ne!(first.id, second.id);
    let post = page_of(&blog, &first.slug);
    assert_eq!(post.id, first.id);
    assert_eq!(post.title, "Drawn");
    assert!(post.published.is_in_range());
    assert_eq!(post.published, post.revised);
    assert_eq!(first.slug, post.slug());
    assert!(first.slug.starts_with("drawn-"));
    assert_eq!(blog.publish(draft("")).unwrap_err(), BlogError::Invalid);
}

#[test]
fn update_reads_the_clock() {
    let mut blog = Coordinator::new();
    let first = blog.publish(draft("Before")).unwrap();
    let published = page_of(&blog, &first.slug).published;
    let second = blog.update(first.id, draft("After")).unwrap();
    assert_eq!(second.id, first.id);
    let post = page_of(&blog, &second.slug);
    assert_eq!(post.title, "After");
    assert_eq!(post.published, published);
    assert!(post.revised.is_in_range());
    assert_eq!(second.slug, post.slug());
    assert_eq!(blog.store().archived(first.id).len(), 1);
    assert_eq!(blog.update(id(0), draft("Nobody")).unwrap_err(), BlogError::NotFound);
}

#[test]
fn perform_dispatches_each_operation() {
    let mut blog = Coordinator::new();
    let receipt = match blog.perform(Operation::Publish(draft("Dispatched"))) {
        Ok(Answer::Revised(receipt)) => receipt,
        other => panic!("{other:?}"),
    };
    assert!(receipt.slug.starts_with("dispatched-"));
    match blog.perform(Operation::ReadBySlug(receipt.slug.clone())) {
        Ok(Answer::Served(Reading::Page(post))) => assert_eq!(post.id, receipt.id),
        other => panic!("{other:?}"),
    }
    let revised = match blog.perform(Operation::Update(receipt.id, draft("Dispatched Again"))) {
        Ok(Answer::Revised(revised)) => revised,
        other => panic!("{other:?}"),
    };
    assert_eq!(revised.id, receipt.id);
    match blog.perform(Operation::ReadBySlug(receipt.slug.clone())) {
        Ok(Answer::Served(Reading::Redirect(target))) => assert_eq!(target, revised.slug),
        other => panic!("{other:?}"),
    }
    match blog.perform(Operation::ReadBySlug(String::from("missing"))) {
        Err(error) => assert_eq!(error, BlogError::NotFound),
        other => panic!("{other:?}"),
    }
    match blog.perform(Operation::Update(id(0), draft("Nobody"))) {
        Err(error) => assert_eq!(error, BlogError::NotFound),
        other => panic!("{other:?}"),
    }
    match blog.perform(Operation::Publish(draft(""))) {
        Err(error) => assert_eq!(error, BlogError::Invalid),
        other => panic!("{other:?}"),
    }
}

#[test]
fn from_parts_keeps_what_it_is_given() {
    let mut directory = SlugDirectory::new();
    directory.insert(String::from("given"), id(4)).unwrap();
    let mut store = PostStore::new();
    store
        .insert(blog3::post::Post {
            id: id(4),
            title: String::from("Given"),
            subtitle: None,
            content: String::new(),
            published: on(5),
            revised: on(5),
        })
        .unwrap();
    let blog = Coordinator::from_parts(store, directory);
    assert_eq!(blog.store().len(), 1);
    assert_eq!(blog.directory().len(), 1);
    assert_eq!(page_of(&blog, "given").id, id(4));
}
