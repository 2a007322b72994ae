use blog3::directory::SlugRow;
use blog3::ident::PostId;
use blog3::policy::{slug_for_publish, slug_for_update};

const A: PostId = PostId { value: 1 };
const B: PostId = PostId { value: 2 };
const C: PostId = PostId { value: 3 };

fn row(slug: &str, post: PostId) -> SlugRow {
    SlugRow { slug: String::from(slug), post, superseded_by: None }
}

#[test]
fn publish_keeps_a_free_base() {
    assert_eq!(slug_for_publish(String::from("base"), 0), "base");
}

#[test]
fn publish_numbers_a_taken_base_by_the_count() {
    assert_eq!(slug_for_publish(String::from("base"), 1), "base-1");
    assert_eq!(slug_for_publish(String::from("base"), 2), "base-2");
    assert_eq!(slug_for_publish(String::from("base"), 10), "base-10");
    assert_eq!(slug_for_publish(String::from("hello-2024-03-05"), 123), "hello-2024-03-05-123");
}

#[test]
fn update_with_a_free_base_mints_the_base() {
    let choice = slug_for_update(String::from("base"), &Vec::new(), A);
    assert_eq!(choice.slug, "base");
    assert!(choice.minted);
}

#[test]
fn update_colliding_with_other_posts_mints_a_numbered_slug() {
    let similar = vec![row("base", B), row("base-1", C)];
    let choice = slug_for_update(String::from("base"), &similar, A);
    assert_eq!(choice.slug, "base-2");
    assert!(choice.minted);
    let one = vec![row("base", B)];
    let choice = slug_for_update(String::from("base"), &one, A);
    assert_eq!(choice.slug, "base-1");
    assert!(choice.minted);
}

#[test]
fn update_reuses_the_slug_that_the_post_owns() {
    let similar = vec![row("base", B), row("base-1", A), row("base-2", C)];
    let choice = slug_for_update(String::from("base"), &similar, A);
    assert_eq!(choice.slug, "base-1");
    assert!(!choice.minted);
    let only = vec![row("base", A)];
    let choice = slug_for_update(String::from("base"), &only, A);
    assert_eq!(choice.slug, "base");
    assert!(!choice.minted);
}

#[test]
fn update_reuses_the_youngest_of_several_owned_slugs() {
    let similar = vec![row("base", A), row("base-1", B), row("base-2024", A), row("base-3", C)];
    let choice = slug_for_update(String::from("base"), &similar, A);
    assert_eq!(choice.slug, "base-2024");
    assert!(!choice.minted);
}

#[test]
fn update_ignores_where_rows_point() {
    let mut retired = row("base", A);
    retired.superseded_by = Some(String::from("elsewhere"));
    let choice = slug_for_update(String::from("base"), &vec![retired], A);
    assert_eq!(choice.slug, "base");
    assert!(!choice.minted);
}
