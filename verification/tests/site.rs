use blog3::access::{check_access, Access, Credentials, DEFAULT_REALM};
use blog3::assets::{asset, CACHE_BRIEFLY, CACHE_FOR_GOOD};
use blog3::site::{trim_slashes, PageRoot, DOT_DIR};

#[test]
fn trim_slashes_matches_trim_matches() {
    for text in ["", "/", "//", "blog", "/blog", "blog/", "/blog/", "//a/b//", "a//b", "/é/", "///x"] {
        assert_eq!(trim_slashes(text), text.trim_matches('/'), "{text}");
    }
}

#[test]
fn page_root_is_normalised() {
    assert_eq!(PageRoot::new("").as_str(), "/");
    assert_eq!(PageRoot::new("/").as_str(), "/");
    assert_eq!(PageRoot::new("///").as_str(), "/");
    assert_eq!(PageRoot::new("blog").as_str(), "/blog");
    assert_eq!(PageRoot::new("/blog/").as_str(), "/blog");
    assert_eq!(PageRoot::new("/a/b/").as_str(), "/a/b");
}

#[test]
fn route_below_the_top() {
    let root = PageRoot::new("/");
    assert_eq!(root.route("/"), "/");
    assert_eq!(root.route("/hello-world-2024-03-05"), "/hello-world-2024-03-05");
    assert_eq!(root.route("/edit/{page}"), "/edit/{page}");
}

#[test]
fn route_below_a_root() {
    let root = PageRoot::new("blog");
    assert_eq!(root.route("/"), "/blog/");
    assert_eq!(root.route("/hello-world-2024-03-05"), "/blog/hello-world-2024-03-05");
}

#[test]
fn route_dot_below_the_top() {
    assert_eq!(DOT_DIR, ".blog3");
    let root = PageRoot::new("");
    assert_eq!(root.route_dot("/publish"), "/.blog3/publish");
    assert_eq!(root.route_dot("/assets/{item}"), "/.blog3/assets/{item}");
}

#[test]
fn route_dot_below_a_root() {
    let root = PageRoot::new("/my/blog/");
    assert_eq!(root.route_dot("/publish"), "/my/blog/.blog3/publish");
    assert_eq!(root.route_dot("/publish/{update}"), "/my/blog/.blog3/publish/{update}");
}

fn credentials(realm: Option<&str>) -> Credentials {
    Credentials {
        user: String::from("author"),
        password: String::from("secret"),
        realm: realm.map(String::from),
    }
}

#[test]
fn access_without_configuration_is_granted() {
    assert!(matches!(check_access(None, None), Access::Granted));
    assert!(matches!(check_access(None, Some(("anyone", "anything"))), Access::Granted));
}

#[test]
fn access_with_the_right_credentials_is_granted() {
    let expected = credentials(None);
    assert!(matches!(check_access(Some(&expected), Some(("author", "secret"))), Access::Granted));
}

#[test]
fn access_with_wrong_credentials_is_denied() {
    let expected = credentials(Some("realm"));
    for offered in [("author", "wrong"), ("other", "secret"), ("", ""), ("Author", "secret"), ("author", "secret ")] {
        assert!(matches!(check_access(Some(&expected), Some(offered)), Access::Denied));
    }
}

#[test]
fn access_without_credentials_is_challenged() {
    match check_access(Some(&credentials(Some("my realm"))), None) {
        Access::Challenge(realm) => assert_eq!(realm, "my realm"),
        other => panic!("{other:?}"),
    }
    match check_access(Some(&credentials(None)), None) {
        Access::Challenge(realm) => {
            assert_eq!(realm, DEFAULT_REALM);
            assert_eq!(realm, "mycoolblog");
        },
        other => panic!("{other:?}"),
    }
}

#[test]
fn assets_by_name() {
    let cases = [
        ("post.css", "text/css", "post.css", CACHE_BRIEFLY),
        ("index.css", "text/css", "index.css", CACHE_BRIEFLY),
        ("apple-touch-icon.png", "image/png", "assets/apple-touch-icon.png", CACHE_FOR_GOOD),
        ("favicon-96x96.png", "image/png", "assets/favicon-96x96.png", CACHE_FOR_GOOD),
        ("favicon.ico", "image/x-icon", "assets/favicon.ico", CACHE_FOR_GOOD),
        ("favicon.svg", "image/svg+xml", "assets/favicon.svg", CACHE_FOR_GOOD),
        (
            "web-app-manifest-192x192.png",
            "image/png",
            "assets/web-app-manifest-192x192.png",
            CACHE_FOR_GOOD,
        ),
        (
            "web-app-manifest-512x512.png",
            "image/png",
            "assets/web-app-manifest-512x512.png",
            CACHE_FOR_GOOD,
        ),
    ];
    for (item, content_type, file, cache_control) in cases {
        let found = asset(item).unwrap();
        assert_eq!(found.content_type, content_type);
        assert_eq!(found.file, file);
        assert_eq!(found.cache_control, cache_control);
    }
    assert_eq!(CACHE_BRIEFLY, "max-age=3600, must-revalidate");
    assert_eq!(CACHE_FOR_GOOD, "max-age=31536000, immutable");
}

#[test]
fn assets_unknown_names() {
    for item in ["", "post", "post.css.map", "POST.CSS", "../secret", "favicon.png"] {
        assert!(asset(item).is_none(), "{item}");
    }
}
