//! The static files that the blog serves beside its pages.

use crate::text::same_text;
use vstd::prelude::*;

verus! {

/// How long a browser may keep a style sheet.
pub const CACHE_BRIEFLY: &'static str = "max-age=3600, must-revalidate";

/// How long a browser may keep an icon: a year.
pub const CACHE_FOR_GOOD: &'static str = "max-age=31536000, immutable";

/// A static file and how it is served.
#[derive(Clone, Copy, Debug)]
pub struct Asset {
    /// The value of the `Content-Type` header.
    pub content_type: &'static str,
    /// The file, below the directory of the front end.
    pub file: &'static str,
    /// The value of the `Cache-Control` header.
    pub cache_control: &'static str,
}

/// The content type, the file and the cache policy of the asset that is
/// served under `item`, if there is one.
pub open spec fn asset_of(item: Seq<char>) -> Option<(Seq<char>, Seq<char>, Seq<char>)> {
    if item == "post.css"@ {
        Some(("text/css"@, "post.css"@, CACHE_BRIEFLY@))
    } else if item == "index.css"@ {
        Some(("text/css"@, "index.css"@, CACHE_BRIEFLY@))
    } else if item == "apple-touch-icon.png"@ {
        Some(("image/png"@, "assets/apple-touch-icon.png"@, CACHE_FOR_GOOD@))
    } else if item == "favicon-96x96.png"@ {
        Some(("image/png"@, "assets/favicon-96x96.png"@, CACHE_FOR_GOOD@))
    } else if item == "favicon.ico"@ {
        Some(("image/x-icon"@, "assets/favicon.ico"@, CACHE_FOR_GOOD@))
    } else if item == "favicon.svg"@ {
        Some(("image/svg+xml"@, "assets/favicon.svg"@, CACHE_FOR_GOOD@))
    } else if item == "web-app-manifest-192x192.png"@ {
        Some(("image/png"@, "assets/web-app-manifest-192x192.png"@, CACHE_FOR_GOOD@))
    } else if item == "web-app-manifest-512x512.png"@ {
        Some(("image/png"@, "assets/web-app-manifest-512x512.png"@, CACHE_FOR_GOOD@))
    } else {
        None
    }
}

/// The asset that is served under `item`. Any other name is not found.
pub fn asset(item: &str) -> (found: Option<Asset>)
    ensures
        match found {
            Some(asset) => asset_of(item@) == Some(
                (asset.content_type@, asset.file@, asset.cache_control@),
            ),
            None => asset_of(item@) is None,
        },
{
    if same_text(item, "post.css") {
        Some(Asset { content_type: "text/css", file: "post.css", cache_control: CACHE_BRIEFLY })
    } else if same_text(item, "index.css") {
        Some(Asset { content_type: "text/css", file: "index.css", cache_control: CACHE_BRIEFLY })
    } else if same_text(item, "apple-touch-icon.png") {
        Some(
            Asset {
                content_type: "image/png",
                file: "assets/apple-touch-icon.png",
                cache_control: CACHE_FOR_GOOD,
            },
        )
    } else if same_text(item, "favicon-96x96.png") {
        Some(
            Asset {
                content_type: "image/png",
                file: "assets/favicon-96x96.png",
                cache_control: CACHE_FOR_GOOD,
            },
        )
    } else if same_text(item, "favicon.ico") {
        Some(
            Asset {
                content_type: "image/x-icon",
                file: "assets/favicon.ico",
                cache_control: CACHE_FOR_GOOD,
            },
        )
    } else if same_text(item, "favicon.svg") {
        Some(
            Asset {
                content_type: "image/svg+xml",
                file: "assets/favicon.svg",
                cache_control: CACHE_FOR_GOOD,
            },
        )
    } else if same_text(item, "web-app-manifest-192x192.png") {
        Some(
            Asset {
                content_type: "image/png",
                file: "assets/web-app-manifest-192x192.png",
                cache_control: CACHE_FOR_GOOD,
            },
        )
    } else if same_text(item, "web-app-manifest-512x512.png") {
        Some(
            Asset {
                content_type: "image/png",
                file: "assets/web-app-manifest-512x512.png",
                cache_control: CACHE_FOR_GOOD,
            },
        )
    } else {
        None
    }
}

} // verus!
