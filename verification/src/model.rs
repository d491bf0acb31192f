//! The provider-agnostic canonical model: `Channel`, `Item` and
//! `Enclosure` value types that every adapter produces and the feed
//! synthesizer consumes. URLs are carried as plain strings and
//! timestamps as seconds since the Unix epoch (UTC).

use vstd::prelude::*;

verus! {

/// The enclosed media content of an item.
#[derive(Debug, Clone)]
pub struct Enclosure {
    /// The relative download path identifying the item within its
    /// back-end. It carries no data itself: it is the key later handed
    /// back to the adapter to resolve the live media URL.
    pub file: String,
    /// The MIME type of the enclosed media.
    pub mime_type: String,
    /// The length of the enclosed media in bytes, exact or estimated.
    pub length: u64,
}

/// A content item belonging to a channel.
#[derive(Debug, Clone)]
pub struct Item {
    /// The title of the item.
    pub title: String,
    /// The direct URL of the item on its provider.
    pub link: String,
    /// The description of the item.
    pub description: Option<String>,
    /// The categories of the item, each with its domain URL.
    pub categories: Vec<(String, String)>,
    /// The enclosed media content.
    pub enclosure: Enclosure,
    /// The duration of the media content in seconds.
    pub duration: Option<u32>,
    /// The stable, provider-assigned ID of the item; not a permalink.
    pub guid: String,
    /// The keywords associated with the item, provider order preserved.
    pub keywords: Vec<String>,
    /// The URL of the image of the item.
    pub image: Option<String>,
    /// When the item was published (seconds since the Unix epoch).
    pub published_at: i64,
    /// When the item was last updated (seconds since the Unix epoch).
    /// Equals `published_at` when the provider has no update time.
    pub updated_at: i64,
}

/// The metadata of a collection of content items.
#[derive(Debug, Clone)]
pub struct Channel {
    /// The title of the channel, provider name appended.
    pub title: String,
    /// The canonical URL of the channel on its provider.
    pub link: String,
    /// The description of the channel.
    pub description: String,
    /// The author/creator of the channel.
    pub author: Option<String>,
    /// The categories of the channel; the first one is the "main"
    /// category. Never reordered after construction.
    pub categories: Vec<String>,
    /// The URL of the image/logo/avatar of the channel.
    pub image: Option<String>,
    /// The contained content items, provider order preserved.
    pub items: Vec<Item>,
}

} // verus!
