//! The feed synthesizer: a deterministic, pure mapping from a canonical
//! channel to the field set of the output feed document. Serializing
//! the document is left to the caller; everything the document says is
//! derived here.

use vstd::prelude::*;

use crate::model::{Channel, Item};
use crate::strutil::{dec_str, join, join_sep, str_views, u64_to_dec};

verus! {

/// The generator string the feed carries: this implementation's name
/// and version.
pub const GENERATOR: &'static str = "podbringer 0.1.0";

/// The largest timestamp the feed's date format can carry: the last
/// second of year 9999 (RFC 2822 has four-digit years).
pub const MAX_FEED_TIMESTAMP: i64 = 253402300799;

/// The RFC 2822 rendering of a timestamp (seconds since the Unix
/// epoch), in UTC; a function of the timestamp alone.
pub uninterp spec fn rfc2822_of(ts: int) -> Seq<char>;

/// Relies on chrono's DateTime::from_timestamp and to_rfc2822: the
/// RFC 2822 date-and-time string of a timestamp, in UTC. The range
/// keeps the year within 0..=9999, where the rendering is defined.
#[verifier::external_body]
fn rfc2822_utc(ts: i64) -> (r: String)
    requires
        0 <= ts <= MAX_FEED_TIMESTAMP,
    ensures
        r@ == rfc2822_of(ts as int),
{
    match chrono::DateTime::<chrono::Utc>::from_timestamp(ts, 0) {
        Some(dt) => dt.to_rfc2822(),
        None => String::new(),
    }
}

/// One item of the feed document, every field already rendered.
#[derive(Debug, Clone)]
pub struct FeedItem {
    /// The title of the item.
    pub title: String,
    /// The provider URL of the item.
    pub link: String,
    /// The description of the item.
    pub description: Option<String>,
    /// The categories of the item, each with its domain URL.
    pub categories: Vec<(String, String)>,
    /// The download URL of the enclosure.
    pub enclosure_url: String,
    /// The byte count of the enclosure, as a decimal string.
    pub enclosure_length: String,
    /// The MIME type of the enclosure.
    pub enclosure_mime_type: String,
    /// The GUID of the item.
    pub guid: String,
    /// Whether the GUID is a permalink: it is not.
    pub guid_is_permalink: bool,
    /// The publication date, RFC 2822.
    pub pub_date: String,
    /// The image of the item, for the podcast extension.
    pub image: Option<String>,
    /// The duration in seconds as a decimal string, if known.
    pub duration: Option<String>,
    /// The subtitle of the item: its description.
    pub subtitle: Option<String>,
    /// The keywords of the item, joined with a comma and a space.
    pub keywords: String,
}

/// The feed document: the channel-level fields and the items.
#[derive(Debug, Clone)]
pub struct FeedDocument {
    /// The title of the channel.
    pub title: String,
    /// The link of the channel.
    pub link: String,
    /// The description of the channel.
    pub description: String,
    /// The single feed-level category: the channel's main category.
    pub category: String,
    /// The last-build date, RFC 2822.
    pub last_build_date: String,
    /// The generator string.
    pub generator: String,
    /// The image URL of the channel; the image links to itself.
    pub image: Option<String>,
    /// The items of the feed, channel order preserved.
    pub items: Vec<FeedItem>,
    /// The author, for the podcast extension.
    pub author: Option<String>,
    /// All categories of the channel, for the podcast extension.
    pub categories: Vec<String>,
    /// The image URL, for the podcast extension.
    pub ext_image: Option<String>,
    /// The explicit flag, for the podcast extension: always "no".
    pub explicit: String,
    /// The summary, for the podcast extension: the description.
    pub summary: String,
}

/// The last-build timestamp of a channel: the greatest `updated_at`
/// among its items, or the epoch itself for a channel without items.
pub open spec fn spec_last_build(items: Seq<Item>) -> int
    decreases items.len(),
{
    if items.len() == 0 {
        0
    } else {
        let rest = spec_last_build(items.drop_last());
        if items.last().updated_at > rest {
            items.last().updated_at as int
        } else {
            rest
        }
    }
}

/// Law: last-build derivation. The synthesized last-build timestamp is
/// an upper bound of every item's update time; for a channel with items
/// it is attained by one of them, and for an empty channel it is the
/// epoch itself.
pub proof fn lemma_last_build_is_max(items: Seq<Item>)
    requires
        forall|i: int| 0 <= i < items.len() ==> (#[trigger] items[i]).updated_at >= 0,
    ensures
        forall|i: int| 0 <= i < items.len() ==> items[i].updated_at <= spec_last_build(items),
        items.len() > 0 ==> exists|i: int|
            0 <= i < items.len() && items[i].updated_at == spec_last_build(items),
        items.len() == 0 ==> spec_last_build(items) == 0,
        spec_last_build(items) >= 0,
    decreases items.len(),
{
    if items.len() > 0 {
        lemma_last_build_is_max(items.drop_last());
        let rest = spec_last_build(items.drop_last());
        if items.last().updated_at > rest {
            assert(items[items.len() - 1].updated_at == spec_last_build(items));
        } else {
            if items.len() > 1 {
                let i = choose|i: int|
                    0 <= i < items.len() - 1 && items.drop_last()[i].updated_at == rest;
                assert(items[i].updated_at == spec_last_build(items));
            } else {
                assert(items[0].updated_at == spec_last_build(items));
            }
        }
        assert(forall|i: int|
            0 <= i < items.len() - 1 ==> items[i].updated_at == items.drop_last()[i].updated_at);
    }
}

/// How one feed item renders one channel item for a back-end and public
/// base URL: the download URL names the back-end and the enclosure
/// path, counts and dates are rendered, the GUID is no permalink, and
/// the keywords are joined with a comma and a space.
pub open spec fn feed_item_of(f: FeedItem, it: Item, backend_id: Seq<char>, base: Seq<char>) -> bool {
    &&& f.title == it.title
    &&& f.link == it.link
    &&& f.description == it.description
    &&& f.categories == it.categories
    &&& f.enclosure_url@ == base + "/download/"@ + backend_id + "/"@ + it.enclosure.file@
    &&& f.enclosure_length@ == dec_str(it.enclosure.length as nat)
    &&& f.enclosure_mime_type == it.enclosure.mime_type
    &&& f.guid == it.guid
    &&& f.guid_is_permalink == false
    &&& f.pub_date@ == rfc2822_of(it.updated_at as int)
    &&& f.image == it.image
    &&& (match (f.duration, it.duration) {
        (Some(s), Some(d)) => s@ == dec_str(d as nat),
        (None, None) => true,
        _ => false,
    })
    &&& (match (f.subtitle, it.description) {
        (Some(s), Some(d)) => s@ == d@,
        (None, None) => true,
        _ => false,
    })
    &&& f.keywords@ == join_sep(str_views(it.keywords@), ", "@)
}

/// Renders one channel item as a feed item, as [`feed_item_of`] states.
fn construct_item(backend_id: &str, base: &str, it: Item) -> (f: FeedItem)
    requires
        0 <= it.updated_at <= MAX_FEED_TIMESTAMP,
    ensures
        feed_item_of(f, it, backend_id@, base@),
{
    let mut enclosure_url = String::from_str(base);
    enclosure_url.append("/download/");
    enclosure_url.append(backend_id);
    enclosure_url.append("/");
    enclosure_url.append(it.enclosure.file.as_str());
    proof {
        assert(enclosure_url@ =~= base@ + "/download/"@ + backend_id@ + "/"@ + it.enclosure.file@);
    }
    let enclosure_length = u64_to_dec(it.enclosure.length);
    let pub_date = rfc2822_utc(it.updated_at);
    let duration = match &it.duration {
        Some(d) => Some(u64_to_dec(*d as u64)),
        None => None,
    };
    let subtitle = match &it.description {
        Some(d) => Some(d.clone()),
        None => None,
    };
    let keywords = join(&it.keywords, ", ");
    FeedItem {
        title: it.title,
        link: it.link,
        description: it.description,
        categories: it.categories,
        enclosure_url,
        enclosure_length,
        enclosure_mime_type: it.enclosure.mime_type,
        guid: it.guid,
        guid_is_permalink: false,
        pub_date,
        image: it.image,
        duration,
        subtitle,
        keywords,
    }
}

/// Builds the feed document for a channel fetched from a back-end,
/// with download URLs rooted at the public base URL. Deterministic and
/// pure: the feed category is the channel's first category (empty for
/// none), the last-build date renders the greatest update time among
/// the items (the epoch for none), and the items are rendered in
/// channel order.
pub fn construct(backend_id: &str, base: &str, channel: Channel) -> (doc: FeedDocument)
    requires
        forall|i: int|
            0 <= i < channel.items@.len() ==> 0 <= (#[trigger] channel.items@[i]).updated_at
                <= MAX_FEED_TIMESTAMP,
    ensures
        doc.title == channel.title,
        doc.link == channel.link,
        doc.description@ == channel.description@,
        doc.category@ == (if channel.categories@.len() > 0 {
            channel.categories@[0]@
        } else {
            Seq::<char>::empty()
        }),
        doc.last_build_date@ == rfc2822_of(spec_last_build(channel.items@)),
        doc.generator@ == GENERATOR@,
        (match (doc.image, channel.image) {
            (Some(a), Some(b)) => a@ == b@,
            (None, None) => true,
            _ => false,
        }),
        doc.items@.len() == channel.items@.len(),
        forall|i: int|
            0 <= i < channel.items@.len() ==> feed_item_of(
                #[trigger] doc.items@[i],
                channel.items@[i],
                backend_id@,
                base@,
            ),
        doc.author == channel.author,
        doc.categories == channel.categories,
        doc.ext_image == channel.image,
        doc.explicit@ == "no"@,
        doc.summary == channel.description,
{
    let category = if channel.categories.len() > 0 {
        channel.categories[0].clone()
    } else {
        String::new()
    };
    let ghost orig_items = channel.items@;
    let mut rest = channel.items;
    let mut items: Vec<FeedItem> = Vec::new();
    let mut last_build: i64 = 0;
    while rest.len() > 0
        invariant
            items@.len() + rest@.len() == orig_items.len(),
            rest@ =~= orig_items.subrange(items@.len() as int, orig_items.len() as int),
            forall|i: int|
                0 <= i < orig_items.len() ==> 0 <= (#[trigger] orig_items[i]).updated_at
                    <= MAX_FEED_TIMESTAMP,
            forall|i: int|
                0 <= i < items@.len() ==> feed_item_of(
                    #[trigger] items@[i],
                    orig_items[i],
                    backend_id@,
                    base@,
                ),
            last_build == spec_last_build(orig_items.take(items@.len() as int)),
            0 <= last_build <= MAX_FEED_TIMESTAMP,
        decreases rest@.len(),
    {
        let ghost done = items@.len() as int;
        let it = rest.remove(0);
        proof {
            assert(it == orig_items[done]);
            assert(orig_items.take(done + 1).drop_last() =~= orig_items.take(done));
            assert(orig_items.take(done + 1).last() == orig_items[done]);
        }
        if it.updated_at > last_build {
            last_build = it.updated_at;
        }
        let f = construct_item(backend_id, base, it);
        items.push(f);
    }
    proof {
        assert(orig_items.take(orig_items.len() as int) =~= orig_items);
    }
    let last_build_date = rfc2822_utc(last_build);
    let image = match &channel.image {
        Some(u) => Some(u.clone()),
        None => None,
    };
    FeedDocument {
        title: channel.title,
        link: channel.link,
        description: channel.description.clone(),
        category,
        last_build_date,
        generator: String::from_str(GENERATOR),
        image,
        items,
        author: channel.author,
        categories: channel.categories,
        ext_image: channel.image,
        explicit: String::from_str("no"),
        summary: channel.description,
    }
}

} // verus!
