//! The Mixcloud adapter: pagination over the cloudcasts listing, the
//! mapping of users and cloudcasts into the canonical model, and the
//! reconstruction of a cloudcast key from a stored download path.
//!
//! Network transport stays outside: a driver fetches each page and feeds
//! the result back into the [`Paging`] state machine, which decides the
//! next request and when to stop.

use vstd::prelude::*;

use crate::model::{Channel, Enclosure, Item};
use crate::paths::{
    last_dot_after, seg_start, spec_stem, spec_with_ext, stem_of, strip_leading, strip_trailing,
    trim_leading, trim_trailing, with_extension,
};
use crate::strutil::{dec_str, u64_to_dec};

verus! {

/// The default bitrate assumed for Mixcloud audio, in bytes per second.
pub const DEFAULT_BITRATE: u64 = 64 * 1024;

/// The default file (MIME) type used by Mixcloud.
pub const DEFAULT_FILE_TYPE: &'static str = "audio/mpeg";

/// The fixed page size of the cloudcasts listing: no single request asks
/// for more items than this, whatever the requested total.
pub const DEFAULT_PAGE_SIZE: usize = 50;

/// Returns the default file type used by Mixcloud.
pub fn default_file_type() -> (r: &'static str)
    ensures
        r@ == DEFAULT_FILE_TYPE@,
{
    DEFAULT_FILE_TYPE
}

/// Returns the estimated file size in bytes for a given duration, from
/// the default bitrate (in B/s): the provider reports no exact size.
pub fn estimated_file_size(duration: u32) -> (r: u64)
    ensures
        r == DEFAULT_BITRATE * duration / 8,
{
    DEFAULT_BITRATE * (duration as u64) / 8
}

/// The smaller of two naturals.
pub open spec fn min_nat(a: nat, b: nat) -> nat {
    if a < b {
        a
    } else {
        b
    }
}

/// The pagination state while walking the cloudcasts listing: how many
/// items are still wanted and the offset of the next page.
pub struct Paging {
    /// How many more items the caller wants.
    pub remaining: usize,
    /// The offset at which the next page starts.
    pub offset: usize,
}

impl Paging {
    /// The starting state for a requested item limit; the provider's
    /// default page size stands in when no limit is given.
    pub fn start(item_limit: Option<usize>) -> (p: Paging)
        ensures
            p.remaining == (match item_limit {
                Some(l) => l,
                None => DEFAULT_PAGE_SIZE,
            }),
            p.offset == 0,
    {
        match item_limit {
            Some(l) => Paging { remaining: l, offset: 0 },
            None => Paging { remaining: DEFAULT_PAGE_SIZE, offset: 0 },
        }
    }

    /// The `limit` parameter of the next page request: the remaining
    /// target, capped at the fixed page size.
    pub fn page_limit(&self) -> (l: usize)
        ensures
            l == min_nat(self.remaining as nat, DEFAULT_PAGE_SIZE as nat),
    {
        if self.remaining < DEFAULT_PAGE_SIZE {
            self.remaining
        } else {
            DEFAULT_PAGE_SIZE
        }
    }

    /// Consumes one page result: `count` items arrived and the provider
    /// reported whether a further page exists. Returns the next state
    /// and whether to fetch another page: pagination goes on exactly
    /// when a next page exists and the remaining target is not yet met.
    pub fn advance(&self, count: usize, has_next: bool) -> (r: (Paging, bool))
        requires
            self.offset + count <= usize::MAX,
        ensures
            r.0.remaining == (if count <= self.remaining {
                self.remaining - count
            } else {
                0
            }),
            r.0.offset == self.offset + count,
            r.1 == (has_next && r.0.remaining > 0),
    {
        let remaining = if count <= self.remaining {
            self.remaining - count
        } else {
            0
        };
        let next = Paging { remaining, offset: self.offset + count };
        let go_on = has_next && remaining > 0;
        (next, go_on)
    }
}

/// The model of a well-behaved provider holding `total` items: a page
/// request at `offset` asking for `remaining` (capped at the page size)
/// returns this many items.
pub open spec fn spec_page_items(remaining: nat, offset: nat, total: nat) -> nat {
    if offset <= total {
        min_nat(min_nat(remaining, 50), (total - offset) as nat)
    } else {
        0
    }
}

/// Whether the model provider reports a further page after `offset`.
pub open spec fn spec_has_next(offset: nat, total: nat) -> bool {
    offset < total
}

/// How many page requests a paginated fetch issues against the model
/// provider, from the given state on.
pub open spec fn pages_fetched(remaining: nat, offset: nat, total: nat) -> nat
    decreases total - offset,
{
    let c = spec_page_items(remaining, offset, total);
    let rem2 = (remaining - c) as nat;
    let off2 = (offset + c) as nat;
    if spec_has_next(off2, total) && rem2 > 0 {
        1 + pages_fetched(rem2, off2, total)
    } else {
        1
    }
}

/// How many items a paginated fetch accumulates against the model
/// provider, from the given state on.
pub open spec fn items_fetched(remaining: nat, offset: nat, total: nat) -> nat
    decreases total - offset,
{
    let c = spec_page_items(remaining, offset, total);
    let rem2 = (remaining - c) as nat;
    let off2 = (offset + c) as nat;
    if spec_has_next(off2, total) && rem2 > 0 {
        c + items_fetched(rem2, off2, total)
    } else {
        c
    }
}

/// The page requests a paginated fetch issues against the model
/// provider: each as its `(limit, offset)` query pair, in order.
pub open spec fn requests_made(remaining: nat, offset: nat, total: nat) -> Seq<(nat, nat)>
    decreases total - offset,
{
    let c = spec_page_items(remaining, offset, total);
    let rem2 = (remaining - c) as nat;
    let off2 = (offset + c) as nat;
    if spec_has_next(off2, total) && rem2 > 0 {
        seq![(min_nat(remaining, 50), offset)] + requests_made(rem2, off2, total)
    } else {
        seq![(min_nat(remaining, 50), offset)]
    }
}

/// Law: against a provider holding `total` items, a fetch from the
/// given state returns exactly `min(remaining, total - offset)` items
/// in `ceil(that / 50)` page requests.
pub proof fn lemma_pagination_exact(remaining: nat, offset: nat, total: nat)
    requires
        offset < total,
        remaining >= 1,
    ensures
        items_fetched(remaining, offset, total) == min_nat(remaining, (total - offset) as nat),
        pages_fetched(remaining, offset, total) == (min_nat(remaining, (total - offset) as nat)
            + 49) / 50,
    decreases total - offset,
{
    let n = min_nat(remaining, (total - offset) as nat);
    let c = spec_page_items(remaining, offset, total);
    let rem2 = (remaining - c) as nat;
    let off2 = (offset + c) as nat;
    if n <= 50 {
        assert(c == n);
        assert(!(spec_has_next(off2, total) && rem2 > 0));
        assert((n + 49) / 50 == 1);
    } else {
        assert(c == 50);
        assert(rem2 >= 1 && off2 < total);
        lemma_pagination_exact(rem2, off2, total);
        assert(min_nat(rem2, (total - off2) as nat) == (n - 50) as nat);
        assert((n + 49) / 50 == 1 + ((n - 50) + 49) / 50);
    }
}

/// Law: pagination bound. Against a provider holding `total` items, a
/// fetch with requested limit `limit` issues exactly
/// `ceil(min(limit, total) / 50)` page requests and returns exactly
/// `min(limit, total)` items. (With no items wanted or none available
/// the loop still issues its one probing request, so both sides are
/// asked to be positive.)
pub proof fn lemma_pagination_bound(limit: nat, total: nat)
    requires
        limit >= 1,
        total >= 1,
    ensures
        items_fetched(limit, 0, total) == min_nat(limit, total),
        pages_fetched(limit, 0, total) == (min_nat(limit, total) + 49) / 50,
{
    lemma_pagination_exact(limit, 0, total);
}

/// Law: pagination halts. The number of page requests is finite from
/// any state: at most one beyond the pages the provider can still serve.
pub proof fn lemma_pagination_terminates(remaining: nat, offset: nat, total: nat)
    ensures
        pages_fetched(remaining, offset, total) <= 1 + (if offset <= total {
            (total - offset) as nat
        } else {
            0
        }),
    decreases total - offset,
{
    let c = spec_page_items(remaining, offset, total);
    let rem2 = (remaining - c) as nat;
    let off2 = (offset + c) as nat;
    if spec_has_next(off2, total) && rem2 > 0 {
        lemma_pagination_terminates(rem2, off2, total);
    }
}

/// The item target a fetch starts from: the requested limit, or the
/// provider's default page size when none was given.
pub open spec fn effective_limit(item_limit: Option<usize>) -> nat {
    match item_limit {
        Some(l) => l as nat,
        None => DEFAULT_PAGE_SIZE as nat,
    }
}

/// The `(limit, offset)` pairs of issued page requests, as naturals.
pub open spec fn req_views(v: Seq<(usize, usize)>) -> Seq<(nat, nat)> {
    v.map_values(|p: (usize, usize)| (p.0 as nat, p.1 as nat))
}

/// Runs the pagination state machine against the model provider holding
/// `total` items, without any transport: it returns the page requests
/// issued (each as its `(limit, offset)` pair) and the item count
/// accumulated, exactly as the model predicts.
pub fn simulate_pagination(item_limit: Option<usize>, total: usize) -> (r: (
    Vec<(usize, usize)>,
    usize,
))
    ensures
        req_views(r.0@) == requests_made(effective_limit(item_limit), 0, total as nat),
        r.1 == items_fetched(effective_limit(item_limit), 0, total as nat),
{
    let ghost limit0 = effective_limit(item_limit);
    let mut paging = Paging::start(item_limit);
    let mut requests: Vec<(usize, usize)> = Vec::new();
    let mut items: usize = 0;
    loop
        invariant
            limit0 == effective_limit(item_limit),
            items <= paging.offset,
            paging.offset <= total,
            requests_made(limit0, 0, total as nat) == req_views(requests@) + requests_made(
                paging.remaining as nat,
                paging.offset as nat,
                total as nat,
            ),
            items_fetched(limit0, 0, total as nat) == items + items_fetched(
                paging.remaining as nat,
                paging.offset as nat,
                total as nat,
            ),
        decreases total - paging.offset + paging.remaining,
    {
        let l = paging.page_limit();
        // what the model provider returns for this request
        let count = if total - paging.offset < l {
            total - paging.offset
        } else {
            l
        };
        let ghost prev = paging;
        let ghost prev_requests = requests@;
        requests.push((l, paging.offset));
        items = items + count;
        let has_next = paging.offset + count < total;
        let (next, go_on) = paging.advance(count, has_next);
        paging = next;
        proof {
            assert(count == spec_page_items(prev.remaining as nat, prev.offset as nat, total as nat));
            assert(req_views(requests@) =~= req_views(prev_requests) + seq![
                (l as nat, prev.offset as nat),
            ]);
            assert(requests_made(prev.remaining as nat, prev.offset as nat, total as nat) == seq![
                (l as nat, prev.offset as nat),
            ] + (if go_on {
                requests_made(paging.remaining as nat, paging.offset as nat, total as nat)
            } else {
                Seq::<(nat, nat)>::empty()
            }));
            assert(items_fetched(prev.remaining as nat, prev.offset as nat, total as nat) == count
                + (if go_on {
                items_fetched(paging.remaining as nat, paging.offset as nat, total as nat)
            } else {
                0
            }));
        }
        if !go_on {
            proof {
                assert(requests_made(limit0, 0, total as nat) =~= req_views(requests@));
            }
            return (requests, items);
        }
        proof {
            assert(requests_made(limit0, 0, total as nat) =~= req_views(requests@)
                + requests_made(paging.remaining as nat, paging.offset as nat, total as nat));
        }
    }
}

/// The base URL of the Mixcloud API.
pub const API_BASE_URL: &'static str = "https://api.mixcloud.com";

/// The base URL of Mixcloud's public pages, used for downloads.
pub const FILES_BASE_URL: &'static str = "https://www.mixcloud.com";

/// The API URL of a user: the API base with the username as its path.
pub fn user_url(username: &str) -> (r: String)
    ensures
        r@ == API_BASE_URL@ + "/"@ + username@,
{
    let mut r = String::from_str(API_BASE_URL);
    r.append("/");
    r.append(username);
    proof {
        assert(r@ =~= API_BASE_URL@ + "/"@ + username@);
    }
    r
}

/// The API URL of a user's cloudcasts listing, before its paging query.
pub fn cloudcasts_url(username: &str) -> (r: String)
    ensures
        r@ == API_BASE_URL@ + "/"@ + username@ + "/cloudcasts/"@,
{
    let mut r = String::from_str(API_BASE_URL);
    r.append("/");
    r.append(username);
    r.append("/cloudcasts/");
    proof {
        assert(r@ =~= API_BASE_URL@ + "/"@ + username@ + "/cloudcasts/"@);
    }
    r
}

/// The paging query of a cloudcasts page request: the limit parameter is
/// capped at the fixed page size, however many items are still wanted.
pub fn paging_query(limit: usize, offset: usize) -> (r: String)
    ensures
        r@ == "limit="@ + dec_str(min_nat(limit as nat, DEFAULT_PAGE_SIZE as nat)) + "&offset="@
            + dec_str(offset as nat),
{
    let capped = if limit < DEFAULT_PAGE_SIZE {
        limit
    } else {
        DEFAULT_PAGE_SIZE
    };
    let mut r = String::from_str("limit=");
    let capped_dec = u64_to_dec(capped as u64);
    r.append(capped_dec.as_str());
    r.append("&offset=");
    let offset_dec = u64_to_dec(offset as u64);
    r.append(offset_dec.as_str());
    proof {
        assert(r@ =~= "limit="@ + dec_str(min_nat(limit as nat, DEFAULT_PAGE_SIZE as nat))
            + "&offset="@ + dec_str(offset as nat));
    }
    r
}

/// The public page URL a download key points at, handed to the external
/// stream-resolution tool.
pub fn files_page_url(download_key: &str) -> (r: String)
    ensures
        r@ == FILES_BASE_URL@ + download_key@,
{
    let mut r = String::from_str(FILES_BASE_URL);
    r.append(download_key);
    r
}

/// The download path stored in an item's enclosure for a cloudcast key:
/// the key without its surrounding slashes, with the fixed audio
/// extension in place of any extension the final segment had.
pub open spec fn spec_enclosure_file(key: Seq<char>) -> Seq<char> {
    spec_with_ext(strip_leading(strip_trailing(key, '/'), '/'), "m4a"@)
}

/// Builds the enclosure download path for a cloudcast key, specified by
/// [`spec_enclosure_file`].
pub fn enclosure_file(key: &str) -> (r: String)
    ensures
        r@ == spec_enclosure_file(key@),
{
    let trimmed = trim_trailing(key, '/');
    let bare = trim_leading(trimmed.as_str(), '/');
    with_extension(bare.as_str(), "m4a")
}

/// The cloudcast key reconstructed from a stored download path: the
/// path without its extension, wrapped in slashes.
pub open spec fn spec_download_key(file: Seq<char>) -> Seq<char> {
    "/"@ + spec_stem(file) + "/"@
}

/// Rebuilds the cloudcast key from a stored download path, specified by
/// [`spec_download_key`].
pub fn download_key(file: &str) -> (r: String)
    ensures
        r@ == spec_download_key(file@),
{
    let mut r = String::from_str("/");
    let stem = stem_of(file);
    r.append(stem.as_str());
    r.append("/");
    proof {
        assert(r@ =~= spec_download_key(file@));
    }
    r
}

/// Law: redirect round-trip. For a cloudcast key of the usual shape
/// (wrapped in single slashes, with a dot-free final segment), the
/// download path built for an item resolves back to exactly that key,
/// so a download request reaches the item it was produced for.
pub proof fn lemma_redirect_round_trip(key: Seq<char>)
    requires
        key.len() >= 3,
        key[0] == '/',
        key[key.len() - 1] == '/',
        key[1] != '/',
        key[key.len() - 2] != '/',
        last_dot_after(
            key.subrange(1, key.len() - 1),
            seg_start(key.subrange(1, key.len() - 1)),
        ) == -1,
    ensures
        spec_download_key(spec_enclosure_file(key)) == key,
{
    reveal_strlit(".");
    reveal_strlit("m4a");
    reveal_strlit("/");
    let body = key.subrange(1, key.len() - 1);
    // trimming the single trailing and leading slash leaves the body
    assert(key.drop_last() =~= key.subrange(0, key.len() - 1));
    assert(strip_trailing(key, '/') == strip_trailing(key.drop_last(), '/'));
    assert(strip_trailing(key.drop_last(), '/') == key.drop_last());
    let t = key.drop_last();
    assert(t.subrange(1, t.len() as int) =~= body);
    assert(strip_leading(t, '/') == strip_leading(body, '/'));
    assert(strip_leading(body, '/') == body);
    // the final segment has no extension dot, so the stem is the body
    assert(spec_stem(body) == body);
    let file = spec_enclosure_file(key);
    assert(file == body + "."@ + "m4a"@);
    // the appended extension holds no slash, so the segment is unmoved
    let tail = "."@ + "m4a"@;
    assert(tail.len() == 4);
    assert(tail[0] == '.' && tail[1] == 'm' && tail[2] == '4' && tail[3] == 'a');
    assert(file =~= body + tail);
    crate::paths::lemma_seg_start_append(body, tail);
    let b = seg_start(body);
    assert(body[body.len() - 1] != '/');
    assert(seg_start(body) == seg_start(body.drop_last()));
    crate::paths::lemma_seg_start_bounds(body.drop_last());
    assert(b <= body.len() - 1);
    // walking the extension back from the end finds the appended dot
    let f3 = (body + tail).drop_last();
    let f2 = f3.drop_last();
    let f1 = f2.drop_last();
    assert(f1 =~= body + seq!['.']);
    assert(f2 =~= body + seq!['.', 'm']);
    assert(f3 =~= body + seq!['.', 'm', '4']);
    assert(last_dot_after(body + tail, b) == last_dot_after(f3, b));
    assert(last_dot_after(f3, b) == last_dot_after(f2, b));
    assert(last_dot_after(f2, b) == last_dot_after(f1, b));
    assert(f1[f1.len() - 1] == '.');
    assert(last_dot_after(f1, b) == body.len());
    assert(spec_stem(file) =~= body);
    assert(spec_download_key(file) =~= key);
}

/// A Mixcloud user, as its API describes it.
#[derive(Debug, Clone)]
pub struct User {
    /// The name of the user.
    pub name: String,
    /// The bio (description) of the user.
    pub biog: String,
    /// The URL of a large picture of the user.
    pub picture: String,
    /// The original URL of the user.
    pub url: String,
}

/// A tag of a cloudcast.
#[derive(Debug, Clone)]
pub struct Tag {
    /// The name of the tag.
    pub name: String,
    /// The URL of the tag.
    pub url: String,
}

/// A Mixcloud cloudcast, as its API describes it.
#[derive(Debug, Clone)]
pub struct Cloudcast {
    /// The key of the cloudcast, wrapped in slashes.
    pub key: String,
    /// The name of the cloudcast.
    pub name: String,
    /// The slug of the cloudcast, used as the item GUID.
    pub slug: String,
    /// The URL of a large picture of the cloudcast.
    pub picture: String,
    /// The tags of the cloudcast.
    pub tags: Vec<Tag>,
    /// When the cloudcast was last updated (seconds since the epoch).
    pub updated_time: i64,
    /// The original URL of the cloudcast.
    pub url: String,
    /// The length of the cloudcast in seconds.
    pub audio_length: u32,
}

/// How a canonical item renders one cloudcast: field for field, with the
/// synthesized description, the estimated size, the fixed MIME type and
/// the derived download path; both timestamps take the only one given.
pub open spec fn item_of_cloudcast(it: Item, c: Cloudcast) -> bool {
    &&& it.title@ == c.name@
    &&& it.link@ == c.url@
    &&& it.description matches Some(d) && d@ == "Taken from Mixcloud: "@ + c.url@
    &&& it.categories@.len() == c.tags@.len()
    &&& forall|j: int|
        0 <= j < c.tags@.len() ==> (#[trigger] it.categories@[j]).0@ == c.tags@[j].name@
            && it.categories@[j].1@ == c.tags@[j].url@
    &&& it.enclosure.file@ == spec_enclosure_file(c.key@)
    &&& it.enclosure.mime_type@ == DEFAULT_FILE_TYPE@
    &&& it.enclosure.length == DEFAULT_BITRATE * c.audio_length / 8
    &&& it.duration == Some(c.audio_length)
    &&& it.guid@ == c.slug@
    &&& it.keywords@.len() == c.tags@.len()
    &&& forall|j: int| 0 <= j < c.tags@.len() ==> (#[trigger] it.keywords@[j])@ == c.tags@[j].name@
    &&& it.image matches Some(im) && im@ == c.picture@
    &&& it.published_at == c.updated_time
    &&& it.updated_at == c.updated_time
}

/// Maps one cloudcast into a canonical item, as [`item_of_cloudcast`]
/// states.
pub fn cloudcast_to_item(c: Cloudcast) -> (it: Item)
    ensures
        item_of_cloudcast(it, c),
{
    let file = enclosure_file(c.key.as_str());
    let mut description = String::from_str("Taken from Mixcloud: ");
    description.append(c.url.as_str());
    let mut categories: Vec<(String, String)> = Vec::new();
    let mut keywords: Vec<String> = Vec::new();
    let mut i: usize = 0;
    while i < c.tags.len()
        invariant
            i <= c.tags@.len(),
            categories@.len() == i,
            keywords@.len() == i,
            forall|j: int|
                0 <= j < i ==> (#[trigger] categories@[j]).0@ == c.tags@[j].name@
                    && categories@[j].1@ == c.tags@[j].url@,
            forall|j: int| 0 <= j < i ==> (#[trigger] keywords@[j])@ == c.tags@[j].name@,
        decreases c.tags@.len() - i,
    {
        let name = c.tags[i].name.clone();
        let url = c.tags[i].url.clone();
        let keyword = c.tags[i].name.clone();
        categories.push((name, url));
        keywords.push(keyword);
        i += 1;
    }
    let length = estimated_file_size(c.audio_length);
    Item {
        title: c.name,
        link: c.url,
        description: Some(description),
        categories,
        enclosure: Enclosure { file, mime_type: default_file_type().to_owned(), length },
        duration: Some(c.audio_length),
        guid: c.slug,
        keywords,
        image: Some(c.picture),
        published_at: c.updated_time,
        updated_at: c.updated_time,
    }
}

/// How a canonical channel renders a user and their cloudcasts: the
/// provider name is appended to the title, the single fixed category
/// stands in (the provider reports none), and the items render the
/// cloudcasts in provider order.
pub open spec fn channel_of_user(ch: Channel, u: User, casts: Seq<Cloudcast>) -> bool {
    &&& ch.title@ == u.name@ + " (via Mixcloud)"@
    &&& ch.link@ == u.url@
    &&& ch.description@ == u.biog@
    &&& ch.author matches Some(a) && a@ == u.name@
    &&& ch.categories@.len() == 1 && ch.categories@[0]@ == "Music"@
    &&& ch.image matches Some(im) && im@ == u.picture@
    &&& ch.items@.len() == casts.len()
    &&& forall|j: int| 0 <= j < casts.len() ==> item_of_cloudcast(#[trigger] ch.items@[j], casts[j])
}

/// Maps a user and their cloudcasts into a canonical channel, as
/// [`channel_of_user`] states.
pub fn channel_from(user: User, cloudcasts: Vec<Cloudcast>) -> (ch: Channel)
    ensures
        channel_of_user(ch, user, cloudcasts@),
{
    let ghost orig = cloudcasts@;
    let mut casts = cloudcasts;
    let mut items: Vec<Item> = Vec::new();
    while casts.len() > 0
        invariant
            items@.len() + casts@.len() == orig.len(),
            casts@ =~= orig.subrange(items@.len() as int, orig.len() as int),
            forall|j: int|
                0 <= j < items@.len() ==> item_of_cloudcast(#[trigger] items@[j], orig[j]),
        decreases casts@.len(),
    {
        let c = casts.remove(0);
        proof {
            assert(c == orig[items@.len() as int]);
        }
        let it = cloudcast_to_item(c);
        items.push(it);
    }
    let mut title = user.name.clone();
    title.append(" (via Mixcloud)");
    let mut categories: Vec<String> = Vec::new();
    categories.push(String::from_str("Music"));
    Channel {
        title,
        link: user.url,
        description: user.biog,
        author: Some(user.name),
        categories,
        image: Some(user.picture),
        items,
    }
}

} // verus!
