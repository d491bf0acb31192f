//! The YouTube adapter: ID-shape classification, audio stream selection,
//! MIME handling, thumbnail choice, upload-date timestamps and the
//! mapping of channels, playlists and videos into the canonical model.
//!
//! Network lookups stay outside: a driver fetches the provider entities
//! and hands their plain fields in; everything decided about them is
//! decided here.

use vstd::prelude::*;

use crate::Error;
use crate::model::{Channel, Enclosure, Item};
use crate::paths::{spec_with_ext, strip_leading, trim_leading, with_extension};
use crate::strutil::{contains_substr, has_substr, is_prefix, pair_views, starts_with, str_views};

verus! {

/// The base URL for YouTube channels.
pub const CHANNEL_BASE_URL: &'static str = "https://www.youtube.com/channel";

/// The default item limit when a request names none.
pub const DEFAULT_ITEM_LIMIT: usize = 50;

/// The base URL for YouTube playlists.
pub const PLAYLIST_BASE_URL: &'static str = "https://www.youtube.com/channel";

/// The base URL for YouTube videos.
pub const VIDEO_BASE_URL: &'static str = "https://www.youtube.com/watch";

/// What shape a requested YouTube ID has: a playlist or a channel.
#[derive(Debug, Clone, Copy, PartialEq, Eq, Structural)]
pub enum IdClass {
    /// The ID names a playlist.
    Playlist,
    /// The ID names a channel.
    Channel,
}

/// Whether an ID is taken for a playlist ID: it starts with `"PL"`,
/// `"OLAK"` or `"RDCLAK"`.
pub open spec fn spec_is_playlist_id(id: Seq<char>) -> bool {
    is_prefix(id, "PL"@) || is_prefix(id, "OLAK"@) || is_prefix(id, "RDCLAK"@)
}

/// Classifies a requested ID by its shape alone, before any network
/// work: playlist-shaped IDs route to the playlist path, every other ID
/// to the channel path.
pub fn classify_id(id: &str) -> (r: IdClass)
    ensures
        r is Playlist <==> spec_is_playlist_id(id@),
{
    if starts_with(id, "PL") || starts_with(id, "OLAK") || starts_with(id, "RDCLAK") {
        IdClass::Playlist
    } else {
        IdClass::Channel
    }
}

/// What a driver reports about one available stream of a video.
#[derive(Debug, Clone)]
pub struct StreamInfo {
    /// Whether the stream carries audio only.
    pub is_audio: bool,
    /// The MIME type of the stream, parameters included.
    pub mime_type: String,
    /// The bitrate of the stream.
    pub bitrate: u64,
}

/// Whether a stream survives the selection filter: audio-only, in the
/// well-supported MP4 container.
pub open spec fn stream_ok(s: StreamInfo) -> bool {
    s.is_audio && has_substr(s.mime_type@, "mp4"@)
}

/// Selects the stream to enclose: among the audio-only MP4 streams, the
/// one with the highest bitrate, the last of them on a tie. `None`
/// exactly when no stream survives the filter.
pub fn select_stream(streams: &Vec<StreamInfo>) -> (r: Option<usize>)
    ensures
        match r {
            Some(i) => i < streams@.len() && stream_ok(streams@[i as int]) && (forall|j: int|
                0 <= j < streams@.len() && stream_ok(streams@[j]) ==> streams@[j].bitrate
                    <= streams@[i as int].bitrate) && (forall|j: int|
                i < j < streams@.len() && stream_ok(streams@[j]) ==> streams@[j].bitrate
                    < streams@[i as int].bitrate),
            None => forall|j: int| 0 <= j < streams@.len() ==> !stream_ok(streams@[j]),
        },
{
    let mut best: Option<usize> = None;
    let mut i: usize = 0;
    while i < streams.len()
        invariant
            i <= streams@.len(),
            match best {
                Some(b) => b < i && stream_ok(streams@[b as int]) && (forall|j: int|
                    0 <= j < i && stream_ok(streams@[j]) ==> streams@[j].bitrate
                        <= streams@[b as int].bitrate) && (forall|j: int|
                    b < j < i && stream_ok(streams@[j]) ==> streams@[j].bitrate
                        < streams@[b as int].bitrate),
                None => forall|j: int| 0 <= j < i ==> !stream_ok(streams@[j]),
            },
        decreases streams@.len() - i,
    {
        let ok = streams[i].is_audio && contains_substr(streams[i].mime_type.as_str(), "mp4");
        if ok {
            best = match best {
                Some(b) => if streams[i].bitrate >= streams[b].bitrate {
                    Some(i)
                } else {
                    Some(b)
                },
                None => Some(i),
            };
        }
        i += 1;
    }
    best
}

/// Selects the stream for an explicitly requested download. Unlike a
/// feed fetch, which silently drops a video without a usable stream,
/// a download with none has nothing to fall back to: that is a hard
/// no-redirect failure.
pub fn redirect_stream(streams: &Vec<StreamInfo>) -> (r: Result<usize, Error>)
    ensures
        match r {
            Ok(i) => i < streams@.len() && stream_ok(streams@[i as int]) && (forall|j: int|
                0 <= j < streams@.len() && stream_ok(streams@[j]) ==> streams@[j].bitrate
                    <= streams@[i as int].bitrate),
            Err(e) => e is NoRedirectUrlFound && (forall|j: int|
                0 <= j < streams@.len() ==> !stream_ok(streams@[j])),
        },
{
    match select_stream(streams) {
        Some(i) => Ok(i),
        None => Err(Error::NoRedirectUrlFound),
    }
}

/// The MIME type up to its first `';'`: the bare type without
/// parameters, which some feed clients cannot stomach.
pub open spec fn spec_before_semi(s: Seq<char>) -> Seq<char>
    decreases s.len(),
{
    if s.len() == 0 {
        s
    } else if s[0] == ';' {
        Seq::empty()
    } else {
        seq![s[0]] + spec_before_semi(s.drop_first())
    }
}

/// The prefix before the first `';'` is the take up to that index.
proof fn lemma_before_semi(s: Seq<char>, i: int)
    requires
        0 <= i <= s.len(),
        forall|j: int| 0 <= j < i ==> s[j] != ';',
        i < s.len() ==> s[i] == ';',
    ensures
        spec_before_semi(s) == s.take(i),
    decreases s.len(),
{
    if i == 0 {
        assert(s.take(0) =~= Seq::<char>::empty());
        if s.len() > 0 {
            assert(s[0] == ';');
        } else {
            assert(s =~= s.take(0));
        }
    } else {
        assert(s[0] != ';');
        lemma_before_semi(s.drop_first(), i - 1);
        assert(s.take(i) =~= seq![s[0]] + s.drop_first().take(i - 1));
    }
}

/// Strips the parameters off a MIME type, specified by
/// [`spec_before_semi`].
pub fn strip_mime_params(s: &str) -> (r: String)
    ensures
        r@ == spec_before_semi(s@),
{
    let n = s.unicode_len();
    let mut i: usize = 0;
    while i < n && s.get_char(i) != ';'
        invariant
            i <= n,
            n == s@.len(),
            forall|j: int| 0 <= j < i ==> s@[j] != ';',
        decreases n - i,
    {
        i += 1;
    }
    proof {
        lemma_before_semi(s@, i as int);
    }
    let kept = s.substring_char(0, i);
    proof {
        assert(kept@ =~= spec_before_semi(s@));
    }
    kept.to_owned()
}

/// The preferred file extension for a bare MIME type, as the MIME
/// database's fixed table gives it; a function of the MIME string alone.
pub uninterp spec fn mime_extension(mime: Seq<char>) -> Option<Seq<char>>;

/// The view of an optional string.
pub open spec fn view_opt(o: Option<String>) -> Option<Seq<char>> {
    match o {
        Some(s) => Some(s@),
        None => None,
    }
}

/// Relies on mime_db::extension: the first extension its table lists
/// for a MIME type, or nothing for an unknown type.
#[verifier::external_body]
fn lookup_extension(mime: &str) -> (r: Option<String>)
    ensures
        view_opt(r) == mime_extension(mime@),
{
    match mime_db::extension(mime) {
        Some(ext) => Some(ext.to_owned()),
        None => None,
    }
}

/// The extension of a stored download file for a bare MIME type: what
/// the MIME database lists, or nothing for an unknown type.
pub fn extension_for(mime: &str) -> (r: String)
    ensures
        r@ == (match mime_extension(mime@) {
            Some(e) => e,
            None => Seq::<char>::empty(),
        }),
{
    match lookup_extension(mime) {
        Some(ext) => ext,
        None => String::new(),
    }
}

/// One thumbnail or avatar variant of a channel, playlist or video.
#[derive(Debug, Clone)]
pub struct Thumbnail {
    /// The URL of the image.
    pub url: String,
    /// The width of the image in pixels.
    pub width: u64,
    /// The height of the image in pixels.
    pub height: u64,
}

/// The pixel area of a thumbnail.
pub open spec fn thumb_area(t: Thumbnail) -> int {
    t.width * t.height
}

/// Picks the image variant with the largest pixel area, the last of
/// them on a tie. `None` exactly when there is no variant at all.
pub fn best_thumbnail(thumbs: &Vec<Thumbnail>) -> (r: Option<usize>)
    ensures
        match r {
            Some(i) => i < thumbs@.len() && (forall|j: int|
                0 <= j < thumbs@.len() ==> thumb_area(thumbs@[j]) <= thumb_area(
                    thumbs@[i as int],
                )) && (forall|j: int|
                i < j < thumbs@.len() ==> thumb_area(thumbs@[j]) < thumb_area(thumbs@[i as int])),
            None => thumbs@.len() == 0,
        },
{
    if thumbs.len() == 0 {
        return None;
    }
    let mut best: usize = 0;
    let mut i: usize = 1;
    while i < thumbs.len()
        invariant
            best < i <= thumbs@.len(),
            forall|j: int| 0 <= j < i ==> thumb_area(thumbs@[j]) <= thumb_area(thumbs@[best as int]),
            forall|j: int| best < j < i ==> thumb_area(thumbs@[j]) < thumb_area(thumbs@[best as int]),
        decreases thumbs@.len() - i,
    {
        proof {
            let wi = thumbs@[i as int].width as int;
            let hi = thumbs@[i as int].height as int;
            let wb = thumbs@[best as int].width as int;
            let hb = thumbs@[best as int].height as int;
            assert(wi * hi <= (u64::MAX as int) * (u64::MAX as int) && wb * hb <= (u64::MAX as int)
                * (u64::MAX as int)) by (nonlinear_arith)
                requires
                    0 <= wi <= u64::MAX,
                    0 <= hi <= u64::MAX,
                    0 <= wb <= u64::MAX,
                    0 <= hb <= u64::MAX,
            ;
        }
        let area_i = (thumbs[i].width as u128) * (thumbs[i].height as u128);
        let area_b = (thumbs[best].width as u128) * (thumbs[best].height as u128);
        if area_i >= area_b {
            best = i;
        }
        i += 1;
    }
    Some(best)
}

/// The count of days from the Unix epoch to a calendar date (civil,
/// proleptic Gregorian), negative for dates before it.
pub open spec fn spec_days_from_civil(y: int, m: int, d: int) -> int {
    let yy = if m <= 2 {
        y - 1
    } else {
        y
    };
    let era = yy / 400;
    let yoe = yy - era * 400;
    let doy = (153 * (if m > 2 {
        m - 3
    } else {
        m + 9
    }) + 2) / 5 + d - 1;
    let doe = yoe * 365 + yoe / 4 - yoe / 100 + doy;
    era * 146097 + doe - 719468
}

/// The timestamp an upload date maps to when the provider gives only a
/// date: noon UTC of that day, in seconds since the Unix epoch.
pub fn noon_utc_timestamp(year: i32, month: u8, day: u8) -> (ts: i64)
    requires
        1 <= year <= 9999,
        1 <= month <= 12,
        1 <= day <= 31,
    ensures
        ts == 86400 * spec_days_from_civil(year as int, month as int, day as int) + 43200,
{
    let y: i64 = if month <= 2 {
        (year - 1) as i64
    } else {
        year as i64
    };
    let era: i64 = y / 400;
    let yoe: i64 = y - era * 400;
    let m: i64 = month as i64;
    let doy: i64 = (153 * (if m > 2 {
        m - 3
    } else {
        m + 9
    }) + 2) / 5 + (day as i64) - 1;
    let doe: i64 = yoe * 365 + yoe / 4 - yoe / 100 + doy;
    let days: i64 = era * 146097 + doe - 719468;
    86400 * days + 43200
}

/// The base URL of hashtag pages, for item categories.
pub const HASHTAG_BASE_URL: &'static str = "https://www.youtube.com/hashtag/";

/// The first `limit` present values of an ordered sequence of optional
/// lookups, in order: an absent value is skipped without consuming a
/// slot of the limit.
pub open spec fn spec_take_some<V>(xs: Seq<Option<V>>, limit: nat) -> Seq<V>
    decreases xs.len(),
{
    if xs.len() == 0 || limit == 0 {
        Seq::empty()
    } else {
        match xs[0] {
            Some(v) => seq![v] + spec_take_some(xs.drop_first(), (limit - 1) as nat),
            None => spec_take_some(xs.drop_first(), limit),
        }
    }
}

/// Consumes an ordered sequence of per-video outcomes and keeps the
/// first `limit` successful ones, specified by [`spec_take_some`]: a
/// dropped video does not count against the limit, and order is kept.
pub fn take_some<V>(xs: Vec<Option<V>>, limit: usize) -> (r: Vec<V>)
    ensures
        r@ == spec_take_some(xs@, limit as nat),
{
    let ghost orig = xs@;
    let mut rest = xs;
    let mut out: Vec<V> = Vec::new();
    proof {
        assert(out@ + spec_take_some(rest@, limit as nat) =~= spec_take_some(
            orig,
            limit as nat,
        ));
    }
    while rest.len() > 0 && out.len() < limit
        invariant
            out@.len() <= limit,
            spec_take_some(orig, limit as nat) == out@ + spec_take_some(
                rest@,
                (limit - out@.len()) as nat,
            ),
        decreases rest@.len(),
    {
        let ghost prev_rest = rest@;
        let ghost prev_out = out@;
        let x = rest.remove(0);
        proof {
            assert(x == prev_rest[0]);
            assert(rest@ =~= prev_rest.drop_first());
        }
        match x {
            Some(v) => {
                out.push(v);
                proof {
                    assert(out@ + spec_take_some(rest@, (limit - out@.len()) as nat)
                        =~= prev_out + spec_take_some(prev_rest, (limit - prev_out.len()) as nat));
                }
            },
            None => {
                proof {
                    assert(out@ + spec_take_some(rest@, (limit - out@.len()) as nat)
                        =~= prev_out + spec_take_some(prev_rest, (limit - prev_out.len()) as nat));
                }
            },
        }
    }
    proof {
        if rest@.len() == 0 || (limit - out@.len()) as nat == 0 {
            assert(spec_take_some(rest@, (limit - out@.len()) as nat) =~= Seq::<V>::empty());
        }
        assert(out@ =~= spec_take_some(orig, limit as nat));
    }
    out
}

/// Whether a character is blank space.
pub open spec fn spec_is_space(c: char) -> bool {
    c == ' ' || c == '\t' || c == '\n' || c == '\r'
}

/// Whether a string holds nothing but blank space.
pub open spec fn spec_blank(s: Seq<char>) -> bool {
    forall|i: int| 0 <= i < s.len() ==> spec_is_space(s[i])
}

/// Whether a string holds nothing but blank space, executable.
fn is_blank(s: &str) -> (r: bool)
    ensures
        r <==> spec_blank(s@),
{
    let n = s.unicode_len();
    let mut i: usize = 0;
    while i < n
        invariant
            i <= n,
            n == s@.len(),
            forall|j: int| 0 <= j < i ==> spec_is_space(s@[j]),
        decreases n - i,
    {
        let c = s.get_char(i);
        if !(c == ' ' || c == '\t' || c == '\n' || c == '\r') {
            return false;
        }
        i += 1;
    }
    true
}

/// The item categories a video's hashtags map to: each hashtag that is
/// more than blank space, paired with its hashtag-page URL (built from
/// the tag without its leading hash signs), in order.
pub open spec fn spec_hashtag_cats(tags: Seq<Seq<char>>) -> Seq<(Seq<char>, Seq<char>)>
    decreases tags.len(),
{
    if tags.len() == 0 {
        Seq::empty()
    } else {
        let rest = spec_hashtag_cats(tags.drop_last());
        let t = tags.last();
        if spec_blank(t) {
            rest
        } else {
            rest.push((t, HASHTAG_BASE_URL@ + strip_leading(t, '#')))
        }
    }
}

/// Maps a video's hashtags to item categories, specified by
/// [`spec_hashtag_cats`].
pub fn hashtag_categories(hashtags: &Vec<String>) -> (r: Vec<(String, String)>)
    ensures
        pair_views(r@) == spec_hashtag_cats(str_views(hashtags@)),
{
    let mut r: Vec<(String, String)> = Vec::new();
    let mut i: usize = 0;
    proof {
        assert(pair_views(r@) =~= spec_hashtag_cats(str_views(hashtags@).take(0)));
    }
    while i < hashtags.len()
        invariant
            i <= hashtags@.len(),
            pair_views(r@) == spec_hashtag_cats(str_views(hashtags@).take(i as int)),
        decreases hashtags@.len() - i,
    {
        let ghost prev = r@;
        let tag = &hashtags[i];
        if !is_blank(tag.as_str()) {
            let mut url = String::from_str(HASHTAG_BASE_URL);
            let bare = trim_leading(tag.as_str(), '#');
            url.append(bare.as_str());
            r.push((tag.clone(), url));
        }
        proof {
            let views = str_views(hashtags@);
            assert(views.take(i + 1).drop_last() =~= views.take(i as int));
            assert(views.take(i + 1).last() == hashtags@[i as int]@);
            if !spec_blank(hashtags@[i as int]@) {
                assert(pair_views(r@) =~= pair_views(prev).push(
                    (hashtags@[i as int]@, HASHTAG_BASE_URL@ + strip_leading(
                        hashtags@[i as int]@,
                        '#',
                    )),
                ));
            }
            assert(pair_views(r@) =~= spec_hashtag_cats(views.take(i + 1)));
        }
        i += 1;
    }
    proof {
        assert(str_views(hashtags@).take(hashtags@.len() as int) =~= str_views(hashtags@));
    }
    r
}

/// What a driver reports about one video, once its stream is chosen.
#[derive(Debug, Clone)]
pub struct VideoInfo {
    /// The ID of the video.
    pub id: String,
    /// The title of the video.
    pub title: String,
    /// The description of the video.
    pub description: String,
    /// The hashtags found in the description.
    pub hashtags: Vec<String>,
    /// The duration of the video in seconds.
    pub duration_secs: u32,
    /// The keywords of the video, provider order preserved.
    pub keywords: Vec<String>,
    /// The thumbnail variants of the video.
    pub thumbnails: Vec<Thumbnail>,
    /// The year of the upload date.
    pub year: i32,
    /// The month of the upload date.
    pub month: u8,
    /// The day of the upload date.
    pub day: u8,
}

/// Whether `u` is the URL of a largest-area variant among `thumbs`,
/// the last such on a tie.
pub open spec fn is_best_thumb_url(u: Seq<char>, thumbs: Seq<Thumbnail>) -> bool {
    exists|i: int|
        0 <= i < thumbs.len() && u == thumbs[i].url@ && (forall|j: int|
            0 <= j < thumbs.len() ==> thumb_area(thumbs[j]) <= thumb_area(thumbs[i])) && (forall|
            j: int,
        |
            i < j < thumbs.len() ==> thumb_area(thumbs[j]) < thumb_area(thumbs[i]))
}

/// How a canonical item renders one video with its selected stream:
/// the watch URL, the synthesized description, hashtag categories, the
/// bare MIME type and its database extension on the download path, and
/// noon UTC of the upload date for both timestamps (the provider gives
/// no separate update time).
pub open spec fn item_of_video(it: Item, v: VideoInfo, mime_raw: Seq<char>, len: u64) -> bool {
    let mime = spec_before_semi(mime_raw);
    let ext = match mime_extension(mime) {
        Some(e) => e,
        None => Seq::<char>::empty(),
    };
    &&& it.title@ == v.title@
    &&& it.link@ == VIDEO_BASE_URL@ + "?v="@ + v.id@
    &&& it.description matches Some(d) && d@ == v.description@ + "\n\nTaken from YouTube: "@
        + VIDEO_BASE_URL@ + "?v="@ + v.id@
    &&& pair_views(it.categories@) == spec_hashtag_cats(str_views(v.hashtags@))
    &&& it.enclosure.file@ == spec_with_ext(v.id@, ext)
    &&& it.enclosure.mime_type@ == mime
    &&& it.enclosure.length == len
    &&& it.duration == Some(v.duration_secs)
    &&& it.guid@ == v.id@
    &&& it.keywords == v.keywords
    &&& (match it.image {
        Some(u) => is_best_thumb_url(u@, v.thumbnails@),
        None => v.thumbnails@.len() == 0,
    })
    &&& it.published_at == 86400 * spec_days_from_civil(
        v.year as int,
        v.month as int,
        v.day as int,
    ) + 43200
    &&& it.updated_at == it.published_at
}

/// Maps one video and its selected stream into a canonical item, as
/// [`item_of_video`] states.
pub fn video_item(v: VideoInfo, mime_raw: &str, content_length: u64) -> (it: Item)
    requires
        1 <= v.year <= 9999,
        1 <= v.month <= 12,
        1 <= v.day <= 31,
    ensures
        item_of_video(it, v, mime_raw@, content_length),
{
    let mime = strip_mime_params(mime_raw);
    let ext = extension_for(mime.as_str());
    let file = with_extension(v.id.as_str(), ext.as_str());
    let mut link = String::from_str(VIDEO_BASE_URL);
    link.append("?v=");
    link.append(v.id.as_str());
    proof {
        assert(link@ =~= VIDEO_BASE_URL@ + "?v="@ + v.id@);
    }
    let mut description = v.description.clone();
    description.append("\n\nTaken from YouTube: ");
    description.append(link.as_str());
    proof {
        assert(description@ =~= v.description@ + "\n\nTaken from YouTube: "@ + VIDEO_BASE_URL@
            + "?v="@ + v.id@);
    }
    let categories = hashtag_categories(&v.hashtags);
    let image = match best_thumbnail(&v.thumbnails) {
        Some(i) => Some(v.thumbnails[i].url.clone()),
        None => None,
    };
    let published_at = noon_utc_timestamp(v.year, v.month, v.day);
    Item {
        title: v.title,
        link,
        description: Some(description),
        categories,
        enclosure: Enclosure { file, mime_type: mime, length: content_length },
        duration: Some(v.duration_secs),
        guid: v.id,
        keywords: v.keywords,
        image,
        published_at,
        updated_at: published_at,
    }
}

/// What a driver reports about a channel.
#[derive(Debug, Clone)]
pub struct ChannelInfo {
    /// The ID of the channel.
    pub id: String,
    /// The name of the channel.
    pub name: String,
    /// The description of the channel.
    pub description: String,
    /// The avatar variants of the channel.
    pub avatars: Vec<Thumbnail>,
}

/// What a driver reports about a playlist.
#[derive(Debug, Clone)]
pub struct PlaylistInfo {
    /// The ID of the playlist.
    pub id: String,
    /// The title of the playlist.
    pub title: String,
    /// The description of the playlist.
    pub description: String,
    /// The name of the channel behind the playlist, if known.
    pub author: Option<String>,
    /// The thumbnail variants of the playlist.
    pub thumbnails: Vec<Thumbnail>,
}

/// Maps a channel and its already-mapped items into a canonical
/// channel: the provider name is appended to the title, the fixed
/// category stands in, and the largest avatar becomes the image.
pub fn channel_channel(info: ChannelInfo, items: Vec<Item>) -> (ch: Channel)
    ensures
        ch.title@ == info.name@ + " (via YouTube)"@,
        ch.link@ == CHANNEL_BASE_URL@ + "/"@ + info.id@,
        ch.description@ == info.description@,
        ch.author matches Some(a) && a@ == info.name@,
        ch.categories@.len() == 1 && ch.categories@[0]@ == "Channel"@,
        (match ch.image {
            Some(u) => is_best_thumb_url(u@, info.avatars@),
            None => info.avatars@.len() == 0,
        }),
        ch.items == items,
{
    let mut title = info.name.clone();
    title.append(" (via YouTube)");
    let mut link = String::from_str(CHANNEL_BASE_URL);
    link.append("/");
    link.append(info.id.as_str());
    proof {
        assert(link@ =~= CHANNEL_BASE_URL@ + "/"@ + info.id@);
    }
    let image = match best_thumbnail(&info.avatars) {
        Some(i) => Some(info.avatars[i].url.clone()),
        None => None,
    };
    let mut categories: Vec<String> = Vec::new();
    categories.push(String::from_str("Channel"));
    Channel {
        title,
        link,
        description: info.description,
        author: Some(info.name),
        categories,
        image,
        items,
    }
}

/// Maps a playlist and its already-mapped items into a canonical
/// channel: the provider name is appended to the title, the fixed
/// category stands in, and the largest thumbnail becomes the image.
pub fn playlist_channel(info: PlaylistInfo, items: Vec<Item>) -> (ch: Channel)
    ensures
        ch.title@ == info.title@ + " (via YouTube)"@,
        ch.link@ == PLAYLIST_BASE_URL@ + "?list="@ + info.id@,
        ch.description@ == info.description@,
        ch.author == info.author,
        ch.categories@.len() == 1 && ch.categories@[0]@ == "Playlist"@,
        (match ch.image {
            Some(u) => is_best_thumb_url(u@, info.thumbnails@),
            None => info.thumbnails@.len() == 0,
        }),
        ch.items == items,
{
    let mut title = info.title.clone();
    title.append(" (via YouTube)");
    let mut link = String::from_str(PLAYLIST_BASE_URL);
    link.append("?list=");
    link.append(info.id.as_str());
    proof {
        assert(link@ =~= PLAYLIST_BASE_URL@ + "?list="@ + info.id@);
    }
    let image = match best_thumbnail(&info.thumbnails) {
        Some(i) => Some(info.thumbnails[i].url.clone()),
        None => None,
    };
    let mut categories: Vec<String> = Vec::new();
    categories.push(String::from_str("Playlist"));
    Channel {
        title,
        link,
        description: info.description,
        author: info.author,
        categories,
        image,
        items,
    }
}

} // verus!
