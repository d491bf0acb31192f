use podbringer::youtube::{
    best_thumbnail, channel_channel, classify_id, extension_for, hashtag_categories,
    noon_utc_timestamp, playlist_channel, redirect_stream, select_stream, strip_mime_params,
    take_some, video_item, ChannelInfo, IdClass, PlaylistInfo, StreamInfo, Thumbnail, VideoInfo,
};
use podbringer::Error;

fn stream(is_audio: bool, mime: &str, bitrate: u64) -> StreamInfo {
    StreamInfo { is_audio, mime_type: String::from(mime), bitrate }
}

#[test]
fn playlist_shaped_ids_route_to_the_playlist_path() {
    assert!(matches!(classify_id("PLxxxx"), IdClass::Playlist));
    assert!(matches!(classify_id("OLAKxxxx"), IdClass::Playlist));
    assert!(matches!(classify_id("RDCLAKxxxx"), IdClass::Playlist));
}

#[test]
fn other_ids_route_to_the_channel_path() {
    assert!(matches!(classify_id("UCxxxx"), IdClass::Channel));
    assert!(matches!(classify_id(""), IdClass::Channel));
    assert!(matches!(classify_id("plxxxx"), IdClass::Channel));
}

#[test]
fn stream_selection_prefers_mp4_then_highest_bitrate() {
    // audio/mp4 at 128k, audio/mp4 at 256k, audio/webm at 320k:
    // the 256k mp4 stream wins
    let streams = vec![
        stream(true, "audio/mp4; codecs=\"mp4a.40.2\"", 128_000),
        stream(true, "audio/mp4; codecs=\"mp4a.40.2\"", 256_000),
        stream(true, "audio/webm; codecs=\"opus\"", 320_000),
    ];
    assert_eq!(select_stream(&streams), Some(1));
}

#[test]
fn stream_selection_skips_video_streams() {
    let streams = vec![
        stream(false, "video/mp4; codecs=\"avc1\"", 2_000_000),
        stream(true, "audio/mp4; codecs=\"mp4a.40.2\"", 64_000),
    ];
    assert_eq!(select_stream(&streams), Some(1));
}

#[test]
fn stream_selection_tie_takes_the_last() {
    let streams = vec![
        stream(true, "audio/mp4", 128_000),
        stream(true, "audio/mp4", 128_000),
    ];
    assert_eq!(select_stream(&streams), Some(1));
}

#[test]
fn no_usable_stream_selects_none() {
    let streams = vec![stream(true, "audio/webm", 160_000), stream(false, "video/webm", 90_000)];
    assert_eq!(select_stream(&streams), None);
}

#[test]
fn redirect_without_stream_is_a_hard_failure() {
    let streams = vec![stream(true, "audio/webm", 160_000)];
    assert!(matches!(redirect_stream(&streams), Err(Error::NoRedirectUrlFound)));
    let streams = vec![stream(true, "audio/mp4", 160_000)];
    assert!(matches!(redirect_stream(&streams), Ok(0)));
}

#[test]
fn mime_parameters_are_stripped() {
    assert_eq!(strip_mime_params("audio/mp4; codecs=\"mp4a.40.2\""), "audio/mp4");
    assert_eq!(strip_mime_params("audio/mp4"), "audio/mp4");
    assert_eq!(strip_mime_params(";x"), "");
}

#[test]
fn mime_database_extension_lookup() {
    assert_eq!(extension_for("audio/mp4"), "m4a");
    assert_eq!(extension_for("no/such-type"), "");
}

#[test]
fn thumbnail_choice_takes_largest_area_last_on_tie() {
    let thumbs = vec![
        Thumbnail { url: String::from("a"), width: 100, height: 100 },
        Thumbnail { url: String::from("b"), width: 300, height: 200 },
        Thumbnail { url: String::from("c"), width: 200, height: 300 },
    ];
    assert_eq!(best_thumbnail(&thumbs), Some(2));
    assert_eq!(best_thumbnail(&Vec::new()), None);
}

#[test]
fn hashtags_become_categories_with_hashtag_urls() {
    let tags = vec![
        String::from("#rock"),
        String::from("   "),
        String::from("pop"),
        String::from(""),
    ];
    let cats = hashtag_categories(&tags);
    assert_eq!(
        cats,
        vec![
            (String::from("#rock"), String::from("https://www.youtube.com/hashtag/rock")),
            (String::from("pop"), String::from("https://www.youtube.com/hashtag/pop")),
        ]
    );
}

#[test]
fn take_some_skips_dropped_videos_without_consuming_the_limit() {
    let xs = vec![Some(1), None, Some(2), Some(3), Some(4)];
    assert_eq!(take_some(xs, 3), vec![1, 2, 3]);
    let xs: Vec<Option<u32>> = vec![None, None];
    assert_eq!(take_some(xs, 3), Vec::<u32>::new());
    let xs = vec![Some(9)];
    assert_eq!(take_some(xs, 0), Vec::<u32>::new());
}

#[test]
fn noon_timestamps() {
    assert_eq!(noon_utc_timestamp(1970, 1, 1), 43_200);
    // leap day well after the epoch
    assert_eq!(noon_utc_timestamp(2024, 2, 29), 1_709_208_000);
}

#[test]
fn video_maps_field_for_field() {
    let v = VideoInfo {
        id: String::from("dQw4w9WgXcQ"),
        title: String::from("A Video"),
        description: String::from("About things."),
        hashtags: vec![String::from("#things")],
        duration_secs: 212,
        keywords: vec![String::from("thing"), String::from("stuff")],
        thumbnails: vec![Thumbnail {
            url: String::from("https://img.example/v.jpg"),
            width: 640,
            height: 480,
        }],
        year: 2024,
        month: 2,
        day: 29,
    };
    let item = video_item(v, "audio/mp4; codecs=\"mp4a.40.2\"", 3_500_000);
    assert_eq!(item.title, "A Video");
    assert_eq!(item.link, "https://www.youtube.com/watch?v=dQw4w9WgXcQ");
    assert_eq!(
        item.description.as_deref(),
        Some("About things.\n\nTaken from YouTube: https://www.youtube.com/watch?v=dQw4w9WgXcQ")
    );
    assert_eq!(
        item.categories,
        vec![(String::from("#things"), String::from("https://www.youtube.com/hashtag/things"))]
    );
    // the extension comes from the MIME database for the bare type
    assert_eq!(item.enclosure.file, "dQw4w9WgXcQ.m4a");
    assert_eq!(item.enclosure.mime_type, "audio/mp4");
    assert_eq!(item.enclosure.length, 3_500_000);
    assert_eq!(item.duration, Some(212));
    assert_eq!(item.guid, "dQw4w9WgXcQ");
    assert_eq!(item.keywords, vec!["thing", "stuff"]);
    assert_eq!(item.image.as_deref(), Some("https://img.example/v.jpg"));
    assert_eq!(item.published_at, 1_709_208_000);
    assert_eq!(item.updated_at, 1_709_208_000);
}

#[test]
fn channel_maps_with_largest_avatar() {
    let info = ChannelInfo {
        id: String::from("UCabc"),
        name: String::from("Some Channel"),
        description: String::from("Videos."),
        avatars: vec![
            Thumbnail { url: String::from("small"), width: 88, height: 88 },
            Thumbnail { url: String::from("big"), width: 800, height: 800 },
        ],
    };
    let ch = channel_channel(info, Vec::new());
    assert_eq!(ch.title, "Some Channel (via YouTube)");
    assert_eq!(ch.link, "https://www.youtube.com/channel/UCabc");
    assert_eq!(ch.author.as_deref(), Some("Some Channel"));
    assert_eq!(ch.categories, vec!["Channel"]);
    assert_eq!(ch.image.as_deref(), Some("big"));
    assert!(ch.items.is_empty());
}

#[test]
fn playlist_maps_with_list_query() {
    let info = PlaylistInfo {
        id: String::from("PLxyz"),
        title: String::from("Some List"),
        description: String::from("A list."),
        author: None,
        thumbnails: Vec::new(),
    };
    let ch = playlist_channel(info, Vec::new());
    assert_eq!(ch.title, "Some List (via YouTube)");
    assert_eq!(ch.link, "https://www.youtube.com/channel?list=PLxyz");
    assert_eq!(ch.author, None);
    assert_eq!(ch.categories, vec!["Playlist"]);
    assert_eq!(ch.image, None);
}
