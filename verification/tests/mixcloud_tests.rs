use podbringer::mixcloud::{
    channel_from, cloudcast_to_item, default_file_type, download_key, enclosure_file,
    estimated_file_size, files_page_url, paging_query, user_url, Cloudcast, Tag, User,
};

fn sample_cloudcast() -> Cloudcast {
    Cloudcast {
        key: String::from("/alice/morning-mix/"),
        name: String::from("Morning Mix"),
        slug: String::from("morning-mix"),
        picture: String::from("https://img.example/alice/morning.jpg"),
        tags: vec![
            Tag {
                name: String::from("Jazz"),
                url: String::from("https://www.mixcloud.com/discover/jazz/"),
            },
            Tag {
                name: String::from("Funk"),
                url: String::from("https://www.mixcloud.com/discover/funk/"),
            },
        ],
        updated_time: 1_600_000_000,
        url: String::from("https://www.mixcloud.com/alice/morning-mix/"),
        audio_length: 3600,
    }
}

#[test]
fn estimated_size_uses_default_bitrate() {
    // 64 KiB/s in bits over 8: 8192 bytes per second of audio
    assert_eq!(estimated_file_size(3600), 8192 * 3600);
    assert_eq!(estimated_file_size(0), 0);
    assert_eq!(estimated_file_size(1), 8192);
}

#[test]
fn default_type_is_mpeg_audio() {
    assert_eq!(default_file_type(), "audio/mpeg");
}

#[test]
fn paging_query_caps_limit_at_page_size() {
    assert_eq!(paging_query(75, 0), "limit=50&offset=0");
    assert_eq!(paging_query(25, 50), "limit=25&offset=50");
    assert_eq!(paging_query(50, 100), "limit=50&offset=100");
    assert_eq!(paging_query(0, 0), "limit=0&offset=0");
}

#[test]
fn urls_are_built_from_the_api_base() {
    assert_eq!(user_url("alice"), "https://api.mixcloud.com/alice");
    assert_eq!(
        files_page_url("/alice/morning-mix/"),
        "https://www.mixcloud.com/alice/morning-mix/"
    );
}

#[test]
fn enclosure_file_strips_slashes_and_adds_extension() {
    assert_eq!(enclosure_file("/alice/morning-mix/"), "alice/morning-mix.m4a");
}

#[test]
fn enclosure_file_replaces_an_existing_extension() {
    // a dotted final segment loses its tail, as path extension
    // replacement does
    assert_eq!(enclosure_file("/alice/mix.v2/"), "alice/mix.m4a");
}

#[test]
fn download_key_round_trips() {
    let key = "/alice/morning-mix/";
    let file = enclosure_file(key);
    assert_eq!(download_key(&file), key);
}

#[test]
fn download_key_strips_the_extension() {
    assert_eq!(download_key("alice/morning-mix.m4a"), "/alice/morning-mix/");
}

#[test]
fn cloudcast_maps_field_for_field() {
    let item = cloudcast_to_item(sample_cloudcast());
    assert_eq!(item.title, "Morning Mix");
    assert_eq!(item.link, "https://www.mixcloud.com/alice/morning-mix/");
    assert_eq!(
        item.description.as_deref(),
        Some("Taken from Mixcloud: https://www.mixcloud.com/alice/morning-mix/")
    );
    assert_eq!(item.categories.len(), 2);
    assert_eq!(item.categories[0].0, "Jazz");
    assert_eq!(item.categories[0].1, "https://www.mixcloud.com/discover/jazz/");
    assert_eq!(item.enclosure.file, "alice/morning-mix.m4a");
    assert_eq!(item.enclosure.mime_type, "audio/mpeg");
    assert_eq!(item.enclosure.length, 8192 * 3600);
    assert_eq!(item.duration, Some(3600));
    assert_eq!(item.guid, "morning-mix");
    assert_eq!(item.keywords, vec!["Jazz", "Funk"]);
    assert_eq!(item.image.as_deref(), Some("https://img.example/alice/morning.jpg"));
    // no separate update time: both timestamps take the one given
    assert_eq!(item.published_at, 1_600_000_000);
    assert_eq!(item.updated_at, 1_600_000_000);
}

#[test]
fn channel_appends_provider_to_title() {
    let user = User {
        name: String::from("Alice"),
        biog: String::from("Selector of fine tunes."),
        picture: String::from("https://img.example/alice.jpg"),
        url: String::from("https://www.mixcloud.com/alice/"),
    };
    let channel = channel_from(user, vec![sample_cloudcast()]);
    assert_eq!(channel.title, "Alice (via Mixcloud)");
    assert_eq!(channel.link, "https://www.mixcloud.com/alice/");
    assert_eq!(channel.description, "Selector of fine tunes.");
    assert_eq!(channel.author.as_deref(), Some("Alice"));
    assert_eq!(channel.categories, vec!["Music"]);
    assert_eq!(channel.image.as_deref(), Some("https://img.example/alice.jpg"));
    assert_eq!(channel.items.len(), 1);
    assert_eq!(channel.items[0].guid, "morning-mix");
}
