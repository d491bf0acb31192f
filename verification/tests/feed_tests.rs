use podbringer::feed::construct;
use podbringer::model::{Channel, Enclosure, Item};

fn empty_channel() -> Channel {
    Channel {
        title: String::from("Alice (via Mixcloud)"),
        link: String::from("https://www.mixcloud.com/alice/"),
        description: String::from("Selector of fine tunes."),
        author: Some(String::from("Alice")),
        categories: vec![String::from("Music")],
        image: Some(String::from("https://img.example/alice.jpg")),
        items: Vec::new(),
    }
}

fn item(guid: &str, updated_at: i64) -> Item {
    Item {
        title: format!("Item {guid}"),
        link: format!("https://www.mixcloud.com/alice/{guid}/"),
        description: Some(String::from("A mix.")),
        categories: vec![(
            String::from("Jazz"),
            String::from("https://www.mixcloud.com/discover/jazz/"),
        )],
        enclosure: Enclosure {
            file: format!("alice/{guid}.m4a"),
            mime_type: String::from("audio/mpeg"),
            length: 123_456,
        },
        duration: Some(3600),
        guid: String::from(guid),
        keywords: vec![String::from("Jazz"), String::from("Funk")],
        image: None,
        published_at: updated_at,
        updated_at,
    }
}

#[test]
fn empty_channel_builds_at_the_epoch() {
    let doc = construct("mixcloud", "https://pod.example", empty_channel());
    // the epoch sentinel, rendered as RFC 2822
    assert_eq!(doc.last_build_date, "Thu, 1 Jan 1970 00:00:00 +0000");
    assert_eq!(doc.title, "Alice (via Mixcloud)");
    assert_eq!(doc.category, "Music");
    assert_eq!(doc.generator, "podbringer 0.1.0");
    assert_eq!(doc.explicit, "no");
    assert_eq!(doc.summary, "Selector of fine tunes.");
    assert_eq!(doc.image.as_deref(), Some("https://img.example/alice.jpg"));
    assert!(doc.items.is_empty());
}

#[test]
fn category_is_empty_for_a_channel_without_categories() {
    let mut channel = empty_channel();
    channel.categories = Vec::new();
    let doc = construct("mixcloud", "https://pod.example", channel);
    assert_eq!(doc.category, "");
}

#[test]
fn last_build_is_the_greatest_update_time() {
    let mut channel = empty_channel();
    channel.items = vec![item("a", 2_000), item("b", 90_000), item("c", 50_000)];
    let doc = construct("mixcloud", "https://pod.example", channel);
    // 90000 s after the epoch: the second day, 01:00:00 UTC
    assert_eq!(doc.last_build_date, "Fri, 2 Jan 1970 01:00:00 +0000");
    // cross-check against the date library directly
    let expected = chrono::DateTime::<chrono::Utc>::from_timestamp(90_000, 0)
        .unwrap()
        .to_rfc2822();
    assert_eq!(doc.last_build_date, expected);
}

#[test]
fn items_render_urls_counts_and_dates() {
    let mut channel = empty_channel();
    channel.items = vec![item("morning-mix", 86_400)];
    let doc = construct("mixcloud", "https://pod.example", channel);
    assert_eq!(doc.items.len(), 1);
    let f = &doc.items[0];
    assert_eq!(
        f.enclosure_url,
        "https://pod.example/download/mixcloud/alice/morning-mix.m4a"
    );
    assert_eq!(f.enclosure_length, "123456");
    assert_eq!(f.enclosure_mime_type, "audio/mpeg");
    assert_eq!(f.guid, "morning-mix");
    assert!(!f.guid_is_permalink);
    assert_eq!(f.pub_date, "Fri, 2 Jan 1970 00:00:00 +0000");
    assert_eq!(f.duration.as_deref(), Some("3600"));
    assert_eq!(f.subtitle.as_deref(), Some("A mix."));
    assert_eq!(f.keywords, "Jazz, Funk");
    assert_eq!(doc.last_build_date, f.pub_date);
}
