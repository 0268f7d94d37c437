use kasetophono::blogger::{Category, Content, Entry, Link, Published, Title};
use kasetophono::cassette::{cassette_path, has_label, terms, Cassette};
use kasetophono::song::{Listing, Song};
use kasetophono::subcategory::{Subcategory, SubcategoryKind};

const NERO: &str = "https://www.kasetophono.com/2019/01/nero.html";
const NERO_UUID: u128 = 0xfa7b750c1da659789dc3aa81909753e3;
const PLAYLIST: &str = "https://www.youtube.com/embed/videoseries?list=PLSRDGXudTSm8FuEJEeix05FqOVCMNvlJI";

fn link(rel: &str, href: &str) -> Link {
    Link { rel: rel.into(), href: href.into(), ..Default::default() }
}

fn links(address: &str) -> Vec<Link> {
    vec![
        link("replies", "https://www.kasetophono.com/feeds/1/comments/default"),
        link("edit", "https://www.blogger.com/feeds/1/posts/default/2"),
        link("self", address),
        link("alternate", "https://www.kasetophono.com/alternate.html"),
    ]
}

fn entry(title: &str, content: &str, link: Vec<Link>, labels: &[&str]) -> Entry {
    Entry {
        title: Title { type_field: "text".into(), t: title.into() },
        content: Content { type_field: "html".into(), t: content.into() },
        link,
        category: labels
            .iter()
            .map(|term| Category { scheme: Some("http://www.blogger.com/atom/ns#".into()), term: (*term).into() })
            .collect(),
        published: Published { t: "2019-01-07T10:30:00.001+02:00".into() },
        ..Default::default()
    }
}

fn content() -> String {
    format!(
        "<div class=\"separator\"><a href=\"https://1.bp.blogspot.com/full.jpg\">\
         <img border=\"0\" src=\"https://1.bp.blogspot.com/s320/nero.jpg\" /></a></div>\
         <p>Some words</p><img src=\"https://1.bp.blogspot.com/second.jpg\">\
         <iframe allowfullscreen=\"\" frameborder=\"0\" src=\"{}\"></iframe>\
         <iframe src=\"https://example.com/other\"></iframe>",
        PLAYLIST
    )
}

#[test]
fn a_playlist_post_is_a_cassette() {
    let post = entry("  Νερό / Water \n", &content(), links(NERO), &["Playlist", "Balkan", "Playlist"]);
    let cassette = Cassette::try_from_entry(post).unwrap();
    assert_eq!(
        cassette,
        Cassette {
            uuid: NERO_UUID,
            name: "Νερό / Water".into(),
            safe_name: "Νερό - Water".into(),
            path: "cassettes/2019/01/Νερό - Water".into(),
            url: NERO.into(),
            yt_url: PLAYLIST.into(),
            videos: vec![],
            image_url: Some("https://1.bp.blogspot.com/s320/nero.jpg".into()),
            labels: vec!["Playlist".into(), "Balkan".into(), "Playlist".into()],
            subcategories: vec![],
            created_at: "2019-01-07T10:30:00.001+02:00".into(),
        }
    );
}

#[test]
fn the_identifier_is_the_hash_of_the_address() {
    let post = entry("a", &content(), links("https://www.kasetophono.com/2020/05/a-b.html"), &[]);
    let cassette = Cassette::try_from_entry(post).unwrap();
    assert_eq!(cassette.uuid, 0x5513f03458c3550ebc90e17292eee016);
    assert_eq!(cassette.uuid, 113087905207670161136509269405288292374);
    let post = entry("a", &content(), links("nero"), &[]);
    assert_eq!(Cassette::try_from_entry(post).unwrap().uuid, 0x060d441cd6795388907df89dd08e8ef5);
}

#[test]
fn reading_a_post_twice_gives_the_same_cassette() {
    let post = entry(" A/B ", &content(), links(NERO), &["x"]);
    let first = Cassette::try_from_entry(post.clone()).unwrap();
    let second = Cassette::try_from_entry(post).unwrap();
    assert_eq!(first.uuid, second.uuid);
    assert_eq!(first.path, second.path);
    assert_eq!(first.safe_name, second.safe_name);
    assert_eq!(first, second);
}

#[test]
fn a_post_without_a_playlist_frame_is_no_cassette() {
    let no_frame = entry("a", "<p>words</p><img src=\"x.jpg\">", links(NERO), &[]);
    assert_eq!(Cassette::try_from_entry(no_frame), None);
    let no_source = entry("a", "<iframe></iframe>", links(NERO), &[]);
    assert_eq!(Cassette::try_from_entry(no_source), None);
    let other_host =
        entry("a", "<iframe src=\"https://vimeo.com/video/1?list=2\"></iframe>", links(NERO), &[]);
    assert_eq!(Cassette::try_from_entry(other_host), None);
    let single_video =
        entry("a", "<iframe src=\"https://www.youtube.com/embed/va-EudnxtAc\"></iframe>", links(NERO), &[]);
    assert_eq!(Cassette::try_from_entry(single_video), None);
    // only the first frame counts
    let second_frame = entry(
        "a",
        &format!("<iframe src=\"https://example.com/\"></iframe><iframe src=\"{}\"></iframe>", PLAYLIST),
        links(NERO),
        &[],
    );
    assert_eq!(Cassette::try_from_entry(second_frame), None);
    let empty = entry("a", "", links(NERO), &[]);
    assert_eq!(Cassette::try_from_entry(empty), None);
}

#[test]
fn a_post_with_fewer_than_three_links_is_dropped() {
    let mut two = links(NERO);
    two.truncate(2);
    assert_eq!(Cassette::try_from_entry(entry("a", &content(), two, &[])), None);
    assert_eq!(Cassette::try_from_entry(entry("a", &content(), vec![], &[])), None);
    let mut three = links(NERO);
    three.truncate(3);
    assert!(Cassette::try_from_entry(entry("a", &content(), three, &[])).is_some());
}

#[test]
fn a_post_without_a_picture_has_no_image() {
    let post = entry("a", &format!("<iframe src=\"{}\"></iframe>", PLAYLIST), links(NERO), &[]);
    assert_eq!(Cassette::try_from_entry(post).unwrap().image_url, None);
    let post = entry("a", &format!("<img alt=\"x\"><iframe src=\"{}\"></iframe>", PLAYLIST), links(NERO), &[]);
    assert_eq!(Cassette::try_from_entry(post).unwrap().image_url, None);
}

#[test]
fn from_parts_takes_what_the_content_holds() {
    let post = entry("t", "ignored", links(NERO), &["a"]);
    let cassette = Cassette::from_parts(post.clone(), Some(PLAYLIST.into()), Some("p.jpg".into())).unwrap();
    assert_eq!(cassette.yt_url, PLAYLIST);
    assert_eq!(cassette.image_url, Some("p.jpg".to_string()));
    assert_eq!(cassette.uuid, NERO_UUID);
    assert_eq!(Cassette::from_parts(post.clone(), None, Some("p.jpg".into())), None);
    assert_eq!(Cassette::from_parts(post.clone(), Some("https://youtube.com/x".into()), None), None);
    assert_eq!(Cassette::from_parts(post, Some("list of things".into()), None), None);
}

fn chars(s: &str) -> Vec<char> {
    s.chars().collect()
}

#[test]
fn the_path_takes_the_two_segments_before_the_last() {
    assert_eq!(cassette_path(&chars(NERO), &chars("Nero")), chars("cassettes/2019/01/Nero"));
    assert_eq!(cassette_path(&chars("a/b"), &chars("n")), chars("cassettes/a/n"));
    assert_eq!(cassette_path(&chars("/b"), &chars("n")), chars("cassettes//n"));
    assert_eq!(cassette_path(&chars("abc"), &chars("n")), chars("cassettes/n"));
    assert_eq!(cassette_path(&chars(""), &chars("n")), chars("cassettes/n"));
    assert_eq!(cassette_path(&chars("a/b/c/d/"), &chars("n")), chars("cassettes/c/d/n"));
    assert_eq!(cassette_path(&chars("//"), &chars("")), chars("cassettes///"));
    assert_eq!(cassette_path(&chars("x/y/z"), &chars("n")), chars("cassettes/x/y/n"));
}

#[test]
fn labels_are_copied_in_order() {
    let categories = vec![
        Category { scheme: None, term: "b".into() },
        Category { scheme: None, term: "a".into() },
        Category { scheme: None, term: "b".into() },
    ];
    let labels = terms(&categories);
    assert_eq!(labels, vec!["b".to_string(), "a".to_string(), "b".to_string()]);
    assert!(has_label(&labels, &"a".to_string()));
    assert!(!has_label(&labels, &"c".to_string()));
    assert!(!has_label(&vec![], &"a".to_string()));
}

fn label(name: &str, label: &str) -> Subcategory {
    Subcategory { name: name.into(), kind: SubcategoryKind::Label(label.into()) }
}

fn single(name: &str, url: &str) -> Subcategory {
    Subcategory { name: name.into(), kind: SubcategoryKind::Cassette(url.into()) }
}

#[test]
fn a_cassette_is_filed_under_the_subcategories_that_hold_it() {
    let post = entry("Nero", &content(), links(NERO), &["Playlist", "Balkan"]);
    let mut cassette = Cassette::try_from_entry(post).unwrap();
    let before = cassette.clone();
    let subcategories = vec![
        label("Βαλκάνια", "Balkan"),
        label("Λάτιν", "Latin"),
        single("Ινδίες", NERO),
        single("Άλλη", "https://www.kasetophono.com/2019/01/nero.html/"),
        single("Http", "http://www.kasetophono.com/2019/01/nero.html"),
        label("balkan", "balkan"),
        label("Νέες", "Playlist"),
        label("Βαλκάνια", "Balkan"),
    ];
    cassette.fill_subcategories(&subcategories);
    assert_eq!(
        cassette.subcategories,
        vec![
            label("Βαλκάνια", "Balkan"),
            single("Ινδίες", NERO),
            label("Νέες", "Playlist"),
            label("Βαλκάνια", "Balkan"),
        ]
    );
    assert_eq!(Cassette { subcategories: vec![], ..cassette.clone() }, before);

    cassette.fill_subcategories(&vec![label("Λάτιν", "Latin")]);
    assert_eq!(cassette.subcategories, vec![]);
    cassette.fill_subcategories(&vec![]);
    assert_eq!(cassette.subcategories, vec![]);
}

#[test]
fn cassette_youtube_dl() {
    let mut c = Cassette {
        uuid: Default::default(),
        name: Default::default(),
        safe_name: Default::default(),
        path: Default::default(),
        subcategories: vec![],
        labels: Default::default(),
        image_url: Default::default(),
        url: Default::default(),
        yt_url: "https://www.youtube.com/watch?v=va-EudnxtAc&list=PLSRDGXudTSm8FuEJEeix05FqOVCMNvlJI".to_string(),
        videos: vec![],
        created_at: Default::default(),
    };

    let songs = vec![
        Song { id: "va-EudnxtAc".into(), title: "First".into(), duration: Some(215) },
        Song { id: "x".into(), title: "Second".into(), duration: None },
    ];
    c.fill_songs(Listing::Playlist(Some(songs.clone())));
    assert_eq!(c.videos, songs);
    c.fill_songs(Listing::SingleVideo(None));
    assert_eq!(c.videos, songs);
    c.fill_songs(Listing::Playlist(None));
    assert_eq!(c.videos, vec![]);
}
