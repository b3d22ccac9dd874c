use music_sorter::tags::{RawTag, SortableTag};

fn raw(
    title: Option<&str>,
    album: Option<&str>,
    artist: Option<&str>,
    album_artist: Option<&str>,
) -> RawTag {
    RawTag {
        title: title.map(String::from),
        album: album.map(String::from),
        artist: artist.map(String::from),
        album_artist: album_artist.map(String::from),
    }
}

#[test]
fn title_alone_is_rejected() {
    let r = SortableTag::from(raw(Some("T"), None, None, None));
    assert!(r.is_none());
}

#[test]
fn missing_title_is_rejected() {
    let r = SortableTag::from(raw(None, Some("B"), Some("A"), Some("AA")));
    assert!(r.is_none());
}

#[test]
fn missing_album_artist_fails_the_strict_contract() {
    // The guard passes with title and artist, but every one of album,
    // artist and album-artist must be present once it does.
    let r = SortableTag::from(raw(Some("T"), Some("B"), Some("A"), None));
    assert!(r.is_none());
}

#[test]
fn missing_artist_fails_the_strict_contract() {
    let r = SortableTag::from(raw(Some("T"), Some("B"), None, Some("AA")));
    assert!(r.is_none());
}

#[test]
fn missing_album_fails_the_strict_contract() {
    let r = SortableTag::from(raw(Some("T"), None, Some("A"), Some("AA")));
    assert!(r.is_none());
}

#[test]
fn full_tag_is_accepted() {
    let r = SortableTag::from(raw(Some("T"), Some("B"), Some("A"), Some("AA")));
    let t = r.expect("a full tag must construct");
    assert_eq!(t.title, "T");
    assert_eq!(t.album.as_deref(), Some("B"));
    assert_eq!(t.artist.as_deref(), Some("A"));
    assert_eq!(t.album_artist.as_deref(), Some("AA"));
}

#[test]
fn path_prefers_album_artist_as_root() {
    let t = SortableTag::from(raw(Some("T"), Some("B"), Some("A"), Some("AA"))).unwrap();
    assert_eq!(t.path(), vec![String::from("AA"), String::from("B")]);
}

#[test]
fn path_falls_back_to_album_when_album_artist_absent() {
    // Constructed by hand: construction itself never leaves album-artist
    // empty. The root falls back to the album, not to the artist.
    let t = SortableTag {
        title: String::from("T"),
        album: Some(String::from("B")),
        artist: Some(String::from("A")),
        album_artist: None,
    };
    assert_eq!(t.path(), vec![String::from("B"), String::from("B")]);
}

#[test]
fn path_without_album_has_one_segment() {
    let t = SortableTag {
        title: String::from("T"),
        album: None,
        artist: Some(String::from("A")),
        album_artist: Some(String::from("AA")),
    };
    assert_eq!(t.path(), vec![String::from("AA")]);
}
