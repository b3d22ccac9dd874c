use std::io::Cursor;
use std::io::Write;

use id3::TagLike;
use music_sorter::classify::SupportedInput;
use music_sorter::resolve::{get_destination_path, ResolveError};

fn tag_bytes(
    title: Option<&str>,
    album: Option<&str>,
    artist: Option<&str>,
    album_artist: Option<&str>,
) -> Vec<u8> {
    let mut tag = id3::Tag::new();
    if let Some(t) = title {
        tag.set_title(t);
    }
    if let Some(b) = album {
        tag.set_album(b);
    }
    if let Some(a) = artist {
        tag.set_artist(a);
    }
    if let Some(aa) = album_artist {
        tag.set_album_artist(aa);
    }
    let mut cur = Cursor::new(Vec::new());
    tag.write_to(&mut cur, id3::Version::Id3v24).unwrap();
    cur.into_inner()
}

fn make_zip(entries: &[(&str, Vec<u8>)]) -> Vec<u8> {
    let mut w = zip::ZipWriter::new(Cursor::new(Vec::new()));
    let opts = zip::write::SimpleFileOptions::default();
    for (name, data) in entries {
        w.start_file(*name, opts).unwrap();
        w.write_all(data).unwrap();
    }
    w.finish().unwrap().into_inner()
}

fn out_root() -> Vec<String> {
    vec![String::from("out")]
}

fn classify_file(path: &str) -> SupportedInput {
    SupportedInput::from(String::from(path), false).expect("path must classify")
}

#[test]
fn first_usable_entry_wins() {
    // cover.jpg is not audio, track1 has no usable tag, track2 and track3
    // both do: track2's destination must win and track3's must be ignored.
    let bytes = make_zip(&[
        ("cover.jpg", b"notanimage".to_vec()),
        ("track1.mp3", b"garbage".to_vec()),
        (
            "track2.mp3",
            tag_bytes(Some("T2"), Some("B2"), Some("A2"), Some("AA2")),
        ),
        (
            "track3.mp3",
            tag_bytes(Some("T3"), Some("B3"), Some("A3"), Some("AA3")),
        ),
    ]);
    let input = classify_file("inbox/album.zip");
    let r = get_destination_path(&out_root(), &input, &bytes);
    assert_eq!(
        r.unwrap(),
        vec![String::from("out"), String::from("AA2"), String::from("B2")]
    );
}

#[test]
fn incomplete_tag_entries_are_skipped() {
    // track1's tag fails the guard, track2's fails the strict part of the
    // contract, track3's is complete.
    let bytes = make_zip(&[
        ("track1.mp3", tag_bytes(Some("T1"), Some("B1"), None, None)),
        ("track2.mp3", tag_bytes(Some("T2"), None, Some("A2"), Some("AA2"))),
        (
            "track3.mp3",
            tag_bytes(Some("T3"), Some("B3"), Some("A3"), Some("AA3")),
        ),
    ]);
    let input = classify_file("album.zip");
    let r = get_destination_path(&out_root(), &input, &bytes);
    assert_eq!(
        r.unwrap(),
        vec![String::from("out"), String::from("AA3"), String::from("B3")]
    );
}

#[test]
fn archive_without_audio_entries_has_no_destination() {
    let bytes = make_zip(&[
        ("cover.jpg", b"notanimage".to_vec()),
        ("readme.txt", b"hello".to_vec()),
    ]);
    let input = classify_file("album.zip");
    let r = get_destination_path(&out_root(), &input, &bytes);
    assert!(matches!(r, Err(ResolveError::DestinationNotFound)));
}

#[test]
fn archive_with_only_unusable_audio_has_no_destination() {
    let bytes = make_zip(&[
        ("track1.mp3", b"garbage".to_vec()),
        ("track2.mp3", tag_bytes(None, Some("B"), Some("A"), Some("AA"))),
    ]);
    let input = classify_file("album.zip");
    let r = get_destination_path(&out_root(), &input, &bytes);
    assert!(matches!(r, Err(ResolveError::DestinationNotFound)));
}

#[test]
fn empty_archive_has_no_destination() {
    let bytes = make_zip(&[]);
    let input = classify_file("album.zip");
    let r = get_destination_path(&out_root(), &input, &bytes);
    assert!(matches!(r, Err(ResolveError::DestinationNotFound)));
}

#[test]
fn bytes_that_are_no_archive_fail_to_open() {
    let bytes = b"this is not a zip file".to_vec();
    let input = classify_file("album.zip");
    let r = get_destination_path(&out_root(), &input, &bytes);
    assert!(matches!(r, Err(ResolveError::ArchiveOpenError)));
}

#[test]
fn bare_audio_file_resolves_from_its_own_tag() {
    let bytes = tag_bytes(Some("T"), Some("B"), Some("A"), Some("AA"));
    let input = classify_file("song.mp3");
    let r = get_destination_path(&out_root(), &input, &bytes);
    assert_eq!(
        r.unwrap(),
        vec![String::from("out"), String::from("AA"), String::from("B")]
    );
}

#[test]
fn bare_audio_file_with_unusable_tag_has_no_destination() {
    let bytes = b"garbage".to_vec();
    let input = classify_file("song.mp3");
    let r = get_destination_path(&out_root(), &input, &bytes);
    assert!(matches!(r, Err(ResolveError::DestinationNotFound)));
}

#[test]
fn directory_resolution_is_not_yet_supported() {
    let input = SupportedInput::from(String::from("incoming"), true).unwrap();
    let r = get_destination_path(&out_root(), &input, &Vec::new());
    assert!(matches!(r, Err(ResolveError::NotYetSupported)));
}
