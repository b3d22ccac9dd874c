use vstd::prelude::*;
use id3::TagLike;

verus! {

/// What a raw tag read yields, at the specification level: four optional
/// text frames.
pub ghost struct RawTagData {
    pub title: Option<Seq<char>>,
    pub album: Option<Seq<char>>,
    pub artist: Option<Seq<char>>,
    pub album_artist: Option<Seq<char>>,
}

/// A raw tag as decoded from an audio stream: the four frames the sorter
/// reads, each present or absent independently.
pub struct RawTag {
    pub title: Option<String>,
    pub album: Option<String>,
    pub artist: Option<String>,
    pub album_artist: Option<String>,
}

pub open spec fn opt_text_view(o: Option<String>) -> Option<Seq<char>> {
    match o {
        Some(s) => Some(s@),
        None => None,
    }
}

impl View for RawTag {
    type V = RawTagData;

    open spec fn view(&self) -> RawTagData {
        RawTagData {
            title: opt_text_view(self.title),
            album: opt_text_view(self.album),
            artist: opt_text_view(self.artist),
            album_artist: opt_text_view(self.album_artist),
        }
    }
}

/// The tag decoded from a byte stream, when one can be. Decoding depends on
/// the bytes alone.
pub uninterp spec fn decoded_tag(bytes: Seq<u8>) -> Option<RawTagData>;

/// Relies on id3::Tag::read_from2 over an in-memory cursor, and on the
/// TagLike title/album/artist/album_artist accessors: the frames decoded
/// from a byte stream depend on those bytes alone.
#[verifier::external_body]
pub fn decode_raw_tag(bytes: &Vec<u8>) -> (r: Option<RawTag>)
    ensures
        match r {
            Some(t) => decoded_tag(bytes@) == Some(t@),
            None => decoded_tag(bytes@) is None,
        },
{
    match id3::Tag::read_from2(std::io::Cursor::new(bytes.as_slice())) {
        Ok(tag) => Some(RawTag {
            title: tag.title().map(|s| s.to_string()),
            album: tag.album().map(|s| s.to_string()),
            artist: tag.artist().map(|s| s.to_string()),
            album_artist: tag.album_artist().map(|s| s.to_string()),
        }),
        Err(_) => None,
    }
}

/// A validated tag, sufficient to compute a destination path.
pub ghost struct SortableTagData {
    pub title: Seq<char>,
    pub album: Option<Seq<char>>,
    pub artist: Option<Seq<char>>,
    pub album_artist: Option<Seq<char>>,
}

pub struct SortableTag {
    pub title: String,
    pub album: Option<String>,
    pub artist: Option<String>,
    pub album_artist: Option<String>,
}

impl View for SortableTag {
    type V = SortableTagData;

    open spec fn view(&self) -> SortableTagData {
        SortableTagData {
            title: self.title@,
            album: opt_text_view(self.album),
            artist: opt_text_view(self.artist),
            album_artist: opt_text_view(self.album_artist),
        }
    }
}

/// Construction of a sortable tag from a raw one. The guard asks for a title
/// and at least one of artist and album-artist; past the guard, every one of
/// album, artist and album-artist must in fact be present, or construction
/// fails.
pub open spec fn tag_from_spec(raw: RawTagData) -> Option<SortableTagData> {
    if raw.title is None {
        None
    } else if raw.artist is None && raw.album_artist is None {
        None
    } else if raw.album is None || raw.artist is None || raw.album_artist is None {
        None
    } else {
        Some(SortableTagData {
            title: raw.title.unwrap(),
            album: raw.album,
            artist: raw.artist,
            album_artist: raw.album_artist,
        })
    }
}

/// The destination segments a tag sorts under: the album artist (or, absent
/// one, the album) as the root, then the album where present.
pub open spec fn path_segments(t: SortableTagData) -> Seq<Seq<char>> {
    let root = if t.album_artist is Some {
        t.album_artist.unwrap()
    } else {
        t.album.unwrap()
    };
    match t.album {
        Some(al) => seq![root, al],
        None => seq![root],
    }
}

impl SortableTag {
    /// Validates a raw tag into a sortable one.
    pub fn from(tag: RawTag) -> (r: Option<SortableTag>)
        ensures
            match r {
                Some(t) => tag_from_spec(tag@) == Some(t@),
                None => tag_from_spec(tag@) is None,
            },
    {
        if tag.title.is_none() {
            return None;
        }
        if tag.artist.is_none() && tag.album_artist.is_none() {
            return None;
        }
        match (tag.title, tag.album, tag.artist, tag.album_artist) {
            (Some(title), Some(album), Some(artist), Some(album_artist)) => Some(
                SortableTag {
                    title,
                    album: Some(album),
                    artist: Some(artist),
                    album_artist: Some(album_artist),
                },
            ),
            _ => None,
        }
    }

    /// The destination segments this tag sorts under.
    pub fn path(&self) -> (r: Vec<String>)
        requires
            self@.album_artist is Some || self@.album is Some,
        ensures
            r.deep_view() == path_segments(self@),
    {
        let mut output: Vec<String> = Vec::new();
        let root: String = match &self.album_artist {
            Some(aa) => aa.clone(),
            None => match &self.album {
                Some(al) => al.clone(),
                None => {
                    proof {
                        assert(false);
                    }
                    String::new()
                },
            },
        };
        output.push(root);
        match &self.album {
            Some(al) => {
                let albm: String = al.clone();
                output.push(albm);
            },
            None => {},
        }
        proof {
            assert(output.deep_view() =~= path_segments(self@));
        }
        output
    }
}

} // verus!
