use vstd::prelude::*;
use std::io::Cursor;
use crate::archive::{archive_entry_datas, archive_entry_names, archive_len, entry_data, entry_name,
    open_archive, parsed_archive};
use crate::classify::{classify_spec, InputKind, SupportedInput};
use crate::tags::{decode_raw_tag, decoded_tag, path_segments, tag_from_spec, SortableTag,
    SortableTagData};

verus! {

/// Why no destination path could be produced for an entry.
#[derive(Clone, Copy, Debug, PartialEq, Eq, Structural)]
pub enum ResolveError {
    /// The entry's kind is recognized but resolution for it is not yet
    /// supported.
    NotYetSupported,
    /// The entry could not be opened as an archive.
    ArchiveOpenError,
    /// No usable audio tag was found in the entry.
    DestinationNotFound,
}

/// The tag an archive entry contributes: its name must classify as an audio
/// file, its contents must be readable, they must decode to a raw tag, and
/// that tag must validate.
pub open spec fn entry_usable(name: Option<Seq<char>>, data: Option<Seq<u8>>) -> Option<
    SortableTagData,
> {
    match name {
        Some(nm) => match classify_spec(nm, false) {
            Some(InputKind::AudioFile(_)) => match data {
                Some(d) => match decoded_tag(d) {
                    Some(raw) => tag_from_spec(raw),
                    None => None,
                },
                None => None,
            },
            _ => None,
        },
        None => None,
    }
}

/// Index of the first archive entry, at or past `i`, that yields a usable
/// tag.
pub open spec fn first_usable_entry(
    names: Seq<Option<Seq<char>>>,
    datas: Seq<Option<Seq<u8>>>,
    i: int,
) -> Option<int>
    decreases names.len() - i,
{
    if i < 0 || i >= names.len() || datas.len() != names.len() {
        None
    } else if entry_usable(names[i], datas[i]) is Some {
        Some(i)
    } else {
        first_usable_entry(names, datas, i + 1)
    }
}

proof fn lemma_first_usable_none(
    names: Seq<Option<Seq<char>>>,
    datas: Seq<Option<Seq<u8>>>,
    i: int,
)
    requires
        0 <= i <= names.len(),
        names.len() == datas.len(),
        forall|j: int| i <= j < names.len() ==> entry_usable(names[j], datas[j]) is None,
    ensures
        first_usable_entry(names, datas, i) is None,
    decreases names.len() - i,
{
    if i < names.len() {
        lemma_first_usable_none(names, datas, i + 1);
    }
}

proof fn lemma_first_usable_found(
    names: Seq<Option<Seq<char>>>,
    datas: Seq<Option<Seq<u8>>>,
    s: int,
    i: int,
)
    requires
        0 <= s <= i < names.len(),
        names.len() == datas.len(),
        forall|j: int| s <= j < i ==> entry_usable(names[j], datas[j]) is None,
        entry_usable(names[i], datas[i]) is Some,
    ensures
        first_usable_entry(names, datas, s) == Some(i),
    decreases i - s,
{
    if s < i {
        lemma_first_usable_found(names, datas, s + 1, i);
    }
}

/// Law: an archive none of whose entries yields a usable tag — in
/// particular one with no audio entries, or whose audio entries all fail to
/// decode or validate — yields no destination.
pub proof fn lemma_archive_without_usable_entry(
    names: Seq<Option<Seq<char>>>,
    datas: Seq<Option<Seq<u8>>>,
)
    requires
        names.len() == datas.len(),
    ensures
        (forall|i: int| 0 <= i < names.len() ==> entry_usable(names[i], datas[i]) is None)
            ==> first_usable_entry(names, datas, 0) is None,
{
    if forall|i: int| 0 <= i < names.len() ==> entry_usable(names[i], datas[i]) is None {
        lemma_first_usable_none(names, datas, 0);
    }
}

/// Law: an entry whose name does not classify as an audio file never
/// contributes a tag, whatever its contents.
pub proof fn lemma_non_audio_entry_unusable(name: Option<Seq<char>>, data: Option<Seq<u8>>)
    ensures
        (name matches Some(nm) ==> !(classify_spec(nm, false) matches Some(
            InputKind::AudioFile(_),
        ))) ==> entry_usable(name, data) is None,
{
}

/// Scans an opened archive for the first entry with a usable audio tag, in
/// index order, skipping entries that fail at any step.
pub fn scan_archive(a: &mut zip::ZipArchive<Cursor<Vec<u8>>>) -> (r: Option<SortableTag>)
    requires
        archive_entry_names(*old(a)).len() == archive_entry_datas(*old(a)).len(),
    ensures
        archive_entry_names(*final(a)) == archive_entry_names(*old(a)),
        archive_entry_datas(*final(a)) == archive_entry_datas(*old(a)),
        match first_usable_entry(
            archive_entry_names(*old(a)),
            archive_entry_datas(*old(a)),
            0,
        ) {
            Some(i) => r matches Some(t) && Some(t@) == entry_usable(
                archive_entry_names(*old(a))[i],
                archive_entry_datas(*old(a))[i],
            ),
            None => r is None,
        },
{
    let ghost names = archive_entry_names(*a);
    let ghost datas = archive_entry_datas(*a);
    let n: usize = archive_len(a);
    let mut k: usize = 0;
    while k < n
        invariant
            names == archive_entry_names(*old(a)),
            datas == archive_entry_datas(*old(a)),
            archive_entry_names(*a) == names,
            archive_entry_datas(*a) == datas,
            names.len() == datas.len(),
            n == names.len(),
            k <= n,
            forall|j: int| 0 <= j < k ==> entry_usable(names[j], datas[j]) is None,
        decreases n - k,
    {
        let ghost name_k = names[k as int];
        let ghost data_k = datas[k as int];
        match entry_name(a, k) {
            Some(nm) => {
                let ghost nm_view = nm@;
                match SupportedInput::from(nm, false) {
                    Some(SupportedInput::Mp3Input(_)) => {
                        match entry_data(a, k) {
                            Some(d) => {
                                match decode_raw_tag(&d) {
                                    Some(raw) => {
                                        match SortableTag::from(raw) {
                                            Some(t) => {
                                                proof {
                                                    assert(entry_usable(name_k, data_k)
                                                        == Some(t@));
                                                    lemma_first_usable_found(
                                                        names,
                                                        datas,
                                                        0,
                                                        k as int,
                                                    );
                                                }
                                                return Some(t);
                                            },
                                            None => {
                                                proof {
                                                    assert(entry_usable(name_k, data_k)
                                                        is None);
                                                }
                                            },
                                        }
                                    },
                                    None => {
                                        proof {
                                            assert(entry_usable(name_k, data_k) is None);
                                        }
                                    },
                                }
                            },
                            None => {
                                proof {
                                    assert(entry_usable(name_k, data_k) is None);
                                }
                            },
                        }
                    },
                    Some(_) => {
                        proof {
                            assert(entry_usable(name_k, data_k) is None);
                        }
                    },
                    None => {
                        proof {
                            assert(entry_usable(name_k, data_k) is None);
                        }
                    },
                }
            },
            None => {
                proof {
                    assert(entry_usable(name_k, data_k) is None);
                }
            },
        }
        k += 1;
    }
    proof {
        lemma_first_usable_none(names, datas, 0);
    }
    None
}

/// What resolution yields for a classified entry with the given contents:
/// for an audio file, the path its own tag sorts under; for an archive, the
/// path of its first usable entry; directories are not yet supported.
pub open spec fn resolve_spec(
    output: Seq<Seq<char>>,
    input: InputKind,
    data: Seq<u8>,
) -> Result<Seq<Seq<char>>, ResolveError> {
    match input {
        InputKind::Directory(_) => Err(ResolveError::NotYetSupported),
        InputKind::AudioFile(_) => match decoded_tag(data) {
            Some(raw) => match tag_from_spec(raw) {
                Some(t) => Ok(output + path_segments(t)),
                None => Err(ResolveError::DestinationNotFound),
            },
            None => Err(ResolveError::DestinationNotFound),
        },
        InputKind::Archive(_) => match parsed_archive(data) {
            Some(m) => match first_usable_entry(m.0, m.1, 0) {
                Some(i) => Ok(output + path_segments(entry_usable(m.0[i], m.1[i]).unwrap())),
                None => Err(ResolveError::DestinationNotFound),
            },
            None => Err(ResolveError::ArchiveOpenError),
        },
    }
}

pub(crate) fn join_segments(base: &Vec<String>, rest: &Vec<String>) -> (r: Vec<String>)
    ensures
        r.deep_view() == base.deep_view() + rest.deep_view(),
{
    let mut out: Vec<String> = Vec::new();
    proof {
        assert(out.deep_view() =~= base.deep_view().subrange(0, 0));
    }
    let mut i: usize = 0;
    while i < base.len()
        invariant
            i <= base.len(),
            out@.len() == i,
            out.deep_view() == base.deep_view().subrange(0, i as int),
        decreases base.len() - i,
    {
        let s: String = base[i].clone();
        let ghost prev = out@;
        out.push(s);
        proof {
            assert forall|m: int| 0 <= m < i + 1 implies out.deep_view()[m]
                == base.deep_view().subrange(0, i + 1)[m] by {
                assert(out.deep_view()[m] == out@[m].deep_view());
                if m < i {
                    assert(out@[m] == prev[m]);
                    assert(prev[m].deep_view() == base.deep_view().subrange(0, i as int)[m]);
                } else {
                    assert(out@[m].deep_view() == base@[i as int]@);
                }
            }
            assert(out.deep_view() =~= base.deep_view().subrange(0, i + 1));
        }
        i += 1;
    }
    let mut j: usize = 0;
    while j < rest.len()
        invariant
            j <= rest.len(),
            out@.len() == base@.len() + j,
            out.deep_view() == base.deep_view() + rest.deep_view().subrange(0, j as int),
        decreases rest.len() - j,
    {
        let s: String = rest[j].clone();
        let ghost prev = out@;
        let ghost target = base.deep_view() + rest.deep_view().subrange(0, j + 1);
        out.push(s);
        proof {
            assert forall|m: int| 0 <= m < base@.len() + j + 1 implies out.deep_view()[m]
                == target[m] by {
                assert(out.deep_view()[m] == out@[m].deep_view());
                if m < base@.len() + j {
                    assert(out@[m] == prev[m]);
                    assert(prev[m].deep_view() == (base.deep_view() + rest.deep_view().subrange(
                        0,
                        j as int,
                    ))[m]);
                } else {
                    assert(out@[m].deep_view() == rest@[j as int]@);
                    assert(target[m] == rest.deep_view().subrange(0, j + 1)[j as int]);
                }
            }
            assert(out.deep_view() =~= target);
        }
        j += 1;
    }
    proof {
        assert(base.deep_view().subrange(0, base.deep_view().len() as int) =~= base.deep_view());
        assert(rest.deep_view().subrange(0, rest.deep_view().len() as int) =~= rest.deep_view());
    }
    out
}

/// Resolves the destination path for a classified entry: the configured
/// output segments, extended by the segments the entry's representative
/// audio tag sorts under.
pub fn get_destination_path(
    output_folder: &Vec<String>,
    file: &SupportedInput,
    data: &Vec<u8>,
) -> (r: Result<Vec<String>, ResolveError>)
    ensures
        match r {
            Ok(p) => resolve_spec(output_folder.deep_view(), file@, data@) == Ok::<
                Seq<Seq<char>>,
                ResolveError,
            >(p.deep_view()),
            Err(e) => resolve_spec(output_folder.deep_view(), file@, data@) == Err::<
                Seq<Seq<char>>,
                ResolveError,
            >(e),
        },
{
    match file {
        SupportedInput::DirInput(_) => Err(ResolveError::NotYetSupported),
        SupportedInput::Mp3Input(_) => {
            match decode_raw_tag(data) {
                Some(raw) => match SortableTag::from(raw) {
                    Some(t) => {
                        let segs: Vec<String> = t.path();
                        Ok(join_segments(output_folder, &segs))
                    },
                    None => Err(ResolveError::DestinationNotFound),
                },
                None => Err(ResolveError::DestinationNotFound),
            }
        },
        SupportedInput::ZipInput(_) => {
            match open_archive(data) {
                Some(mut a) => {
                    match scan_archive(&mut a) {
                        Some(t) => {
                            let segs: Vec<String> = t.path();
                            Ok(join_segments(output_folder, &segs))
                        },
                        None => Err(ResolveError::DestinationNotFound),
                    }
                },
                None => Err(ResolveError::ArchiveOpenError),
            }
        },
    }
}

} // verus!
