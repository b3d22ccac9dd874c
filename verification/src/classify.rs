use vstd::prelude::*;
use crate::paths::{extension_of, file_name_of, find_last, last_occurrence, lemma_last_occurrence,
    lemma_last_occurrence_is};

verus! {

/// Semantic kind of a filesystem entry, carrying the entry's path.
pub ghost enum InputKind {
    Directory(Seq<char>),
    Archive(Seq<char>),
    AudioFile(Seq<char>),
}

pub open spec fn zip_ext() -> Seq<char> {
    seq!['z', 'i', 'p']
}

pub open spec fn mp3_ext() -> Seq<char> {
    seq!['m', 'p', '3']
}

/// A directory is classified as such whatever its name; anything else is
/// classified by its extension alone, and an unrecognized or missing
/// extension yields no kind at all.
pub open spec fn classify_spec(path: Seq<char>, is_dir: bool) -> Option<InputKind> {
    if is_dir {
        Some(InputKind::Directory(path))
    } else {
        match extension_of(path) {
            Some(e) => if e == zip_ext() {
                Some(InputKind::Archive(path))
            } else if e == mp3_ext() {
                Some(InputKind::AudioFile(path))
            } else {
                None
            },
            None => None,
        }
    }
}

/// A filesystem entry the batch knows how to handle.
pub enum SupportedInput {
    DirInput(String),
    ZipInput(String),
    Mp3Input(String),
}

impl View for SupportedInput {
    type V = InputKind;

    open spec fn view(&self) -> InputKind {
        match self {
            SupportedInput::DirInput(p) => InputKind::Directory(p@),
            SupportedInput::ZipInput(p) => InputKind::Archive(p@),
            SupportedInput::Mp3Input(p) => InputKind::AudioFile(p@),
        }
    }
}

/// Index at which the extension of `s` starts, when `s` has one.
fn extension_start(s: &str) -> (r: Option<usize>)
    ensures
        match r {
            Some(i) => 1 <= i <= s@.len() && extension_of(s@) == Some(
                s@.subrange(i as int, s@.len() as int),
            ),
            None => extension_of(s@) is None,
        },
{
    let n: usize = s.unicode_len();
    let slash: Option<usize> = find_last(s, '/');
    let dot: Option<usize> = find_last(s, '.');
    let name_start: usize = match slash {
        Some(i) => i + 1,
        None => 0,
    };
    proof {
        assert(file_name_of(s@) =~= s@.subrange(name_start as int, n as int));
        lemma_last_occurrence(s@, '.');
    }
    let ghost name = file_name_of(s@);
    match dot {
        None => {
            // No dot anywhere, so none in the file name either.
            proof {
                assert(forall|j: int| 0 <= j < name.len() ==> name[j] == s@[name_start + j]);
                lemma_last_occurrence(name, '.');
            }
            None
        },
        Some(d) => {
            if d < name_start {
                // The last dot sits before the file name: no dot in the name.
                proof {
                    assert(forall|j: int|
                        0 <= j < name.len() ==> name[j] == s@[name_start + j] && name[j]
                            != '.');
                    lemma_last_occurrence(name, '.');
                }
                None
            } else {
                proof {
                    assert(forall|j: int| 0 <= j < name.len() ==> name[j] == s@[name_start + j]);
                    assert(name[d - name_start] == '.');
                    assert(forall|j: int|
                        d - name_start < j < name.len() ==> name[j] != '.');
                    lemma_last_occurrence_is(name, '.', d - name_start);
                }
                if d == name_start {
                    // The dot leads the file name: no extension.
                    None
                } else {
                    proof {
                        assert(name.subrange(d - name_start + 1, name.len() as int)
                            =~= s@.subrange(d + 1, n as int));
                    }
                    Some(d + 1)
                }
            }
        },
    }
}

impl SupportedInput {
    /// Classifies a filesystem entry from its path text and its
    /// is-a-directory bit.
    pub fn from(path: String, is_dir: bool) -> (r: Option<SupportedInput>)
        ensures
            match r {
                Some(k) => classify_spec(path@, is_dir) == Some(k@),
                None => classify_spec(path@, is_dir) is None,
            },
    {
        if is_dir {
            return Some(SupportedInput::DirInput(path));
        }
        let s: &str = path.as_str();
        let n: usize = s.unicode_len();
        let start: usize = match extension_start(s) {
            Some(i) => i,
            None => {
                return None;
            },
        };
        let ghost ext = s@.subrange(start as int, n as int);
        if n - start == 3 {
            let c0: char = s.get_char(start);
            let c1: char = s.get_char(start + 1);
            let c2: char = s.get_char(start + 2);
            proof {
                assert(ext.len() == 3);
                assert(ext[0] == s@[start as int]);
                assert(ext[1] == s@[start + 1]);
                assert(ext[2] == s@[start + 2]);
            }
            if c0 == 'z' && c1 == 'i' && c2 == 'p' {
                proof {
                    assert(ext =~= zip_ext());
                }
                return Some(SupportedInput::ZipInput(path));
            }
            if c0 == 'm' && c1 == 'p' && c2 == '3' {
                proof {
                    assert(ext =~= mp3_ext());
                }
                return Some(SupportedInput::Mp3Input(path));
            }
            proof {
                assert(ext != zip_ext() && ext != mp3_ext());
            }
            return None;
        }
        proof {
            assert(ext.len() != 3);
            assert(ext != zip_ext() && ext != mp3_ext());
        }
        None
    }

    /// The path this entry was classified from.
    pub fn path_text(&self) -> (r: &String)
        ensures
            self@ == InputKind::Directory(r@) || self@ == InputKind::Archive(r@) || self@
                == InputKind::AudioFile(r@),
    {
        match self {
            SupportedInput::DirInput(p) => p,
            SupportedInput::ZipInput(p) => p,
            SupportedInput::Mp3Input(p) => p,
        }
    }
}

/// Law: a directory is classified as `Directory`, whatever extension-like
/// suffixes its name carries.
pub proof fn lemma_classify_directory(path: Seq<char>)
    ensures
        classify_spec(path, true) == Some(InputKind::Directory(path)),
{
}

/// Law: a non-directory entry is classified by its extension alone — exactly
/// `zip` marks an archive, exactly `mp3` an audio file, and any other or
/// missing extension leaves the entry unsupported.
pub proof fn lemma_classify_by_extension(path: Seq<char>)
    ensures
        extension_of(path) == Some(zip_ext()) ==> classify_spec(path, false) == Some(
            InputKind::Archive(path),
        ),
        extension_of(path) == Some(mp3_ext()) ==> classify_spec(path, false) == Some(
            InputKind::AudioFile(path),
        ),
        (extension_of(path) matches Some(e) && e != zip_ext() && e != mp3_ext())
            ==> classify_spec(path, false) is None,
        extension_of(path) is None ==> classify_spec(path, false) is None,
{
}

} // verus!
