use vstd::prelude::*;

verus! {

/// Index of the last occurrence of `c` in `s`, if `c` occurs at all.
pub open spec fn last_occurrence(s: Seq<char>, c: char) -> Option<int>
    decreases s.len(),
{
    if s.len() == 0 {
        None
    } else if s[s.len() - 1] == c {
        Some(s.len() - 1)
    } else {
        last_occurrence(s.drop_last(), c)
    }
}

/// The part of a path after its last `/` separator; the whole path when it
/// holds no separator.
pub open spec fn file_name_of(p: Seq<char>) -> Seq<char> {
    match last_occurrence(p, '/') {
        Some(i) => p.subrange(i + 1, p.len() as int),
        None => p,
    }
}

/// The extension of a path: what follows the last `.` of its file name,
/// provided that dot is not the file name's first character. A file name
/// without a dot, or whose only dot leads it, has no extension.
pub open spec fn extension_of(p: Seq<char>) -> Option<Seq<char>> {
    let name = file_name_of(p);
    match last_occurrence(name, '.') {
        Some(i) => if i >= 1 {
            Some(name.subrange(i + 1, name.len() as int))
        } else {
            None
        },
        None => None,
    }
}

pub proof fn lemma_last_occurrence(s: Seq<char>, c: char)
    ensures
        match last_occurrence(s, c) {
            Some(i) => 0 <= i < s.len() && s[i] == c && (forall|j: int|
                i < j < s.len() ==> s[j] != c),
            None => forall|j: int| 0 <= j < s.len() ==> s[j] != c,
        },
    decreases s.len(),
{
    if s.len() == 0 {
    } else if s[s.len() - 1] == c {
    } else {
        lemma_last_occurrence(s.drop_last(), c);
        assert(forall|j: int| 0 <= j < s.len() - 1 ==> s.drop_last()[j] == s[j]);
    }
}

pub proof fn lemma_last_occurrence_is(s: Seq<char>, c: char, i: int)
    requires
        0 <= i < s.len(),
        s[i] == c,
        forall|j: int| i < j < s.len() ==> s[j] != c,
    ensures
        last_occurrence(s, c) == Some(i),
    decreases s.len(),
{
    if s[s.len() - 1] == c {
        assert(i == s.len() - 1);
    } else {
        assert(i < s.len() - 1);
        assert(s.drop_last()[i] == s[i]);
        assert(forall|j: int| i < j < s.len() - 1 ==> s.drop_last()[j] == s[j]);
        lemma_last_occurrence_is(s.drop_last(), c, i);
    }
}

/// Index of the last occurrence of `c` in `s`, scanning the characters of the
/// string.
pub fn find_last(s: &str, c: char) -> (r: Option<usize>)
    ensures
        match r {
            Some(i) => i < s@.len() && last_occurrence(s@, c) == Some(i as int),
            None => last_occurrence(s@, c) is None,
        },
{
    let n: usize = s.unicode_len();
    let mut found: Option<usize> = None;
    let mut k: usize = 0;
    while k < n
        invariant
            n == s@.len(),
            k <= n,
            match found {
                Some(i) => i < k && s@[i as int] == c && (forall|j: int|
                    i < j < k ==> s@[j] != c),
                None => forall|j: int| 0 <= j < k ==> s@[j] != c,
            },
        decreases n - k,
    {
        let ch: char = s.get_char(k);
        if ch == c {
            found = Some(k);
        }
        k += 1;
    }
    proof {
        match found {
            Some(i) => lemma_last_occurrence_is(s@, c, i as int),
            None => lemma_last_occurrence(s@, c),
        }
    }
    found
}

} // verus!
