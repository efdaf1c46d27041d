//! Decisions of archive extraction: validation, the progress measure, where
//! each entry goes, and which extracted file is the payload.
use vstd::prelude::*;
use crate::config::{join_of, path_join};
use crate::text::{chars_of, ends_with, str_ends_with, string_of_range};

verus! {

#[derive(PartialEq, Eq, Structural, Clone, Copy, Debug)]
pub enum ExtractError {
    /// The archive file has no bytes.
    ArchiveEmpty,
    /// The archive's header does not validate; it may need downloading again.
    ArchiveCorrupt,
}

/// An archive file of `file_size` bytes, which the archive reader did or did
/// not accept, may be extracted.
pub fn check_archive(file_size: u64, header_valid: bool) -> (r: Result<(), ExtractError>)
    ensures
        r == (if file_size == 0 {
            Err(ExtractError::ArchiveEmpty)
        } else if !header_valid {
            Err(ExtractError::ArchiveCorrupt)
        } else {
            Ok(())
        }),
{
    if file_size == 0 {
        Err(ExtractError::ArchiveEmpty)
    } else if !header_valid {
        Err(ExtractError::ArchiveCorrupt)
    } else {
        Ok(())
    }
}

/// How extraction progress is counted.
#[derive(PartialEq, Eq, Structural, Clone, Copy, Debug)]
pub enum ProgressMeasure {
    /// Bytes written, out of this total of uncompressed sizes.
    Bytes { total: u64 },
    /// Entries done, out of this many.
    Entries { count: u64 },
}

/// Sum of the entries' uncompressed sizes, an unreadable entry counting zero.
pub open spec fn size_sum(sizes: Seq<Option<u64>>) -> int
    decreases sizes.len(),
{
    if sizes.len() == 0 {
        0
    } else {
        size_sum(sizes.drop_last()) + match sizes.last() {
            Some(z) => z as int,
            None => 0,
        }
    }
}

/// Bytes where the total is positive and fits in a `u64`; entries otherwise.
pub open spec fn progress_measure_of(sizes: Seq<Option<u64>>) -> ProgressMeasure {
    if 0 < size_sum(sizes) <= u64::MAX {
        ProgressMeasure::Bytes { total: size_sum(sizes) as u64 }
    } else {
        ProgressMeasure::Entries { count: sizes.len() as u64 }
    }
}

proof fn lemma_size_sum_prefix(sizes: Seq<Option<u64>>, j: int)
    requires
        0 <= j <= sizes.len(),
    ensures
        size_sum(sizes.subrange(0, j)) <= size_sum(sizes),
    decreases sizes.len() - j,
{
    if j < sizes.len() {
        lemma_size_sum_prefix(sizes, j + 1);
        assert(sizes.subrange(0, j + 1).drop_last() =~= sizes.subrange(0, j));
    } else {
        assert(sizes.subrange(0, j) =~= sizes);
    }
}

/// The progress measure for entries of these uncompressed sizes (`None` for an
/// entry that could not be read).
pub fn progress_measure(sizes: &Vec<Option<u64>>) -> (r: ProgressMeasure)
    requires
        sizes@.len() <= u64::MAX,
    ensures
        r == progress_measure_of(sizes@),
{
    let mut total: u64 = 0;
    let mut i: usize = 0;
    while i < sizes.len()
        invariant
            i <= sizes@.len(),
            sizes@.len() <= u64::MAX,
            total as int == size_sum(sizes@.subrange(0, i as int)),
        decreases sizes@.len() - i,
    {
        proof {
            assert(sizes@.subrange(0, i + 1).drop_last() =~= sizes@.subrange(0, i as int));
        }
        let z = match sizes[i] {
            Some(z) => z,
            None => 0,
        };
        match total.checked_add(z) {
            Some(t) => {
                total = t;
            },
            None => {
                proof {
                    lemma_size_sum_prefix(sizes@, i + 1);
                }
                return ProgressMeasure::Entries { count: sizes.len() as u64 };
            },
        }
        i = i + 1;
    }
    proof {
        assert(sizes@.subrange(0, i as int) =~= sizes@);
    }
    if total > 0 {
        ProgressMeasure::Bytes { total }
    } else {
        ProgressMeasure::Entries { count: sizes.len() as u64 }
    }
}

/// An entry whose name ends in `/` is a directory.
pub fn entry_is_dir(name: &str) -> (r: bool)
    ensures
        r == ends_with(name@, "/"@),
{
    str_ends_with(name, "/")
}

/// Where an entry is written: its name joined to the destination folder.
pub fn entry_path(dest: &str, name: &str) -> (r: String)
    ensures
        r@ == join_of(dest@, name@),
{
    path_join(dest, name)
}

/// Index of the last `c` in `s`, or -1.
pub open spec fn last_index(s: Seq<char>, c: char) -> int
    decreases s.len(),
{
    if s.len() == 0 {
        -1
    } else if s.last() == c {
        s.len() - 1
    } else {
        last_index(s.drop_last(), c)
    }
}

/// The last component of a `/`-separated path.
pub open spec fn file_name_of(p: Seq<char>) -> Seq<char> {
    p.subrange(last_index(p, '/') + 1, p.len() as int)
}

/// A file name's extension: what follows its last `.`, where that `.` is not
/// its first char.
pub open spec fn extension_of(p: Seq<char>) -> Option<Seq<char>> {
    let f = file_name_of(p);
    let d = last_index(f, '.');
    if d <= 0 {
        None
    } else {
        Some(f.subrange(d + 1, f.len() as int))
    }
}

proof fn lemma_last_index_bounds(s: Seq<char>, c: char)
    ensures
        -1 <= last_index(s, c) < s.len(),
        last_index(s, c) >= 0 ==> s[last_index(s, c)] == c,
    decreases s.len(),
{
    if s.len() > 0 && s.last() != c {
        lemma_last_index_bounds(s.drop_last(), c);
    }
}

fn find_last_char(v: &Vec<char>, c: char) -> (r: Option<usize>)
    ensures
        match r {
            Some(i) => i as int == last_index(v@, c) && i < v@.len(),
            None => last_index(v@, c) == -1,
        },
{
    let mut n: usize = v.len();
    proof {
        assert(v@.subrange(0, n as int) =~= v@);
    }
    while n > 0
        invariant
            n <= v@.len(),
            last_index(v@, c) == last_index(v@.subrange(0, n as int), c),
        decreases n,
    {
        proof {
            assert(v@.subrange(0, n as int).drop_last() =~= v@.subrange(0, n - 1));
        }
        if v[n - 1] == c {
            return Some(n - 1);
        }
        n = n - 1;
    }
    None
}

/// Whether the path's extension is `iso`.
pub fn has_iso_extension(path: &str) -> (r: bool)
    ensures
        r == (extension_of(path@) == Some("iso"@)),
{
    proof {
        reveal_strlit("iso");
    }
    let v = chars_of(path);
    let len = v.len();
    let start = match find_last_char(&v, '/') {
        Some(i) => i + 1,
        None => 0,
    };
    proof {
        lemma_last_index_bounds(v@, '/');
    }
    let f = string_of_range(&v, start, len);
    let w = chars_of(f.as_str());
    match find_last_char(&w, '.') {
        Some(d) => {
            proof {
                lemma_last_index_bounds(w@, '.');
            }
            if d == 0 {
                return false;
            }
            let n = w.len();
            if n - d - 1 != 3 {
                proof {
                    assert(w@.subrange(d + 1, w@.len() as int).len() != "iso"@.len());
                }
                return false;
            }
            let same = w[d + 1] == 'i' && w[d + 2] == 's' && w[d + 3] == 'o';
            proof {
                if same {
                    assert(w@.subrange(d + 1, w@.len() as int) =~= "iso"@);
                } else {
                    assert(w@.subrange(d + 1, w@.len() as int) != "iso"@) by {
                        if w@.subrange(d + 1, w@.len() as int) == "iso"@ {
                            assert(w@.subrange(d + 1, w@.len() as int)[0] == w@[d + 1]);
                            assert(w@.subrange(d + 1, w@.len() as int)[1] == w@[d + 2]);
                            assert(w@.subrange(d + 1, w@.len() as int)[2] == w@[d + 3]);
                        }
                    }
                }
            }
            same
        },
        None => false,
    }
}

/// The first path, in the given order, whose extension is `iso`.
pub fn find_payload(paths: &Vec<String>) -> (r: Option<usize>)
    ensures
        match r {
            Some(i) => i < paths@.len() && extension_of(paths@[i as int]@) == Some("iso"@)
                && forall|k: int| 0 <= k < i ==> extension_of(#[trigger] paths@[k]@) != Some("iso"@),
            None => forall|k: int| 0 <= k < paths@.len() ==> extension_of(#[trigger] paths@[k]@) != Some("iso"@),
        },
{
    let mut i: usize = 0;
    while i < paths.len()
        invariant
            i <= paths@.len(),
            forall|k: int| 0 <= k < i ==> extension_of(#[trigger] paths@[k]@) != Some("iso"@),
        decreases paths@.len() - i,
    {
        if has_iso_extension(paths[i].as_str()) {
            return Some(i);
        }
        i = i + 1;
    }
    None
}

} // verus!
