//! Key resolution: the index of key packages, the key file inside a package,
//! and the normalisation of its content to a lowercase hex key.
use vstd::prelude::*;
use crate::config::Config;
use crate::listing::{listing_of, listing_rows, opt_view, percent_decode_utf8, percent_decoded, row_view, ListingRow};
use crate::pairs::{find_last, lookup, pairs_view};
use crate::text::{
    chars_of, ends_with, is_ws, push_str, replace_all, replace_str, str_ends_with, string_of,
    trim, trim_end_ws, trim_start_ws, trim_ws, utf8_string,
};

verus! {

pub open spec fn is_hex_digit(c: char) -> bool {
    ('0' <= c && c <= '9') || ('a' <= c && c <= 'f') || ('A' <= c && c <= 'F')
}

pub open spec fn ascii_lower(c: char) -> char {
    if 'A' <= c && c <= 'Z' {
        ((c as u32) + 32) as char
    } else {
        c
    }
}

pub open spec fn hex_char(n: int) -> char {
    if n < 10 {
        (('0' as int) + n) as char
    } else {
        (('a' as int) + n - 10) as char
    }
}

/// Two lowercase hex digits per byte, high nibble first.
pub open spec fn hex_of(b: Seq<u8>) -> Seq<char> {
    Seq::new(2 * b.len(), |i: int| if i % 2 == 0 { hex_char(b[i / 2] as int / 16) } else { hex_char(b[i / 2] as int % 16) })
}

/// The key that a key file's content gives: its text, trimmed, where that is
/// exactly 32 hex digits (lowercased); else the content as hex where it is
/// exactly 16 bytes; else none.
pub open spec fn key_from_content(b: Seq<u8>) -> Option<Seq<char>> {
    let t = trim_ws(vstd::utf8::decode_utf8(b));
    if vstd::utf8::valid_utf8(b) && t.len() == 32 && (forall|i: int| 0 <= i < t.len() ==> is_hex_digit(#[trigger] t[i])) {
        Some(t.map_values(|c: char| ascii_lower(c)))
    } else if b.len() == 16 {
        Some(hex_of(b))
    } else {
        None
    }
}

fn hex_digit(n: u8) -> (r: char)
    requires
        n < 16,
    ensures
        r == hex_char(n as int),
{
    if n < 10 {
        ((n as u32) + ('0' as u32)) as u8 as char
    } else {
        ((n as u32) - 10 + ('a' as u32)) as u8 as char
    }
}

pub fn hex_encode(b: &[u8]) -> (r: String)
    requires
        b@.len() <= usize::MAX / 2,
    ensures
        r@ == hex_of(b@),
{
    let mut v: Vec<char> = Vec::new();
    let mut i: usize = 0;
    while i < b.len()
        invariant
            i <= b@.len(),
            v@ =~= hex_of(b@).subrange(0, 2 * i as int),
            b@.len() <= usize::MAX / 2,
        decreases b@.len() - i,
    {
        let x = b[i];
        v.push(hex_digit(x / 16));
        v.push(hex_digit(x % 16));
        proof {
            assert(v@ =~= hex_of(b@).subrange(0, 2 * (i + 1) as int));
        }
        i = i + 1;
    }
    string_of(&v)
}

/// The key of a key file's content, as `key_from_content` states it.
pub fn normalize_key(content: &[u8]) -> (r: Option<String>)
    ensures
        match r {
            Some(k) => key_from_content(content@) == Some(k@),
            None => key_from_content(content@) is None,
        },
{
    let mut copy: Vec<u8> = Vec::new();
    let mut j: usize = 0;
    while j < content.len()
        invariant
            j <= content@.len(),
            copy@ == content@.subrange(0, j as int),
        decreases content@.len() - j,
    {
        copy.push(content[j]);
        j = j + 1;
    }
    proof {
        assert(copy@ =~= content@);
    }
    match utf8_string(copy) {
        Some(text) => {
            let t = trim(text.as_str());
            let v = chars_of(t.as_str());
            if v.len() == 32 {
                let mut all_hex = true;
                let mut out: Vec<char> = Vec::new();
                let mut i: usize = 0;
                while i < v.len()
                    invariant
                        v@ == t@,
                        i <= v@.len(),
                        all_hex <==> (forall|k: int| 0 <= k < i ==> is_hex_digit(#[trigger] v@[k])),
                        out@ =~= v@.subrange(0, i as int).map_values(|c: char| ascii_lower(c)),
                    decreases v@.len() - i,
                {
                    let c = v[i];
                    if !(('0' <= c && c <= '9') || ('a' <= c && c <= 'f') || ('A' <= c && c <= 'F')) {
                        all_hex = false;
                    }
                    if 'A' <= c && c <= 'Z' {
                        out.push(((c as u32) + 32) as u8 as char);
                    } else {
                        out.push(c);
                    }
                    proof {
                        assert(v@.subrange(0, i + 1).map_values(|c: char| ascii_lower(c))
                            =~= v@.subrange(0, i as int).map_values(|c: char| ascii_lower(c)).push(ascii_lower(c)));
                    }
                    i = i + 1;
                }
                if all_hex {
                    proof {
                        assert(v@.subrange(0, 32) =~= v@);
                    }
                    return Some(string_of(&out));
                }
            }
        },
        None => {},
    }
    if content.len() == 16 {
        Some(hex_encode(content))
    } else {
        None
    }
}

/// Names of the entries of a zip archive: `None` where the archive cannot be
/// opened, else one item per entry, `None` for an entry that cannot be read.
pub uninterp spec fn zip_names_of(data: Seq<u8>) -> Option<Seq<Option<Seq<char>>>>;

pub open spec fn names_view(v: Seq<Option<String>>) -> Seq<Option<Seq<char>>> {
    v.map_values(|o: Option<String>| match o {
        Some(s) => Some(s@),
        None => None,
    })
}

/// Relies on `zip::ZipArchive::new`, `ZipArchive::len`, `ZipArchive::by_index`
/// and `ZipFile::name`: the archive read from these bytes and each entry's name,
/// which depend on the bytes alone.
#[verifier::external_body]
fn zip_entry_names(data: &[u8]) -> (r: Option<Vec<Option<String>>>)
    ensures
        match r {
            Some(v) => zip_names_of(data@) == Some(names_view(v@)),
            None => zip_names_of(data@) is None,
        },
{
    let mut archive = zip::ZipArchive::new(std::io::Cursor::new(data)).ok()?;
    let n = archive.len();
    Some((0..n).map(|i| archive.by_index(i).ok().map(|f| f.name().to_string())).collect())
}

/// The uncompressed content of entry `index` of a zip archive, `None` where it
/// cannot be read.
pub uninterp spec fn zip_entry_of(data: Seq<u8>, index: int) -> Option<Seq<u8>>;

/// Relies on `zip::ZipArchive::new`, `ZipArchive::by_index` and
/// `Read::read_to_end` on the entry: its content, which depends on the bytes alone.
#[verifier::external_body]
fn zip_entry_bytes(data: &[u8], index: usize) -> (r: Option<Vec<u8>>)
    ensures
        match r {
            Some(v) => zip_entry_of(data@, index as int) == Some(v@),
            None => zip_entry_of(data@, index as int) is None,
        },
{
    let mut archive = zip::ZipArchive::new(std::io::Cursor::new(data)).ok()?;
    let mut file = archive.by_index(index).ok()?;
    let mut buf = Vec::new();
    std::io::Read::read_to_end(&mut file, &mut buf).ok()?;
    Some(buf)
}

} // verus!

verus! {

#[derive(PartialEq, Eq, Structural, Clone, Copy, Debug)]
pub enum KeyError {
    /// The index holds no package for the target.
    NotFound,
    /// The package is no readable archive, has no key file, or the key file's
    /// content is no key.
    FormatInvalid,
}

/// Index of the first readable entry whose name ends in `.key`, at or after `i`, or -1.
pub open spec fn first_key_entry(names: Seq<Option<Seq<char>>>, i: int) -> int
    decreases names.len() - i,
{
    if i < 0 || i >= names.len() {
        -1
    } else if names[i] matches Some(n) && ends_with(n, ".key"@) {
        i
    } else {
        first_key_entry(names, i + 1)
    }
}

/// The key held by a key package: the normalised content of its first `.key` entry.
pub open spec fn key_from_package_of(data: Seq<u8>) -> Result<Seq<char>, KeyError> {
    match zip_names_of(data) {
        None => Err(KeyError::FormatInvalid),
        Some(names) => {
            let i = first_key_entry(names, 0);
            if i < 0 {
                Err(KeyError::FormatInvalid)
            } else {
                match zip_entry_of(data, i) {
                    None => Err(KeyError::FormatInvalid),
                    Some(b) => match key_from_content(b) {
                        Some(k) => Ok(k),
                        None => Err(KeyError::FormatInvalid),
                    },
                }
            }
        },
    }
}

/// Reads the key out of a downloaded key package.
pub fn key_from_package(data: &[u8]) -> (r: Result<String, KeyError>)
    ensures
        match r {
            Ok(k) => key_from_package_of(data@) == Ok::<Seq<char>, KeyError>(k@),
            Err(e) => key_from_package_of(data@) == Err::<Seq<char>, KeyError>(e),
        },
{
    let names = match zip_entry_names(data) {
        Some(n) => n,
        None => return Err(KeyError::FormatInvalid),
    };
    let ghost nv = names_view(names@);
    let mut i: usize = 0;
    while i < names.len()
        invariant
            nv == names_view(names@),
            zip_names_of(data@) == Some(nv),
            i <= names@.len(),
            first_key_entry(nv, 0) == first_key_entry(nv, i as int),
        decreases names@.len() - i,
    {
        let is_key = match &names[i] {
            Some(n) => str_ends_with(n.as_str(), ".key"),
            None => false,
        };
        if is_key {
            proof {
                assert(first_key_entry(nv, i as int) == i);
            }
            return match zip_entry_bytes(data, i) {
                None => Err(KeyError::FormatInvalid),
                Some(b) => match normalize_key(b.as_slice()) {
                    Some(k) => Ok(k),
                    None => Err(KeyError::FormatInvalid),
                },
            };
        }
        i = i + 1;
    }
    Err(KeyError::FormatInvalid)
}

/// A listing link, decoded from percent-encoding where that gives valid UTF-8,
/// else as it stands.
pub open spec fn decoded_href_of(h: Seq<char>) -> Seq<char> {
    let d = percent_decoded(vstd::utf8::encode_utf8(h));
    if vstd::utf8::valid_utf8(d) {
        vstd::utf8::decode_utf8(d)
    } else {
        h
    }
}

/// The index pairs (target id, package location) of the listing's rows: rows
/// whose trimmed link text ends in `.zip` and has a link target, the id being
/// that text with `.zip` removed.
pub open spec fn index_pairs_of(rows: Seq<(Option<Seq<char>>, Option<Seq<char>>, Option<Seq<char>>)>) -> Seq<(Seq<char>, Seq<char>)>
    decreases rows.len(),
{
    if rows.len() == 0 {
        Seq::empty()
    } else {
        let earlier = index_pairs_of(rows.drop_last());
        let r = rows.last();
        match (r.0, r.1) {
            (Some(title), Some(href)) => {
                let t = trim_ws(title);
                if t.len() > 0 && ends_with(t, ".zip"@) {
                    earlier.push((replace_all(t, ".zip"@, ""@), decoded_href_of(href)))
                } else {
                    earlier
                }
            },
            _ => earlier,
        }
    }
}

/// The index of key packages: target id to the package's location relative to
/// the keys' base URL. A later pair replaces an earlier one with the same id.
#[derive(Clone, Debug)]
pub struct KeyIndex {
    pub entries: Vec<(String, String)>,
}

impl KeyIndex {
    pub open spec fn pairs(&self) -> Seq<(Seq<char>, Seq<char>)> {
        pairs_view(self.entries@)
    }

    pub open spec fn location_of(&self, id: Seq<char>) -> Option<Seq<char>> {
        lookup(self.pairs(), id)
    }

    /// Builds the index from the rows of the keys' listing page.
    pub fn from_listing(rows: &Vec<ListingRow>) -> (r: KeyIndex)
        ensures
            r.pairs() == index_pairs_of(rows@.map_values(|x: ListingRow| row_view(x))),
    {
        let ghost rv = rows@.map_values(|x: ListingRow| row_view(x));
        let mut entries: Vec<(String, String)> = Vec::new();
        let mut i: usize = 0;
        while i < rows.len()
            invariant
                rv == rows@.map_values(|x: ListingRow| row_view(x)),
                i <= rows@.len(),
                pairs_view(entries@) == index_pairs_of(rv.subrange(0, i as int)),
            decreases rows@.len() - i,
        {
            proof {
                assert(rv.subrange(0, i + 1).drop_last() =~= rv.subrange(0, i as int));
                assert(rv.subrange(0, i + 1).last() == row_view(rows@[i as int]));
            }
            let row = &rows[i];
            match (&row.title, &row.href) {
                (Some(title), Some(href)) => {
                    let t = trim(title.as_str());
                    if !t.as_str().is_empty() && str_ends_with(t.as_str(), ".zip") {
                        proof {
                            reveal_strlit(".zip");
                        }
                        let id = replace_str(t.as_str(), ".zip", "");
                        let loc = match percent_decode_utf8(href.as_str()) {
                            Some(d) => d,
                            None => href.clone(),
                        };
                        entries.push((id, loc));
                        proof {
                            assert(pairs_view(entries@) =~= index_pairs_of(rv.subrange(0, i + 1)));
                        }
                    }
                },
                _ => {},
            }
            i = i + 1;
        }
        proof {
            assert(rv.subrange(0, rows@.len() as int) =~= rv);
        }
        KeyIndex { entries }
    }

    /// Builds the index from the keys' listing page.
    pub fn from_page(html: &str) -> (r: KeyIndex)
        ensures
            r.pairs() == index_pairs_of(listing_of(html@)),
    {
        let rows = listing_rows(html);
        KeyIndex::from_listing(&rows)
    }

    /// The package location recorded for `id`.
    pub fn location(&self, id: &str) -> (r: Option<String>)
        ensures
            opt_view(r) == self.location_of(id@),
    {
        match find_last(&self.entries, id) {
            Some(i) => Some(self.entries[i].1.clone()),
            None => None,
        }
    }
}

} // verus!

verus! {

proof fn lemma_decode_len(b: Seq<u8>)
    requires
        vstd::utf8::valid_utf8(b),
    ensures
        vstd::utf8::decode_utf8(b).len() <= b.len(),
    decreases b.len(),
{
    if b.len() > 0 {
        let n = vstd::utf8::length_of_first_scalar(b);
        assert(n <= b.len() as int);
        let rest = vstd::utf8::pop_first_scalar(b);
        assert(rest.len() == b.len() - n);
        lemma_decode_len(rest);
    }
}

proof fn lemma_trim_start_len(s: Seq<char>)
    ensures
        trim_start_ws(s).len() <= s.len(),
    decreases s.len(),
{
    if s.len() > 0 && is_ws(s[0]) {
        lemma_trim_start_len(s.drop_first());
    }
}

proof fn lemma_trim_end_len(s: Seq<char>)
    ensures
        trim_end_ws(s).len() <= s.len(),
    decreases s.len(),
{
    if s.len() > 0 && is_ws(s.last()) {
        lemma_trim_end_len(s.drop_last());
    }
}

/// Key normalisation: the UTF-8 text of 32 hex digits gives those digits
/// lowercased; any 16 bytes give their hex encoding; content of any other
/// length that is not such a text (after trimming) gives no key.
pub proof fn lemma_key_normalization(t: Seq<char>, b: Seq<u8>)
    requires
        t.len() == 32,
        forall|i: int| 0 <= i < t.len() ==> is_hex_digit(#[trigger] t[i]),
    ensures
        key_from_content(vstd::utf8::encode_utf8(t)) == Some(t.map_values(|c: char| ascii_lower(c))),
        b.len() == 16 ==> key_from_content(b) == Some(hex_of(b)),
        (b.len() != 16 && !(vstd::utf8::valid_utf8(b) && {
            let x = trim_ws(vstd::utf8::decode_utf8(b));
            x.len() == 32 && forall|i: int| 0 <= i < x.len() ==> is_hex_digit(#[trigger] x[i])
        })) ==> key_from_content(b) is None,
{
    broadcast use vstd::utf8::encode_utf8_valid_utf8, vstd::utf8::encode_utf8_decode_utf8;
    assert(!is_ws(t[0]));
    assert(trim_start_ws(t) == t);
    assert(!is_ws(t.last()));
    assert(trim_end_ws(t) == t);
    if b.len() == 16 && vstd::utf8::valid_utf8(b) {
        let d = vstd::utf8::decode_utf8(b);
        lemma_decode_len(b);
        lemma_trim_start_len(d);
        lemma_trim_end_len(trim_start_ws(d));
    }
}

/// Resolves targets' keys against the configured key location.
#[derive(Clone, Debug)]
pub struct KeyManager {
    config: Config,
}

impl KeyManager {
    pub fn new(config: &Config) -> (r: KeyManager)
        ensures
            r.base_url() == config.ps3_keys_url@,
    {
        KeyManager { config: config.duplicate() }
    }

    pub closed spec fn base_url(&self) -> Seq<char> {
        self.config.ps3_keys_url@
    }

    /// The URL of the key package for target `id`: the keys' base URL followed
    /// by the location the index records; `NotFound` where it records none.
    pub fn package_url(&self, index: &KeyIndex, id: &str) -> (r: Result<String, KeyError>)
        ensures
            match index.location_of(id@) {
                Some(loc) => r matches Ok(u) && u@ == self.base_url() + loc,
                None => r == Err::<String, KeyError>(KeyError::NotFound),
            },
    {
        match index.location(id) {
            Some(loc) => {
                let mut v = chars_of(self.config.ps3_keys_url.as_str());
                push_str(&mut v, loc.as_str());
                Ok(string_of(&v))
            },
            None => Err(KeyError::NotFound),
        }
    }
}

} // verus!
