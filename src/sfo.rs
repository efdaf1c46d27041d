//! Parser for the PARAM.SFO descriptor block: a `\0PSF` magic, a header of
//! little-endian offsets and a count, then fixed-size index entries that pair
//! a NUL-terminated key with a typed value.
use vstd::prelude::*;
use crate::pairs::{find_last, lookup, pairs_view};
use crate::text::{
    chars_of, copy_range, is_ascii_alnum, is_ascii_alphanumeric, lossy_of, push_str, string_of,
    trim_nul_end, trim_trailing_nuls, utf8_lossy, utf8_string,
};

verus! {

/// Type code of a UTF-8 string value.
pub const UTF8_STRING_FORMAT: u64 = 516;

pub open spec fn le16(d: Seq<u8>, at: int) -> int {
    d[at] as int + 256 * d[at + 1] as int
}

pub open spec fn le32(d: Seq<u8>, at: int) -> int {
    d[at] as int + 256 * d[at + 1] as int + 65536 * d[at + 2] as int + 16777216 * d[at + 3] as int
}

pub open spec fn header_ok(d: Seq<u8>) -> bool {
    d.len() >= 20 && d[0] == 0 && d[1] == 0x50 && d[2] == 0x53 && d[3] == 0x46
}

pub open spec fn key_table(d: Seq<u8>) -> int {
    le32(d, 8)
}

pub open spec fn data_table(d: Seq<u8>) -> int {
    le32(d, 12)
}

pub open spec fn entry_count(d: Seq<u8>) -> int {
    le32(d, 16)
}

/// Where the index entry `i` starts.
pub open spec fn entry_at(i: int) -> int {
    20 + 16 * i
}

pub open spec fn key_start(d: Seq<u8>, i: int) -> int {
    key_table(d) + le16(d, entry_at(i))
}

pub open spec fn value_format(d: Seq<u8>, i: int) -> int {
    le16(d, entry_at(i) + 2)
}

pub open spec fn value_len(d: Seq<u8>, i: int) -> int {
    le32(d, entry_at(i) + 4)
}

pub open spec fn value_start(d: Seq<u8>, i: int) -> int {
    data_table(d) + le32(d, entry_at(i) + 12)
}

/// Entry `i` lies inside the buffer: its index record, the start of its key and
/// all of its value.
pub open spec fn entry_in_bounds(d: Seq<u8>, i: int) -> bool {
    &&& entry_at(i) + 16 <= d.len()
    &&& key_start(d, i) <= d.len()
    &&& value_start(d, i) + value_len(d, i) <= d.len()
}

/// Index of the first NUL at or after `from`, or -1 where there is none.
pub open spec fn nul_from(d: Seq<u8>, from: int) -> int
    decreases d.len() - from,
{
    if from < 0 || from >= d.len() {
        -1
    } else if d[from] == 0 {
        from
    } else {
        nul_from(d, from + 1)
    }
}

/// The key's bytes: up to the first NUL, and empty where no NUL follows.
pub open spec fn key_bytes(d: Seq<u8>, i: int) -> Seq<u8> {
    let s = key_start(d, i);
    let e = nul_from(d, s);
    if e < 0 {
        Seq::empty()
    } else {
        d.subrange(s, e)
    }
}

pub open spec fn value_bytes(d: Seq<u8>, i: int) -> Seq<u8> {
    d.subrange(value_start(d, i), value_start(d, i) + value_len(d, i))
}

/// The entry yields a pair: a string-typed value holding valid UTF-8.
pub open spec fn entry_kept(d: Seq<u8>, i: int) -> bool {
    value_format(d, i) == UTF8_STRING_FORMAT && vstd::utf8::valid_utf8(value_bytes(d, i))
}

pub open spec fn entry_pair(d: Seq<u8>, i: int) -> (Seq<char>, Seq<char>) {
    (lossy_of(key_bytes(d, i)), trim_nul_end(vstd::utf8::decode_utf8(value_bytes(d, i))))
}

/// The pairs of the first `n` entries, in order.
pub open spec fn pairs_upto(d: Seq<u8>, n: int) -> Seq<(Seq<char>, Seq<char>)>
    decreases n,
{
    if n <= 0 {
        Seq::empty()
    } else if entry_kept(d, n - 1) {
        pairs_upto(d, n - 1).push(entry_pair(d, n - 1))
    } else {
        pairs_upto(d, n - 1)
    }
}

/// The buffer is a descriptor block that can be read whole.
pub open spec fn block_ok(d: Seq<u8>) -> bool {
    header_ok(d) && forall|i: int| 0 <= i < entry_count(d) ==> #[trigger] entry_in_bounds(d, i)
}

/// The string-typed entries of a descriptor block, in the order of its index.
pub struct Sfo {
    pub entries: Vec<(String, String)>,
}

impl Sfo {
    pub open spec fn pairs(&self) -> Seq<(Seq<char>, Seq<char>)> {
        pairs_view(self.entries@)
    }

    /// The value stored under `key`, the last one where several entries share it.
    pub open spec fn value_of(&self, key: Seq<char>) -> Option<Seq<char>> {
        lookup(self.pairs(), key)
    }
}

fn read_le16(d: &[u8], at: u64) -> (r: u64)
    requires
        at + 2 <= d@.len(),
    ensures
        r as int == le16(d@, at as int),
        r < 65536,
{
    let a = at as usize;
    (d[a] as u64) + 256 * (d[a + 1] as u64)
}

fn read_le32(d: &[u8], at: u64) -> (r: u64)
    requires
        at + 4 <= d@.len(),
    ensures
        r as int == le32(d@, at as int),
        r < 0x1_0000_0000,
{
    let a = at as usize;
    (d[a] as u64) + 256 * (d[a + 1] as u64) + 65536 * (d[a + 2] as u64) + 16777216 * (d[a + 3] as u64)
}

/// Position of the first NUL at or after `from`, or `None`.
fn find_nul(d: &[u8], from: usize) -> (r: Option<usize>)
    requires
        from <= d@.len(),
    ensures
        r matches Some(p) ==> p as int == nul_from(d@, from as int) && from <= p < d@.len(),
        r is None ==> nul_from(d@, from as int) == -1,
{
    let mut j: usize = from;
    while j < d.len()
        invariant
            from <= j <= d@.len(),
            nul_from(d@, from as int) == nul_from(d@, j as int),
        decreases d@.len() - j,
    {
        if d[j] == 0 {
            return Some(j);
        }
        j = j + 1;
    }
    None
}

} // verus!

verus! {

impl Sfo {
    /// Reads a descriptor block. `None` where the magic is missing or any index
    /// entry, key start or value lies outside the buffer; otherwise the pairs of
    /// the string-typed entries whose value is valid UTF-8, each value without
    /// its trailing NULs.
    pub fn from_bytes(data: &[u8]) -> (r: Option<Sfo>)
        ensures
            r is Some <==> block_ok(data@),
            r matches Some(s) ==> s.pairs() == pairs_upto(data@, entry_count(data@)),
    {
        if data.len() < 20 || data[0] != 0 || data[1] != 0x50 || data[2] != 0x53 || data[3] != 0x46 {
            return None;
        }
        let n: usize = data.len();
        let len = n as u64;
        let key_table_start = read_le32(data, 8);
        let data_table_start = read_le32(data, 12);
        let count = read_le32(data, 16);
        let mut entries: Vec<(String, String)> = Vec::new();
        let mut i: u64 = 0;
        while i < count
            invariant
                header_ok(data@),
                n == data@.len(),
                len == n as u64,
                key_table_start == key_table(data@),
                data_table_start == data_table(data@),
                count == entry_count(data@),
                i <= count,
                forall|k: int| 0 <= k < i ==> #[trigger] entry_in_bounds(data@, k),
                pairs_view(entries@) == pairs_upto(data@, i as int),
            decreases count - i,
        {
            let offset = 20 + 16 * i;
            if offset + 16 > len {
                proof {
                    assert(!entry_in_bounds(data@, i as int));
                }
                return None;
            }
            let key_offset = read_le16(data, offset);
            let data_fmt = read_le16(data, offset + 2);
            let data_len = read_le32(data, offset + 4);
            let data_offset = read_le32(data, offset + 12);
            let ks = key_table_start + key_offset;
            let vs = data_table_start + data_offset;
            if ks > len || vs + data_len > len {
                proof {
                    assert(!entry_in_bounds(data@, i as int));
                }
                return None;
            }
            let ks_at = ks as usize;
            let vs_at = vs as usize;
            let ve_at = (vs + data_len) as usize;
            let key_end = match find_nul(data, ks_at) {
                Some(p) => p,
                None => ks_at,
            };
            let key_raw = copy_range(data, ks_at, key_end);
            let key = utf8_lossy(key_raw.as_slice());
            let value_raw = copy_range(data, vs_at, ve_at);
            if data_fmt == UTF8_STRING_FORMAT {
                match utf8_string(value_raw) {
                    Some(val) => {
                        let v = trim_trailing_nuls(&val);
                        entries.push((key, v));
                    },
                    None => {},
                }
            }
            proof {
                assert(entry_in_bounds(data@, i as int));
                assert(key_raw@ =~= key_bytes(data@, i as int));
                assert(value_raw@ == value_bytes(data@, i as int));
                assert(pairs_view(entries@) =~= pairs_upto(data@, i + 1));
            }
            i = i + 1;
        }
        Some(Sfo { entries })
    }

    /// The value stored under `key`.
    pub fn get(&self, key: &str) -> (r: Option<&String>)
        ensures
            match r {
                Some(v) => self.value_of(key@) == Some(v@),
                None => self.value_of(key@) is None,
            },
    {
        match find_last(&self.entries, key) {
            Some(i) => Some(&self.entries[i].1),
            None => None,
        }
    }
}

} // verus!

verus! {

/// `s` with every char that is not an ASCII letter or digit replaced by `_`.
pub open spec fn sanitized(s: Seq<char>) -> Seq<char> {
    s.map_values(|c: char| if is_ascii_alnum(c) { c } else { '_' })
}

/// `{identifier}-{sanitized display name}.iso`, from the `TITLE_ID` and `TITLE`
/// entries; `None` where the block cannot be read or either entry is missing.
pub open spec fn descriptor_name_of(d: Seq<u8>) -> Option<Seq<char>> {
    if !block_ok(d) {
        None
    } else {
        let pairs = pairs_upto(d, entry_count(d));
        match (lookup(pairs, "TITLE_ID"@), lookup(pairs, "TITLE"@)) {
            (Some(id), Some(title)) => Some(id + "-"@ + sanitized(title) + ".iso"@),
            _ => None,
        }
    }
}

pub fn sanitize_title(s: &str) -> (r: String)
    ensures
        r@ == sanitized(s@),
{
    let v = chars_of(s);
    let mut out: Vec<char> = Vec::new();
    let mut i: usize = 0;
    while i < v.len()
        invariant
            i <= v@.len(),
            v@ == s@,
            out@ == sanitized(s@).subrange(0, i as int),
        decreases v@.len() - i,
    {
        let c = v[i];
        if is_ascii_alphanumeric(c) {
            out.push(c);
        } else {
            out.push('_');
        }
        proof {
            assert(out@ =~= sanitized(s@).subrange(0, i + 1));
        }
        i = i + 1;
    }
    proof {
        assert(out@ =~= sanitized(s@));
    }
    string_of(&out)
}

/// The file name that the descriptor block `block` gives, if it gives one.
pub fn descriptor_file_name(block: &[u8]) -> (r: Option<String>)
    ensures
        match r {
            Some(n) => descriptor_name_of(block@) == Some(n@),
            None => descriptor_name_of(block@) is None,
        },
{
    let sfo = match Sfo::from_bytes(block) {
        Some(s) => s,
        None => return None,
    };
    let id = match sfo.get("TITLE_ID") {
        Some(v) => v,
        None => return None,
    };
    let title = match sfo.get("TITLE") {
        Some(v) => v,
        None => return None,
    };
    let mut out: Vec<char> = Vec::new();
    push_str(&mut out, id.as_str());
    push_str(&mut out, "-");
    let safe = sanitize_title(title.as_str());
    push_str(&mut out, safe.as_str());
    push_str(&mut out, ".iso");
    Some(string_of(&out))
}

/// The name the payload ends up with: the descriptor's name where `block` was
/// obtained and yields one, else `current` unchanged.
pub fn renamed_file_name(block: Option<&[u8]>, current: &str) -> (r: String)
    ensures
        r@ == match block {
            Some(b) => match descriptor_name_of(b@) {
                Some(n) => n,
                None => current@,
            },
            None => current@,
        },
{
    match block {
        Some(b) => match descriptor_file_name(b) {
            Some(n) => n,
            None => current.to_owned(),
        },
        None => current.to_owned(),
    }
}

/// A payload whose descriptor block is missing or malformed keeps its name.
pub proof fn lemma_descriptor_fallback(block: Option<Seq<u8>>, current: Seq<char>)
    requires
        block matches Some(b) ==> !block_ok(b),
    ensures
        (match block {
            Some(b) => match descriptor_name_of(b) {
                Some(n) => n,
                None => current,
            },
            None => current,
        }) == current,
{
}

} // verus!

verus! {

/// Arguments of the archive tool that extracts the descriptor block of an image
/// into `out_dir`: `e <image> PS3_GAME/PARAM.SFO -o<out_dir> -y`.
pub fn descriptor_tool_args(image: &str, out_dir: &str) -> (r: Vec<String>)
    ensures
        r@.len() == 5,
        r@[0]@ == "e"@,
        r@[1]@ == image@,
        r@[2]@ == "PS3_GAME/PARAM.SFO"@,
        r@[3]@ == "-o"@ + out_dir@,
        r@[4]@ == "-y"@,
{
    let mut o: Vec<char> = Vec::new();
    push_str(&mut o, "-o");
    push_str(&mut o, out_dir);
    let mut v: Vec<String> = Vec::new();
    v.push("e".to_owned());
    v.push(image.to_owned());
    v.push("PS3_GAME/PARAM.SFO".to_owned());
    v.push(string_of(&o));
    v.push("-y".to_owned());
    proof {
        assert(o@ =~= "-o"@ + out_dir@);
    }
    v
}

} // verus!
