//! Rows of a remote directory-listing page, and the percent-decoding of links.
use vstd::prelude::*;
use vstd::string::StringSliceAdditionalSpecFns;

verus! {

/// One table row of a listing page: the text and `href` of its link cell, and
/// the text of its size cell.
#[derive(Clone, Debug)]
pub struct ListingRow {
    /// `None` where the row has no link cell.
    pub title: Option<String>,
    pub href: Option<String>,
    pub size: Option<String>,
}

pub open spec fn opt_view(o: Option<String>) -> Option<Seq<char>> {
    match o {
        Some(s) => Some(s@),
        None => None,
    }
}

pub open spec fn row_view(r: ListingRow) -> (Option<Seq<char>>, Option<Seq<char>>, Option<Seq<char>>) {
    (opt_view(r.title), opt_view(r.href), opt_view(r.size))
}

/// The rows (`tbody tr`) of an HTML listing page: for each, the text and `href`
/// of the first `td.link a`, and the text of the first `td.size`.
pub uninterp spec fn listing_of(html: Seq<char>) -> Seq<(Option<Seq<char>>, Option<Seq<char>>, Option<Seq<char>>)>;

/// Relies on `scraper::Html::parse_document`, `Selector::parse` and the
/// selection, attribute and text accessors of `scraper`: the rows of the parsed
/// page, which depend on the page text alone.
#[verifier::external_body]
pub(crate) fn listing_rows(html: &str) -> (r: Vec<ListingRow>)
    ensures
        r@.map_values(|x: ListingRow| row_view(x)) == listing_of(html@),
{
    let doc = scraper::Html::parse_document(html);
    let sel = |s| scraper::Selector::parse(s).ok();
    let (Some(rows), Some(link), Some(size)) = (sel("tbody tr"), sel("td.link a"), sel("td.size")) else {
        return Vec::new();
    };
    doc.select(&rows).map(|row| {
        let a = row.select(&link).next();
        ListingRow {
            title: a.map(|e| e.text().collect()),
            href: a.and_then(|e| e.value().attr("href")).map(String::from),
            size: row.select(&size).next().map(|e| e.text().collect()),
        }
    }).collect()
}

/// Value of a hex digit byte, or -1.
pub open spec fn hex_value(b: u8) -> int {
    if 0x30 <= b <= 0x39 {
        b as int - 0x30
    } else if 0x61 <= b <= 0x66 {
        b as int - 0x61 + 10
    } else if 0x41 <= b <= 0x46 {
        b as int - 0x41 + 10
    } else {
        -1
    }
}

/// Each `%` followed by two hex digits becomes the byte they denote; every
/// other byte stays.
pub open spec fn percent_decoded(b: Seq<u8>) -> Seq<u8>
    decreases b.len(),
{
    if b.len() == 0 {
        Seq::empty()
    } else if b[0] == 0x25 && b.len() >= 3 && hex_value(b[1]) >= 0 && hex_value(b[2]) >= 0 {
        seq![(16 * hex_value(b[1]) + hex_value(b[2])) as u8] + percent_decoded(b.subrange(3, b.len() as int))
    } else {
        seq![b[0]] + percent_decoded(b.drop_first())
    }
}

/// Relies on `percent_encoding::percent_decode_str` and `PercentDecode::decode_utf8`:
/// the decoded bytes, where they are valid UTF-8.
#[verifier::external_body]
pub(crate) fn percent_decode_utf8(s: &str) -> (r: Option<String>)
    ensures
        r is Some <==> vstd::utf8::valid_utf8(percent_decoded(s.spec_bytes())),
        r matches Some(d) ==> d@ == vstd::utf8::decode_utf8(percent_decoded(s.spec_bytes())),
{
    percent_encoding::percent_decode_str(s).decode_utf8().ok().map(|c| c.into_owned())
}

} // verus!
