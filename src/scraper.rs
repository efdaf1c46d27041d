//! The title list: games read from the listing page's rows, their regions, and
//! the search over them.
use vstd::prelude::*;
use crate::config::Config;
use crate::listing::{listing_of, listing_rows, opt_view, row_view, ListingRow};
use crate::models::Game;
use crate::text::{
    contains, ends_with, lower_of, lowercase, split_whitespace, str_contains, str_ends_with,
    strings_view, trim, trim_ws, words,
};

verus! {

/// The first of the known regions, in the order USA, Europe, Japan, Asia,
/// Australia, PAL, NTSC, that occurs in the title.
pub open spec fn region_of(title: Seq<char>) -> Option<Seq<char>> {
    if contains(title, "USA"@) {
        Some("USA"@)
    } else if contains(title, "Europe"@) {
        Some("Europe"@)
    } else if contains(title, "Japan"@) {
        Some("Japan"@)
    } else if contains(title, "Asia"@) {
        Some("Asia"@)
    } else if contains(title, "Australia"@) {
        Some("Australia"@)
    } else if contains(title, "PAL"@) {
        Some("PAL"@)
    } else if contains(title, "NTSC"@) {
        Some("NTSC"@)
    } else {
        None
    }
}

/// The fields of a listed game: title, link, size, region.
pub open spec fn game_entry(g: Game) -> (Seq<char>, Seq<char>, Seq<char>, Option<Seq<char>>) {
    (g.title@, g.link@, g.size@, opt_view(g.region))
}

/// The games of the listing's rows: rows with a link whose trimmed text ends in
/// `.zip`, with the size cell's trimmed text (or `Unknown size`) and the region
/// named in the title.
pub open spec fn listing_entries(rows: Seq<(Option<Seq<char>>, Option<Seq<char>>, Option<Seq<char>>)>) -> Seq<(Seq<char>, Seq<char>, Seq<char>, Option<Seq<char>>)>
    decreases rows.len(),
{
    if rows.len() == 0 {
        Seq::empty()
    } else {
        let earlier = listing_entries(rows.drop_last());
        let r = rows.last();
        match (r.0, r.1) {
            (Some(title), Some(href)) => {
                let t = trim_ws(title);
                if t.len() > 0 && ends_with(t, ".zip"@) {
                    let size = match r.2 {
                        Some(z) => trim_ws(z),
                        None => "Unknown size"@,
                    };
                    earlier.push((t, href, size, region_of(t)))
                } else {
                    earlier
                }
            },
            _ => earlier,
        }
    }
}

/// Every word occurs in the title.
pub open spec fn matches_words(title: Seq<char>, ws: Seq<Seq<char>>) -> bool {
    forall|i: int| 0 <= i < ws.len() ==> contains(title, #[trigger] ws[i])
}

/// The first `n` games whose search title holds every word, in order.
pub open spec fn filtered(games: Seq<Game>, ws: Seq<Seq<char>>, n: int) -> Seq<Game>
    decreases n,
{
    if n <= 0 {
        Seq::empty()
    } else if matches_words(games[n - 1].lowercased_title@, ws) {
        filtered(games, ws, n - 1).push(games[n - 1])
    } else {
        filtered(games, ws, n - 1)
    }
}

/// The games whose search title contains every whitespace-separated word of the
/// lowercased query, in their order.
pub fn filter_games<'a>(games: &'a Vec<Game>, search: &str) -> (r: Vec<&'a Game>)
    ensures
        r@.map_values(|g: &Game| *g) == filtered(games@, words(lower_of(search@)), games@.len() as int),
{
    let lower = lowercase(search);
    let ws = split_whitespace(lower.as_str());
    let ghost wv = words(lower_of(search@));
    let mut out: Vec<&'a Game> = Vec::new();
    let mut i: usize = 0;
    proof {
        assert(out@.map_values(|g: &Game| *g) =~= Seq::<Game>::empty());
    }
    while i < games.len()
        invariant
            i <= games@.len(),
            strings_view(ws@) == wv,
            wv == words(lower_of(search@)),
            out@.map_values(|g: &Game| *g) == filtered(games@, wv, i as int),
        decreases games@.len() - i,
    {
        let g = &games[i];
        let mut all = true;
        let mut j: usize = 0;
        while j < ws.len()
            invariant
                j <= ws@.len(),
                strings_view(ws@) == wv,
                g == games@[i as int],
                all <==> (forall|k: int| 0 <= k < j ==> contains(g.lowercased_title@, #[trigger] wv[k])),
            decreases ws@.len() - j,
        {
            let c = str_contains(g.lowercased_title.as_str(), ws[j].as_str());
            proof {
                assert(wv[j as int] == ws@[j as int]@);
            }
            if !c {
                all = false;
            }
            j = j + 1;
        }
        let ghost before = out@;
        if all {
            out.push(g);
            proof {
                assert(out@.map_values(|g: &Game| *g) =~= before.map_values(|g: &Game| *g).push(*g));
            }
        }
        i = i + 1;
    }
    out
}

/// Reads the title list from the rows of the archives' listing page.
#[derive(Clone, Debug)]
pub struct Scraper {
    config: Config,
}

impl Scraper {
    pub fn new(config: &Config) -> (r: Scraper)
        ensures
            r.base_url() == config.ps3_iso_url@,
    {
        Scraper { config: config.duplicate() }
    }

    pub closed spec fn base_url(&self) -> Seq<char> {
        self.config.ps3_iso_url@
    }

    /// The region that the title names, if any.
    pub fn extract_region_from_title(&self, title: &str) -> (r: Option<String>)
        ensures
            opt_view(r) == region_of(title@),
    {
        if str_contains(title, "USA") {
            Some("USA".to_owned())
        } else if str_contains(title, "Europe") {
            Some("Europe".to_owned())
        } else if str_contains(title, "Japan") {
            Some("Japan".to_owned())
        } else if str_contains(title, "Asia") {
            Some("Asia".to_owned())
        } else if str_contains(title, "Australia") {
            Some("Australia".to_owned())
        } else if str_contains(title, "PAL") {
            Some("PAL".to_owned())
        } else if str_contains(title, "NTSC") {
            Some("NTSC".to_owned())
        } else {
            None
        }
    }

    /// The games of a listing page, in the order of their search titles.
    pub fn games_from_page(&self, html: &str) -> (r: Vec<Game>)
        ensures
            exists|unsorted: Seq<Game>|
                #![trigger sorted_by_title(unsorted)]
                r@ == sorted_by_title(unsorted)
                && unsorted.map_values(|g: Game| game_entry(g)) == listing_entries(listing_of(html@))
                && forall|i: int| 0 <= i < unsorted.len() ==> (#[trigger] unsorted[i]).lowercased_title@ == lower_of(unsorted[i].title@),
    {
        let rows = listing_rows(html);
        let games = self.games_from_listing(&rows);
        let ghost unsorted = games@;
        let r = self.sorted_games(games);
        proof {
            assert(rows@.map_values(|x: ListingRow| row_view(x)) == listing_of(html@));
        }
        r
    }

    /// The games of the listing's rows, in the page's order.
    pub fn games_from_listing(&self, rows: &Vec<ListingRow>) -> (r: Vec<Game>)
        ensures
            r@.map_values(|g: Game| game_entry(g)) == listing_entries(rows@.map_values(|x: ListingRow| row_view(x))),
            forall|i: int| 0 <= i < r@.len() ==> (#[trigger] r@[i]).lowercased_title@ == lower_of(r@[i].title@)
                && r@[i].needs_decryption && r@[i].key is None && r@[i].key_file is None,
    {
        let ghost rv = rows@.map_values(|x: ListingRow| row_view(x));
        let mut games: Vec<Game> = Vec::new();
        let mut i: usize = 0;
        while i < rows.len()
            invariant
                rv == rows@.map_values(|x: ListingRow| row_view(x)),
                i <= rows@.len(),
                games@.map_values(|g: Game| game_entry(g)) == listing_entries(rv.subrange(0, i as int)),
                forall|k: int| 0 <= k < games@.len() ==> (#[trigger] games@[k]).lowercased_title@ == lower_of(games@[k].title@)
                    && games@[k].needs_decryption && games@[k].key is None && games@[k].key_file is None,
            decreases rows@.len() - i,
        {
            proof {
                assert(rv.subrange(0, i + 1).drop_last() =~= rv.subrange(0, i as int));
                assert(rv.subrange(0, i + 1).last() == row_view(rows@[i as int]));
            }
            let row = &rows[i];
            match (&row.title, &row.href) {
                (Some(title), Some(href)) => {
                    let t = trim(title.as_str());
                    if !t.as_str().is_empty() && str_ends_with(t.as_str(), ".zip") {
                        let size = match &row.size {
                            Some(z) => trim(z.as_str()),
                            None => "Unknown size".to_owned(),
                        };
                        let region = self.extract_region_from_title(t.as_str());
                        let ghost before = games@;
                        let g = Game::new_ps3(t, href.clone(), size, region);
                        games.push(g);
                        proof {
                            assert(games@ == before.push(g));
                            assert(games@.map_values(|g: Game| game_entry(g)) =~= before.map_values(|g: Game| game_entry(g)).push(game_entry(g)));
                        }
                    }
                },
                _ => {},
            }
            i = i + 1;
        }
        proof {
            assert(rv.subrange(0, rows@.len() as int) =~= rv);
        }
        games
    }
}

} // verus!

verus! {

/// `a` comes before `b` in lexicographic order of chars (the order of `str`'s `<`).
pub open spec fn lex_lt(a: Seq<char>, b: Seq<char>) -> bool
    decreases a.len(),
{
    if a.len() == 0 {
        b.len() > 0
    } else if b.len() == 0 {
        false
    } else if a[0] != b[0] {
        a[0] < b[0]
    } else {
        lex_lt(a.drop_first(), b.drop_first())
    }
}

pub fn str_lt(a: &str, b: &str) -> (r: bool)
    ensures
        r == lex_lt(a@, b@),
{
    let v = crate::text::chars_of(a);
    let w = crate::text::chars_of(b);
    let mut i: usize = 0;
    proof {
        assert(v@.subrange(0, v@.len() as int) =~= v@);
        assert(w@.subrange(0, w@.len() as int) =~= w@);
    }
    while i < v.len() && i < w.len() && v[i] == w[i]
        invariant
            v@ == a@,
            w@ == b@,
            i <= v@.len(),
            i <= w@.len(),
            lex_lt(v@.subrange(i as int, v@.len() as int), w@.subrange(i as int, w@.len() as int)) == lex_lt(a@, b@),
        decreases v@.len() - i,
    {
        proof {
            assert(v@.subrange(i as int, v@.len() as int).drop_first() =~= v@.subrange(i + 1, v@.len() as int));
            assert(w@.subrange(i as int, w@.len() as int).drop_first() =~= w@.subrange(i + 1, w@.len() as int));
        }
        i = i + 1;
    }
    if i == v.len() {
        i < w.len()
    } else if i == w.len() {
        false
    } else {
        v[i] < w[i]
    }
}

/// Index of the first game at or after `j` whose search title comes after `key`.
pub open spec fn first_after(s: Seq<Game>, key: Seq<char>, j: int) -> int
    decreases s.len() - j,
{
    if j < 0 || j >= s.len() {
        s.len() as int
    } else if lex_lt(key, s[j].lowercased_title@) {
        j
    } else {
        first_after(s, key, j + 1)
    }
}

/// `g` put into `s` after every game whose search title does not come after its own.
pub open spec fn insert_sorted(s: Seq<Game>, g: Game) -> Seq<Game> {
    s.insert(first_after(s, g.lowercased_title@, 0), g)
}

/// The games in the order of their search titles; games with equal search
/// titles keep their relative order.
pub open spec fn sorted_by_title(s: Seq<Game>) -> Seq<Game>
    decreases s.len(),
{
    if s.len() == 0 {
        s
    } else {
        insert_sorted(sorted_by_title(s.drop_last()), s.last())
    }
}

impl Scraper {
    /// The games ordered by search title, a stable sort.
    pub fn sorted_games(&self, games: Vec<Game>) -> (r: Vec<Game>)
        ensures
            r@ == sorted_by_title(games@),
            ordered(r@),
            r@.to_multiset() == games@.to_multiset(),
    {
        proof {
            lemma_sorted_by_title_ordered(games@);
        }
        let ghost orig = games@;
        let mut input = games;
        let mut out: Vec<Game> = Vec::new();
        let ghost mut k: int = 0;
        proof {
            assert(input@ =~= orig.subrange(0, orig.len() as int));
            assert(out@ =~= sorted_by_title(orig.subrange(0, 0)));
        }
        while input.len() > 0
            invariant
                0 <= k <= orig.len(),
                input@ == orig.subrange(k, orig.len() as int),
                out@ == sorted_by_title(orig.subrange(0, k)),
            decreases input@.len(),
        {
            let g = input.remove(0);
            let mut p: usize = 0;
            while p < out.len() && !str_lt(g.lowercased_title.as_str(), out[p].lowercased_title.as_str())
                invariant
                    p <= out@.len(),
                    first_after(out@, g.lowercased_title@, 0) == first_after(out@, g.lowercased_title@, p as int),
                decreases out@.len() - p,
            {
                p = p + 1;
            }
            proof {
                assert(orig.subrange(0, k + 1).drop_last() =~= orig.subrange(0, k));
                assert(orig.subrange(0, k + 1).last() == g);
            }
            out.insert(p, g);
            proof {
                k = k + 1;
                assert(input@ =~= orig.subrange(k, orig.len() as int));
            }
        }
        proof {
            assert(orig.subrange(0, k) =~= orig);
        }
        out
    }
}

} // verus!

verus! {

proof fn lemma_lex_lt_transitive(a: Seq<char>, b: Seq<char>, c: Seq<char>)
    requires
        lex_lt(a, b),
        lex_lt(b, c),
    ensures
        lex_lt(a, c),
    decreases a.len(),
{
    if a.len() > 0 && b.len() > 0 && c.len() > 0 && a[0] == b[0] && b[0] == c[0] {
        lemma_lex_lt_transitive(a.drop_first(), b.drop_first(), c.drop_first());
    }
}

proof fn lemma_lex_lt_irreflexive(a: Seq<char>)
    ensures
        !lex_lt(a, a),
    decreases a.len(),
{
    if a.len() > 0 {
        lemma_lex_lt_irreflexive(a.drop_first());
    }
}

/// No game comes after a later one.
pub open spec fn ordered(s: Seq<Game>) -> bool {
    forall|i: int, j: int| 0 <= i < j < s.len() ==> !lex_lt(#[trigger] s[j].lowercased_title@, #[trigger] s[i].lowercased_title@)
}

proof fn lemma_first_after_props(s: Seq<Game>, key: Seq<char>, j: int)
    requires
        0 <= j <= s.len(),
    ensures
        j <= first_after(s, key, j) <= s.len(),
        forall|k: int| j <= k < first_after(s, key, j) ==> !lex_lt(key, #[trigger] s[k].lowercased_title@),
        first_after(s, key, j) < s.len() ==> lex_lt(key, s[first_after(s, key, j)].lowercased_title@),
    decreases s.len() - j,
{
    if j < s.len() && !lex_lt(key, s[j].lowercased_title@) {
        lemma_first_after_props(s, key, j + 1);
    }
}

/// The sort's result is ordered by search title and holds the same games.
pub proof fn lemma_sorted_by_title_ordered(s: Seq<Game>)
    ensures
        ordered(sorted_by_title(s)),
        sorted_by_title(s).len() == s.len(),
        sorted_by_title(s).to_multiset() == s.to_multiset(),
    decreases s.len(),
{
    if s.len() == 0 {
        assert(sorted_by_title(s) == s);
    } else {
        let t = sorted_by_title(s.drop_last());
        lemma_sorted_by_title_ordered(s.drop_last());
        let g = s.last();
        let key = g.lowercased_title@;
        let p = first_after(t, key, 0);
        lemma_first_after_props(t, key, 0);
        let r = t.insert(p, g);
        vstd::seq_lib::to_multiset_insert(t, p, g);
        vstd::seq_lib::to_multiset_build(s.drop_last(), g);
        assert(s.drop_last().push(g) == s);
        assert forall|i: int, j: int| 0 <= i < j < r.len() implies !lex_lt(#[trigger] r[j].lowercased_title@, #[trigger] r[i].lowercased_title@) by {
            if j < p {
                assert(r[i] == t[i] && r[j] == t[j]);
            } else if j == p {
                assert(r[i] == t[i]);
            } else if i == p {
                assert(r[j] == t[j - 1]);
                if lex_lt(t[j - 1].lowercased_title@, key) {
                    if j - 1 == p {
                        lemma_lex_lt_irreflexive(t[p].lowercased_title@);
                    }
                    assert(!lex_lt(t[j - 1].lowercased_title@, t[p].lowercased_title@));
                    lemma_lex_lt_transitive(t[j - 1].lowercased_title@, key, t[p].lowercased_title@);
                }
            } else if i < p {
                assert(r[i] == t[i] && r[j] == t[j - 1]);
            } else {
                assert(r[i] == t[i - 1] && r[j] == t[j - 1]);
            }
        }
    }
}

} // verus!
