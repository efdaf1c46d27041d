//! A title of the remote index, and the names derived from it.
use vstd::prelude::*;
use crate::text::{
    before_char, chars_of, lower_of, lowercase, push_str, replace_all, replace_str, str_before_char,
    string_of, string_of_range, trim, trim_char, trim_char_of, trim_ws,
};

verus! {

#[derive(PartialEq, Eq, Structural, Clone, Copy, Debug)]
pub enum GameType {
    PS3,
}

/// One title of the remote index.
#[derive(Clone, Debug)]
pub struct Game {
    /// Display title, as listed (it may end in `.zip`).
    pub title: String,
    /// Download link, relative to the archives' base URL.
    pub link: String,
    /// Size as listed, e.g. `4.2 GB`.
    pub size: String,
    /// The title lowercased, for searching.
    pub lowercased_title: String,
    pub game_type: GameType,
    pub needs_decryption: bool,
    pub region: Option<String>,
    pub key_file: Option<String>,
    pub key: Option<String>,
}

/// The title without `.zip`.
pub open spec fn clean_title_of(title: Seq<char>) -> Seq<char> {
    replace_all(title, ".zip"@, ""@)
}

/// Index of the first space or `-` in `s`, or -1.
pub open spec fn first_sep(s: Seq<char>, from: int) -> int
    decreases s.len() - from,
{
    if from < 0 || from >= s.len() {
        -1
    } else if s[from] == ' ' || s[from] == '-' {
        from
    } else {
        first_sep(s, from + 1)
    }
}

/// The text before the first space or `-`, and the text after it (empty where
/// there is none).
pub open spec fn region_part(s: Seq<char>) -> Seq<char> {
    let i = first_sep(s, 0);
    if i < 0 { s } else { s.subrange(0, i) }
}

pub open spec fn rest_part(s: Seq<char>) -> Seq<char> {
    let i = first_sep(s, 0);
    if i < 0 { Seq::empty() } else { s.subrange(i + 1, s.len() as int) }
}

pub open spec fn is_name_sep(c: char) -> bool {
    c == ' ' || c == '-' || c == ',' || c == ':' || c == ';' || c == '\'' || c == '"'
}

pub open spec fn is_fallback_sep(c: char) -> bool {
    c == ' ' || c == '-' || c == '(' || c == ')' || c == ','
}

pub open spec fn underscore_name_seps(s: Seq<char>) -> Seq<char> {
    s.map_values(|c: char| if is_name_sep(c) { '_' } else { c })
}

pub open spec fn underscore_fallback_seps(s: Seq<char>) -> Seq<char> {
    s.map_values(|c: char| if is_fallback_sep(c) { '_' } else { c })
}

/// The game's name: the text after the region, up to the first `(`, trimmed,
/// with separators as `_`, `__` collapsed once, `_` trimmed, lowercased.
pub open spec fn main_name_of(clean: Seq<char>) -> Seq<char> {
    let part = trim_ws(before_char(trim_ws(rest_part(clean)), '('));
    lower_of(trim_char_of(replace_all(underscore_name_seps(part), "__"@, "_"@), '_'))
}

/// `{region}-{name}.iso` where both parts are non-empty; else the whole clean
/// title with separators as `_`, lowercased, with `.iso`.
pub open spec fn output_iso_filename_of(title: Seq<char>) -> Seq<char> {
    let clean = clean_title_of(title);
    let region = lower_of(region_part(clean));
    let main = main_name_of(clean);
    if region.len() > 0 && main.len() > 0 {
        region + "-"@ + main + ".iso"@
    } else {
        lower_of(underscore_fallback_seps(clean)) + ".iso"@
    }
}

fn find_sep(v: &Vec<char>) -> (r: Option<usize>)
    ensures
        match r {
            Some(i) => i as int == first_sep(v@, 0) && i < v@.len(),
            None => first_sep(v@, 0) == -1,
        },
{
    let mut i: usize = 0;
    while i < v.len()
        invariant
            i <= v@.len(),
            first_sep(v@, 0) == first_sep(v@, i as int),
        decreases v@.len() - i,
    {
        if v[i] == ' ' || v[i] == '-' {
            return Some(i);
        }
        i = i + 1;
    }
    None
}

fn underscore_seps(s: &str, fallback: bool) -> (r: String)
    ensures
        r@ == if fallback { underscore_fallback_seps(s@) } else { underscore_name_seps(s@) },
{
    let v = chars_of(s);
    let ghost target = if fallback { underscore_fallback_seps(s@) } else { underscore_name_seps(s@) };
    let mut out: Vec<char> = Vec::new();
    let mut i: usize = 0;
    while i < v.len()
        invariant
            v@ == s@,
            i <= v@.len(),
            target == if fallback { underscore_fallback_seps(s@) } else { underscore_name_seps(s@) },
            out@ =~= target.subrange(0, i as int),
        decreases v@.len() - i,
    {
        let c = v[i];
        let sep = if fallback {
            c == ' ' || c == '-' || c == '(' || c == ')' || c == ','
        } else {
            c == ' ' || c == '-' || c == ',' || c == ':' || c == ';' || c == '\'' || c == '"'
        };
        if sep {
            out.push('_');
        } else {
            out.push(c);
        }
        i = i + 1;
    }
    string_of(&out)
}

impl Game {
    /// The title without `.zip`.
    pub fn clean_title(&self) -> (r: String)
        ensures
            r@ == clean_title_of(self.title@),
    {
        proof {
            reveal_strlit(".zip");
        }
        replace_str(self.title.as_str(), ".zip", "")
    }

    /// The game with its search title set from its title.
    pub fn with_lowercased(self) -> (r: Game)
        ensures
            r.lowercased_title@ == lower_of(self.title@),
            r.title == self.title,
            r.link == self.link,
            r.size == self.size,
            r.game_type == self.game_type,
            r.needs_decryption == self.needs_decryption,
            r.region == self.region,
            r.key_file == self.key_file,
            r.key == self.key,
    {
        let mut g = self;
        g.lowercased_title = lowercase(g.title.as_str());
        g
    }

    /// A title that needs decryption, with no key known yet.
    pub fn new_ps3(title: String, link: String, size: String, region: Option<String>) -> (r: Game)
        ensures
            r.title == title,
            r.link == link,
            r.size == size,
            r.lowercased_title@ == lower_of(title@),
            r.game_type == GameType::PS3,
            r.needs_decryption,
            r.region == region,
            r.key_file is None,
            r.key is None,
    {
        let game = Game {
            title,
            link,
            size,
            lowercased_title: String::new(),
            game_type: GameType::PS3,
            needs_decryption: true,
            region,
            key_file: None,
            key: None,
        };
        game.with_lowercased()
    }

    pub fn with_key_file(self, key_file: String) -> (r: Game)
        ensures
            r == (Game { key_file: Some(key_file), ..self }),
    {
        let mut g = self;
        g.key_file = Some(key_file);
        g
    }

    pub fn with_key(self, key: String) -> (r: Game)
        ensures
            r == (Game { key: Some(key), ..self }),
    {
        let mut g = self;
        g.key = Some(key);
        g
    }

    /// The identifier under which the key index lists the game: its clean title.
    pub fn get_game_id(&self) -> (r: String)
        ensures
            r@ == clean_title_of(self.title@),
    {
        self.clean_title()
    }

    /// The file name of the decrypted image, `{region}-{name}.iso`.
    pub fn output_iso_filename(&self) -> (r: String)
        ensures
            r@ == output_iso_filename_of(self.title@),
    {
        let clean = self.clean_title();
        let v = chars_of(clean.as_str());
        let n = v.len();
        let (first, rest) = match find_sep(&v) {
            Some(i) => (string_of_range(&v, 0, i), string_of_range(&v, i + 1, n)),
            None => {
                proof {
                    assert(v@.subrange(0, v@.len() as int) =~= v@);
                }
                (string_of_range(&v, 0, v.len()), String::new())
            },
        };
        let region = lowercase(first.as_str());
        let rest_t = trim(rest.as_str());
        let head = str_before_char(rest_t.as_str(), '(');
        let head_t = trim(head.as_str());
        let seps = underscore_seps(head_t.as_str(), false);
        proof {
            reveal_strlit("__");
            reveal_strlit("_");
        }
        let collapsed = replace_str(seps.as_str(), "__", "_");
        let trimmed = trim_char(collapsed.as_str(), '_');
        let main = lowercase(trimmed.as_str());
        if !region.as_str().is_empty() && !main.as_str().is_empty() {
            let mut out = chars_of(region.as_str());
            push_str(&mut out, "-");
            push_str(&mut out, main.as_str());
            push_str(&mut out, ".iso");
            string_of(&out)
        } else {
            let fb = underscore_seps(clean.as_str(), true);
            let low = lowercase(fb.as_str());
            let mut out = chars_of(low.as_str());
            push_str(&mut out, ".iso");
            string_of(&out)
        }
    }
}

} // verus!
