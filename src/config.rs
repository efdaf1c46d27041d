//! Settings of the pipeline, and the working paths derived from them. Paths are
//! strings with `/` separators; a leading `~/` stands for the home directory,
//! which the caller supplies.
use vstd::prelude::*;
use crate::text::{chars_of, push_str, string_of, string_of_range};

verus! {

#[derive(Clone, Debug)]
pub struct Config {
    /// Base URL of the disc-image archives.
    pub ps3_iso_url: String,
    /// Base URL of the key packages.
    pub ps3_keys_url: String,
    /// File name of the cached title list.
    pub list_ps3_files_json_name: String,
    /// Whether the archive is fetched by the user through a browser.
    pub external_iso_download: bool,
    pub max_retries: u32,
    /// Seconds between download attempts.
    pub delay_between_retries: u64,
    /// Timeout of one download request, in seconds.
    pub timeout_request: Option<u64>,
    pub tmp_folder_name: String,
    pub tmp_iso_folder_name: String,
    pub decryptor_path: String,
    /// Seconds the decryption program may run.
    pub decryption_timeout: u64,
}

#[derive(PartialEq, Eq, Structural, Clone, Copy, Debug)]
pub enum ConfigError {
    ZeroMaxRetries,
    ZeroRetryDelay,
    ZeroDecryptionTimeout,
}

/// `p` with a leading `~/` replaced by the home directory, where one is known.
pub open spec fn expand_tilde_of(p: Seq<char>, home: Option<Seq<char>>) -> Seq<char> {
    if p.len() >= 2 && p[0] == '~' && p[1] == '/' && home is Some {
        join_of(home->Some_0, p.subrange(2, p.len() as int))
    } else {
        p
    }
}

/// `base` joined with `part`: an absolute `part` replaces `base`, and a
/// separator is put between them where `base` does not end with one.
pub open spec fn join_of(base: Seq<char>, part: Seq<char>) -> Seq<char> {
    if part.len() > 0 && part[0] == '/' {
        part
    } else if base.len() == 0 {
        part
    } else if base.last() == '/' {
        base + part
    } else {
        base + seq!['/'] + part
    }
}

pub fn path_join(base: &str, part: &str) -> (r: String)
    ensures
        r@ == join_of(base@, part@),
{
    let b = chars_of(base);
    let p = chars_of(part);
    if p.len() > 0 && p[0] == '/' {
        return string_of(&p);
    }
    if b.len() == 0 {
        return string_of(&p);
    }
    let mut out = b.clone();
    if b[b.len() - 1] != '/' {
        out.push('/');
    }
    push_str(&mut out, part);
    proof {
        assert(out@ =~= join_of(base@, part@));
    }
    string_of(&out)
}

pub fn expand_tilde(path: &str, home: Option<&str>) -> (r: String)
    ensures
        r@ == expand_tilde_of(path@, match home { Some(h) => Some(h@), None => None }),
{
    let v = chars_of(path);
    match home {
        Some(h) => {
            if v.len() >= 2 && v[0] == '~' && v[1] == '/' {
                let rest = string_of_range(&v, 2, v.len());
                return path_join(h, rest.as_str());
            }
        },
        None => {},
    }
    string_of(&v)
}

pub open spec fn home_view(home: Option<&str>) -> Option<Seq<char>> {
    match home {
        Some(h) => Some(h@),
        None => None,
    }
}

impl Config {
    /// A copy of these settings.
    pub fn duplicate(&self) -> (r: Config)
        ensures
            r == *self,
    {
        Config {
            ps3_iso_url: self.ps3_iso_url.clone(),
            ps3_keys_url: self.ps3_keys_url.clone(),
            list_ps3_files_json_name: self.list_ps3_files_json_name.clone(),
            external_iso_download: self.external_iso_download,
            max_retries: self.max_retries,
            delay_between_retries: self.delay_between_retries,
            timeout_request: self.timeout_request,
            tmp_folder_name: self.tmp_folder_name.clone(),
            tmp_iso_folder_name: self.tmp_iso_folder_name.clone(),
            decryptor_path: self.decryptor_path.clone(),
            decryption_timeout: self.decryption_timeout,
        }
    }

    /// Settings that a run cannot use: no attempt allowed, no pause between
    /// attempts, or no time for decryption.
    pub fn validate(&self) -> (r: Result<(), ConfigError>)
        ensures
            r == (if self.max_retries == 0 {
                Err(ConfigError::ZeroMaxRetries)
            } else if self.delay_between_retries == 0 {
                Err(ConfigError::ZeroRetryDelay)
            } else if self.decryption_timeout == 0 {
                Err(ConfigError::ZeroDecryptionTimeout)
            } else {
                Ok(())
            }),
    {
        if self.max_retries == 0 {
            Err(ConfigError::ZeroMaxRetries)
        } else if self.delay_between_retries == 0 {
            Err(ConfigError::ZeroRetryDelay)
        } else if self.decryption_timeout == 0 {
            Err(ConfigError::ZeroDecryptionTimeout)
        } else {
            Ok(())
        }
    }

    /// The working folder.
    pub fn tmp_folder_path(&self, home: Option<&str>) -> (r: String)
        ensures
            r@ == expand_tilde_of(self.tmp_folder_name@, home_view(home)),
    {
        expand_tilde(self.tmp_folder_name.as_str(), home)
    }

    /// The folder of the disc images, inside the working folder.
    pub fn tmp_iso_folder_path(&self, home: Option<&str>) -> (r: String)
        ensures
            r@ == join_of(expand_tilde_of(self.tmp_folder_name@, home_view(home)), self.tmp_iso_folder_name@),
    {
        let t = expand_tilde(self.tmp_folder_name.as_str(), home);
        path_join(t.as_str(), self.tmp_iso_folder_name.as_str())
    }

    /// The cached title list, inside the working folder.
    pub fn list_ps3_json_path(&self, home: Option<&str>) -> (r: String)
        ensures
            r@ == join_of(expand_tilde_of(self.tmp_folder_name@, home_view(home)), self.list_ps3_files_json_name@),
    {
        let t = expand_tilde(self.tmp_folder_name.as_str(), home);
        path_join(t.as_str(), self.list_ps3_files_json_name.as_str())
    }

    /// The decryption program.
    pub fn decryptor_path(&self, home: Option<&str>) -> (r: String)
        ensures
            r@ == expand_tilde_of(self.decryptor_path@, home_view(home)),
    {
        expand_tilde(self.decryptor_path.as_str(), home)
    }

    /// The folder of the key cache, inside the working folder.
    pub fn keys_folder_path(&self, home: Option<&str>) -> (r: String)
        ensures
            r@ == join_of(expand_tilde_of(self.tmp_folder_name@, home_view(home)), "keys"@),
    {
        let t = expand_tilde(self.tmp_folder_name.as_str(), home);
        path_join(t.as_str(), "keys")
    }
}

} // verus!
