//! The acquisition of one title: which stage runs next, the staging file names,
//! and the components that carry the settings.
use vstd::prelude::*;
use crate::config::{home_view, join_of, expand_tilde_of, Config};
use crate::keys::KeyManager;
use crate::models::{clean_title_of, output_iso_filename_of, Game};
use crate::supervisor::{preflight, preflight_of, DecryptError};
use crate::text::{chars_of, push_str, string_of};

verus! {

/// The next stage of an acquisition.
#[derive(PartialEq, Eq, Structural, Clone, Copy, Debug)]
pub enum Stage {
    /// The final image exists and is not empty.
    Done,
    /// The extracted payload is there: decrypt it.
    Decrypt,
    /// Download the archive (resuming what is on disk), then extract it.
    Fetch,
}

/// An artifact is complete when its file exists and is not empty.
pub open spec fn complete(size: Option<u64>) -> bool {
    size matches Some(n) && n > 0
}

/// Each stage is skipped when its output is complete.
pub open spec fn next_stage_of(final_size: Option<u64>, payload_size: Option<u64>) -> Stage {
    if complete(final_size) {
        Stage::Done
    } else if complete(payload_size) {
        Stage::Decrypt
    } else {
        Stage::Fetch
    }
}

pub fn next_stage(final_size: Option<u64>, payload_size: Option<u64>) -> (r: Stage)
    ensures
        r == next_stage_of(final_size, payload_size),
{
    let done = match final_size {
        Some(n) => n > 0,
        None => false,
    };
    let have_payload = match payload_size {
        Some(n) => n > 0,
        None => false,
    };
    if done {
        Stage::Done
    } else if have_payload {
        Stage::Decrypt
    } else {
        Stage::Fetch
    }
}

/// The files of one title's staging folder.
#[derive(Clone, Debug)]
pub struct StagingNames {
    /// The downloaded archive, `{clean title}.zip`.
    pub archive: String,
    /// The extracted, still encrypted image, `{clean title}.iso`.
    pub payload: String,
    /// The decrypted image.
    pub output: String,
}

/// Runs the external decryption program.
#[derive(Clone, Debug)]
pub struct Decryptor {
    config: Config,
    key_manager: KeyManager,
}

impl Decryptor {
    pub fn new(config: &Config) -> (r: Decryptor)
        ensures
            r.settings() == *config,
    {
        Decryptor { config: config.duplicate(), key_manager: KeyManager::new(config) }
    }

    pub closed spec fn settings(&self) -> Config {
        self.config
    }

    pub fn key_manager(&self) -> &KeyManager {
        &self.key_manager
    }

    /// The program is usable: it exists and, where the platform has permission
    /// bits (`mode`), it is executable.
    pub fn validate_decryptor(&self, exists: bool, mode: Option<u32>) -> (r: Result<(), DecryptError>)
        ensures
            r == preflight_of(exists, mode, 1),
    {
        preflight(exists, mode, 1)
    }

    /// Seconds the program may run.
    pub fn timeout_secs(&self) -> (r: u64)
        ensures
            r == self.settings().decryption_timeout,
    {
        self.config.decryption_timeout
    }
}

/// Downloads, extracts and decrypts titles.
#[derive(Clone, Debug)]
pub struct Downloader {
    config: Config,
    decryptor: Decryptor,
}

impl Downloader {
    pub fn new(config: &Config) -> (r: Downloader)
        ensures
            r.settings() == *config,
    {
        Downloader { config: config.duplicate(), decryptor: Decryptor::new(config) }
    }

    pub closed spec fn settings(&self) -> Config {
        self.config
    }

    pub fn decryptor(&self) -> &Decryptor {
        &self.decryptor
    }

    pub fn config(&self) -> (r: &Config)
        ensures
            *r == self.settings(),
    {
        &self.config
    }

    /// The archive's URL: the archives' base URL followed by the game's link.
    pub fn archive_url(&self, game: &Game) -> (r: String)
        ensures
            r@ == self.settings().ps3_iso_url@ + game.link@,
    {
        let mut v = chars_of(self.config.ps3_iso_url.as_str());
        push_str(&mut v, game.link.as_str());
        string_of(&v)
    }

    /// The staging folder of a game: its clean title inside the images' folder.
    pub fn staging_folder(&self, game: &Game, home: Option<&str>) -> (r: String)
        ensures
            r@ == join_of(
                join_of(expand_tilde_of(self.settings().tmp_folder_name@, home_view(home)), self.settings().tmp_iso_folder_name@),
                clean_title_of(game.title@),
            ),
    {
        let base = self.config.tmp_iso_folder_path(home);
        let clean = game.clean_title();
        crate::config::path_join(base.as_str(), clean.as_str())
    }

    /// The staging file names of a game.
    pub fn staging_names(&self, game: &Game) -> (r: StagingNames)
        ensures
            r.archive@ == clean_title_of(game.title@) + ".zip"@,
            r.payload@ == clean_title_of(game.title@) + ".iso"@,
            r.output@ == output_iso_filename_of(game.title@),
    {
        let clean = game.clean_title();
        let mut a = chars_of(clean.as_str());
        push_str(&mut a, ".zip");
        let mut p = chars_of(clean.as_str());
        push_str(&mut p, ".iso");
        StagingNames { archive: string_of(&a), payload: string_of(&p), output: game.output_iso_filename() }
    }
}

} // verus!
