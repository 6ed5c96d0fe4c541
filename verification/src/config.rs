//! The configuration of the library.

use vstd::prelude::*;

verus! {

/// The configuration: where the music lies.
#[derive(Debug, Clone, PartialEq, Eq)]
pub struct Config {
    /// The folder of the library.
    pub music_folder: String,
}

impl Config {
    /// The configuration with the library in `music_folder`.
    pub fn new(music_folder: &str) -> (config: Config)
        ensures
            config.music_folder@ == music_folder@,
    {
        Config { music_folder: music_folder.to_owned() }
    }
}

} // verus!
