//! The options of a publisher.

use crate::publisher::RunMode;
use vstd::prelude::*;

verus! {

/// The options of a publisher.
#[derive(Debug, Clone)]
pub struct Cli {
    /// The URL of the relay.
    pub endpoint: String,
    pub validate_cert: bool,
    /// The namespace of the tracks.
    pub namespace: String,
    pub video_path: String,
    /// The latency that the catalog asks for.
    pub target_latency_ms: u32,
    /// How many qualities the built-in ladder may have.
    pub max_variants: u8,
    /// The cache of encoded video.
    pub encoded_dir: Option<String>,
    pub ladder_spec: String,
    /// Replays a cache once.
    pub no_loop: bool,
}

impl Default for Cli {
    fn default() -> (cli: Cli)
        ensures
            cli.endpoint@ == "https://127.0.0.1:4433"@,
            !cli.validate_cert,
            cli.namespace@ == "moqtail"@,
            cli.video_path@ == "data/video/Smoking Test.mp4"@,
            cli.target_latency_ms == 1500,
            cli.max_variants == 4,
            cli.encoded_dir is None,
            cli.ladder_spec@ == "default"@,
            !cli.no_loop,
    {
        Cli {
            endpoint: "https://127.0.0.1:4433".to_owned(),
            validate_cert: false,
            namespace: "moqtail".to_owned(),
            video_path: "data/video/Smoking Test.mp4".to_owned(),
            target_latency_ms: 1500,
            max_variants: 4,
            encoded_dir: None,
            ladder_spec: "default".to_owned(),
            no_loop: false,
        }
    }
}

/// What to do, by whether a directory for encoded video is given and whether a complete
/// cache stands there.
pub open spec fn run_mode_for(has_dir: bool, is_complete: bool) -> RunMode {
    if !has_dir {
        RunMode::Live
    } else if is_complete {
        RunMode::Replay
    } else {
        RunMode::Prepare
    }
}

/// Nothing is written or replayed without a directory. With one, a complete cache is
/// replayed and any other is prepared.
pub proof fn law_a_directory_decides_the_mode(has_dir: bool, is_complete: bool)
    ensures
        run_mode_for(has_dir, is_complete) is Live <==> !has_dir,
        run_mode_for(has_dir, is_complete) is Replay <==> has_dir && is_complete,
        run_mode_for(has_dir, is_complete) is Prepare <==> has_dir && !is_complete,
{
}

impl Cli {
    /// Decides how to run, given whether the cache directory, where there is
    /// one, holds a complete cache.
    pub fn run_mode(&self, is_complete: bool) -> (mode: RunMode)
        ensures
            mode == if self.encoded_dir is None {
                RunMode::Live
            } else if is_complete {
                RunMode::Replay
            } else {
                RunMode::Prepare
            },
            mode == run_mode_for(self.encoded_dir is Some, is_complete),
    {
        if self.encoded_dir.is_none() {
            RunMode::Live
        } else if is_complete {
            RunMode::Replay
        } else {
            RunMode::Prepare
        }
    }

    /// Whether the number of qualities is one that can be asked for.
    pub fn has_valid_max_variants(&self) -> (valid: bool)
        ensures
            valid == (2 <= self.max_variants <= 4),
    {
        2 <= self.max_variants && self.max_variants <= 4
    }
}

} // verus!
