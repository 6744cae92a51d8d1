//! Settings read at startup and kept for the life of the process.
use vstd::prelude::*;

verus! {

/// Everything the daemon and the client are configured with.
#[derive(Debug, Clone, PartialEq, Eq)]
pub struct Config {
    pub model: ModelConfig,
    pub audio: AudioConfig,
    pub output: OutputConfig,
}

#[derive(Debug, Clone, PartialEq, Eq)]
pub struct ModelConfig {
    /// Path to the speech model file.
    pub path: String,
    /// Language code, such as "en".
    pub language: String,
}

#[derive(Debug, Clone, Copy, PartialEq, Eq, Structural)]
pub struct AudioConfig {
    /// Sample rate in Hz; the engine needs 16000.
    pub sample_rate: u32,
    /// Recording timeout in seconds; 0 means none.
    pub timeout_secs: u32,
}

#[derive(Debug, Clone, PartialEq, Eq)]
pub struct OutputConfig {
    /// Forced display server ("wayland" or "x11"), or none to detect it.
    pub display_server: Option<String>,
    /// Whether a space follows injected text.
    pub append_space: bool,
}

/// Where the default model lives under a local data directory, or under the
/// working directory when there is none.
pub open spec fn default_model_path(data_dir: Option<Seq<char>>) -> Seq<char> {
    match data_dir {
        Some(d) => d + "/dev-voice/models/ggml-base.en.bin"@,
        None => "./models/ggml-base.en.bin"@,
    }
}

/// Relies on `directories::BaseDirs::new` and `BaseDirs::data_local_dir`: the
/// user's local data directory, where the platform defines one.
#[verifier::external_body]
fn local_data_dir() -> (r: Option<String>) {
    directories::BaseDirs::new().map(|d| d.data_local_dir().to_string_lossy().into_owned())
}

impl Config {
    /// The default settings, with the model under `data_dir` when given.
    pub fn with_data_dir(data_dir: Option<String>) -> (r: Config)
        ensures
            r.model.path@ == default_model_path(
                match data_dir {
                    Some(d) => Some(d@),
                    None => None,
                },
            ),
            r.model.language@ == "en"@,
            r.audio.sample_rate == 16000,
            r.audio.timeout_secs == 30,
            r.output.display_server is None,
            r.output.append_space,
    {
        let path = match data_dir {
            Some(d) => d.concat("/dev-voice/models/ggml-base.en.bin"),
            None => String::from_str("./models/ggml-base.en.bin"),
        };
        Config {
            model: ModelConfig { path, language: String::from_str("en") },
            audio: AudioConfig { sample_rate: 16000, timeout_secs: 30 },
            output: OutputConfig { display_server: None, append_space: true },
        }
    }
}

impl Default for Config {
    /// The default settings for this user.
    fn default() -> (r: Config)
        ensures
            exists|d: Option<Seq<char>>| r.model.path@ == default_model_path(d),
            r.model.language@ == "en"@,
            r.audio.sample_rate == 16000,
            r.audio.timeout_secs == 30,
            r.output.display_server is None,
            r.output.append_space,
    {
        let dir = local_data_dir();
        let ghost d = match &dir {
            Some(x) => Some(x@),
            None => None,
        };
        let r = Config::with_data_dir(dir);
        assert(r.model.path@ == default_model_path(d));
        r
    }
}

} // verus!
