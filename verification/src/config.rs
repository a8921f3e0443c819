//! Application configuration: where audio lives and the last selection.

use vstd::prelude::*;

verus! {

/// Persisted app settings.
#[derive(Debug, Clone)]
pub struct AppConfig {
    /// Where local audio lives and where downloads land.
    pub audio_root: String,
    pub last_reciter_id: String,
    pub last_surah: u16,
}

impl AppConfig {
    /// Defaults used when no saved configuration exists: the given default
    /// audio root, the `alafasy` reciter and surah 1.
    pub fn fallback(default_audio_root: String) -> (r: AppConfig)
        ensures
            r.audio_root@ == default_audio_root@,
            r.last_reciter_id@ == "alafasy"@,
            r.last_surah == 1,
    {
        AppConfig {
            audio_root: default_audio_root,
            last_reciter_id: String::from_str("alafasy"),
            last_surah: 1,
        }
    }

    /// Apply the `--audio-dir` override, which wins over the saved root.
    pub fn with_audio_dir(self, audio_dir_override: Option<String>) -> (r: AppConfig)
        ensures
            r.last_reciter_id == self.last_reciter_id,
            r.last_surah == self.last_surah,
            r.audio_root == match audio_dir_override {
                Some(dir) => dir,
                None => self.audio_root,
            },
    {
        match audio_dir_override {
            Some(dir) => AppConfig { audio_root: dir, ..self },
            None => self,
        }
    }
}

} // verus!
