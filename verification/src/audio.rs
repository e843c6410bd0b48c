//! Handles for the speech collaborators: the settings they are invoked
//! with. Capturing and playing audio is I/O and lives outside the
//! library, which only ever sees the transcribed text.

use vstd::prelude::*;

verus! {

/// Speech-to-text via the host's native dictation.
pub struct MacOSSTT {
    /// Recognition language tag.
    pub language: String,
}

impl MacOSSTT {
    /// Creates a transcriber handle for the given language.
    pub fn new(language: &str) -> (r: MacOSSTT)
        ensures
            r.language@ == language@,
    {
        MacOSSTT { language: language.to_owned() }
    }
}

/// Text-to-speech via the host's native voices.
pub struct MacOSTTS {
    /// Voice name.
    pub voice: String,
    /// Speech rate in words per minute.
    pub rate: u32,
}

impl MacOSTTS {
    /// Creates a speaker handle for the given voice and rate.
    pub fn new(voice: &str, rate: u32) -> (r: MacOSTTS)
        ensures
            r.voice@ == voice@,
            r.rate == rate,
    {
        MacOSTTS { voice: voice.to_owned(), rate }
    }
}

} // verus!
