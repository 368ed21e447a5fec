//! The Sonata (Piper) speech synthesizer service.

use vstd::prelude::*;

verus! {

/// A Sonata synthesis failure, with its reason.
#[derive(Debug)]
pub struct SonataSynthError(pub String);

impl SonataSynthError {
    /// The message of the error: `Sonata synthesis error: {reason}`.
    pub fn message(&self) -> (res: String)
        ensures
            res@ == "Sonata synthesis error: "@ + self.0@,
    {
        let mut s = String::from_str("Sonata synthesis error: ");
        s.append(self.0.as_str());
        s
    }
}

/// The synthesizer; it holds no state yet.
pub struct SonataSpeechSynthesizer {}

impl SonataSpeechSynthesizer {
    /// Creates a synthesizer for the voice configuration at the given path
    /// (as text); it always succeeds.
    pub fn new(_voice_config_path: &str) -> (res: Result<Self, SonataSynthError>)
        ensures
            res is Ok,
    {
        Ok(SonataSpeechSynthesizer {  })
    }

    /// Synthesizes `text`; it yields no audio yet, and always succeeds.
    pub fn synthesize(&self, _text: &str) -> (res: Result<Vec<u8>, SonataSynthError>)
        ensures
            res matches Ok(v) && v@.len() == 0,
    {
        Ok(Vec::new())
    }
}

/// The speech service built on a Sonata synthesizer.
pub struct SonataService {
    synthesizer: SonataSpeechSynthesizer,
}

impl SonataService {
    /// Creates the service; it fails exactly when the synthesizer cannot be
    /// created, which never happens.
    pub fn new(voice_config_path: &str) -> (res: Result<Self, SonataSynthError>)
        ensures
            res is Ok,
    {
        let synthesizer = SonataSpeechSynthesizer::new(voice_config_path)?;
        Ok(SonataService { synthesizer })
    }

    /// Synthesizes `text` with the service's synthesizer.
    pub fn synthesize(&self, text: &str) -> (res: Result<Vec<u8>, SonataSynthError>)
        ensures
            res matches Ok(v) && v@.len() == 0,
    {
        self.synthesizer.synthesize(text)
    }
}

} // verus!
