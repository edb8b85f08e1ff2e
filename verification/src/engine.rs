//! The transcription engine, modelled by what the surrounding logic
//! reads of it: which backend stands behind it and that backend's
//! name. The engines themselves (model loading, inference) are
//! external collaborators.

use vstd::prelude::*;

verus! {

/// The transcription backend in use: the built-in ONNX-based engine,
/// or a pluggable provider known by its name.
pub enum TranscriptionEngine {
    /// The primary, built-in engine.
    Parakeet,
    /// A provider chosen by configuration; carries the name the
    /// provider reports.
    Provider(String),
}

/// The name [`TranscriptionEngine::provider_name`] reports.
pub open spec fn provider_name_spec(e: &TranscriptionEngine) -> Seq<char> {
    match e {
        TranscriptionEngine::Parakeet => "Parakeet (ONNX)"@,
        TranscriptionEngine::Provider(name) => name@,
    }
}

impl TranscriptionEngine {
    /// Get the provider name for logging.
    pub fn provider_name(&self) -> (r: &str)
        ensures
            r@ == provider_name_spec(self),
    {
        match self {
            TranscriptionEngine::Parakeet => "Parakeet (ONNX)",
            TranscriptionEngine::Provider(name) => name.as_str(),
        }
    }
}

} // verus!
