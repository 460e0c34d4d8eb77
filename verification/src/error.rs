use vstd::prelude::*;

verus! {

/// Why an API request was refused.
pub enum AppError {
    /// The request does not fit the state; the text says why.
    Validation(String),
}

/// Why a detection could not be made.
#[derive(Debug)]
pub enum DetectionError {
    /// The Obico ML API could not give a result; the text says why.
    ObicoFailed(String),
}

} // verus!
