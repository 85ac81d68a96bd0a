//! Privacy-aware lookup of a transaction signature.
use vstd::prelude::*;
use crate::text::{trim, trim_str, is_blank, owned};

verus! {

/// How much a deployment may reveal about signatures.
#[derive(Debug, Clone, Copy, PartialEq, Eq, Structural)]
pub enum SignatureLookupMode {
    Standard,
    Full,
    Strict,
}

/// Why a lookup was refused.
#[derive(Debug, Clone, Copy, PartialEq, Eq, Structural)]
pub enum SignatureLookupError {
    DisabledInStrictMode,
    EmptySignature,
}

impl SignatureLookupError {
    /// The explanation of the refusal.
    pub fn message(&self) -> (m: &'static str)
        ensures
            m@ == match self {
                SignatureLookupError::DisabledInStrictMode => "signature lookup is disabled in strict privacy mode"@,
                SignatureLookupError::EmptySignature => "signature must not be empty"@,
            },
    {
        match self {
            SignatureLookupError::DisabledInStrictMode => "signature lookup is disabled in strict privacy mode",
            SignatureLookupError::EmptySignature => "signature must not be empty",
        }
    }
}

/// What a lookup reveals: the signature, its status, and only whether logs
/// exist, never their contents.
#[derive(Debug, Clone, PartialEq, Eq)]
pub struct SignatureLookupResult {
    pub signature: String,
    pub status: Option<String>,
    pub logs_present: bool,
}

/// Looks up a signature; a blank signature is an error first, and strict mode
/// refuses every lookup.
pub fn lookup_signature(
    mode: SignatureLookupMode,
    signature: &str,
    status: Option<&str>,
    logs_present: bool,
) -> (r: Result<SignatureLookupResult, SignatureLookupError>)
    ensures
        trim(signature@).len() == 0 ==> r == Err::<SignatureLookupResult, SignatureLookupError>(
            SignatureLookupError::EmptySignature,
        ),
        trim(signature@).len() != 0 && mode == SignatureLookupMode::Strict ==> r == Err::<
            SignatureLookupResult,
            SignatureLookupError,
        >(SignatureLookupError::DisabledInStrictMode),
        trim(signature@).len() != 0 && mode != SignatureLookupMode::Strict ==> (r matches Ok(found)
            && found.signature@ == trim(signature@) && found.logs_present == logs_present && match status {
            Some(s) => found.status matches Some(t) && t@ == s@,
            None => found.status is None,
        }),
{
    if is_blank(signature) {
        return Err(SignatureLookupError::EmptySignature);
    }
    if mode == SignatureLookupMode::Strict {
        return Err(SignatureLookupError::DisabledInStrictMode);
    }
    let status_owned = match status {
        Some(s) => Some(owned(s)),
        None => None,
    };
    Ok(SignatureLookupResult { signature: owned(trim_str(signature)), status: status_owned, logs_present })
}

} // verus!
