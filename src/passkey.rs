//! The decisions of the passkey bridge: which stage of a two-stage
//! operation failed, and what a successful one hands back.
use vstd::prelude::*;

verus! {

/// Why a passkey operation failed; each variant carries a diagnostic.
#[derive(Clone, Debug)]
pub enum PasskeyError {
    /// The execution context could not be provisioned.
    RuntimeError(String),
    /// The provider could not generate the passkey.
    GenerationFailed(String),
    /// The provider's response could not be rendered.
    ResponseRenderingFailed(String),
    /// The provider could not resolve the challenge.
    ChallengeResolutionFailed(String),
}

pub type PasskeyResult<T> = Result<T, PasskeyError>;

#[derive(Clone, Debug)]
/// What the provider's generation stage yields.
pub struct GeneratedPasskey {
    pub passkey: Vec<u8>,
    pub rp_name: String,
    pub user_name: String,
    pub user_display_name: String,
}

#[derive(Clone, Debug)]
/// A created passkey with its rendered attestation response.
pub struct CreatePasskeyResponse {
    pub passkey: Vec<u8>,
    pub response: String,
    pub rp_name: String,
    pub user_name: String,
    pub user_display_name: String,
}

/// Decides on the outcome of the generation stage: a failure, or passkey
/// material with nothing in it, ends the operation as a generation failure;
/// otherwise the response is rendered next.
pub fn creation_step(outcome: Result<GeneratedPasskey, String>) -> (r: Result<
    GeneratedPasskey,
    PasskeyError,
>)
    ensures
        match outcome {
            Err(e) => r matches Err(PasskeyError::GenerationFailed(d)) && d@ == e@,
            Ok(g) => if g.passkey@.len() == 0 {
                r matches Err(PasskeyError::GenerationFailed(_))
            } else {
                r matches Ok(h) && h == g
            },
        },
{
    match outcome {
        Err(e) => Err(PasskeyError::GenerationFailed(e)),
        Ok(g) => {
            if g.passkey.len() == 0 {
                Err(PasskeyError::GenerationFailed("no passkey material".to_owned()))
            } else {
                Ok(g)
            }
        },
    }
}

/// Decides on the outcome of the rendering stage of a creation. Passkey
/// material with nothing in it is a generation failure; a failed rendering,
/// or an empty response, is a rendering failure; otherwise the passkey and
/// its response, both non-empty.
pub fn creation_response(generated: GeneratedPasskey, rendered: Result<String, String>) -> (r: Result<
    CreatePasskeyResponse,
    PasskeyError,
>)
    ensures
        generated.passkey@.len() == 0 ==> r matches Err(PasskeyError::GenerationFailed(_)),
        generated.passkey@.len() > 0 ==> match rendered {
            Err(e) => r matches Err(PasskeyError::ResponseRenderingFailed(d)) && d@ == e@,
            Ok(s) => if s@.len() == 0 {
                r matches Err(PasskeyError::ResponseRenderingFailed(_))
            } else {
                r matches Ok(c) && c.passkey@ == generated.passkey@ && c.response@ == s@
                    && c.rp_name@ == generated.rp_name@ && c.user_name@ == generated.user_name@
                    && c.user_display_name@ == generated.user_display_name@
            },
        },
        r matches Ok(c) ==> c.passkey@.len() > 0 && c.response@.len() > 0,
{
    if generated.passkey.len() == 0 {
        return Err(PasskeyError::GenerationFailed("no passkey material".to_owned()));
    }
    match rendered {
        Err(e) => Err(PasskeyError::ResponseRenderingFailed(e)),
        Ok(response) => {
            if response.as_str().is_empty() {
                Err(PasskeyError::ResponseRenderingFailed("empty response".to_owned()))
            } else {
                Ok(
                    CreatePasskeyResponse {
                        passkey: generated.passkey,
                        response,
                        rp_name: generated.rp_name,
                        user_name: generated.user_name,
                        user_display_name: generated.user_display_name,
                    },
                )
            }
        },
    }
}

/// Decides on a challenge from the outcomes of its two stages: the
/// resolution (its failure, if any) and the rendering of the response.
pub fn challenge_response(resolution_failure: Option<String>, rendered: Result<String, String>) -> (r: Result<
    String,
    PasskeyError,
>)
    ensures
        match resolution_failure {
            Some(e) => r matches Err(PasskeyError::ChallengeResolutionFailed(d)) && d@ == e@,
            None => match rendered {
                Err(e) => r matches Err(PasskeyError::ResponseRenderingFailed(d)) && d@ == e@,
                Ok(s) => r matches Ok(t) && t@ == s@,
            },
        },
{
    match resolution_failure {
        Some(e) => Err(PasskeyError::ChallengeResolutionFailed(e)),
        None => match rendered {
            Err(e) => Err(PasskeyError::ResponseRenderingFailed(e)),
            Ok(response) => Ok(response),
        },
    }
}

} // verus!
