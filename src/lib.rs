//! TOTP URI handling, one-time code generation and the decision layer of the
//! passkey bridge of a password-manager client.
pub mod text;
pub mod totp;
pub mod otp;
pub mod passkey;
pub mod sanitizer;
pub mod laws;

pub use otp::{TotpTokenGenerator, TotpTokenResult};
pub use passkey::{
    challenge_response, creation_response, creation_step, CreatePasskeyResponse, GeneratedPasskey,
    PasskeyError, PasskeyResult,
};
pub use sanitizer::{TotpUriParser, TotpUriSanitizer};
pub use totp::{Algorithm, TOTPAlgorithm, TOTPError, TOTP};
