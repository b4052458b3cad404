//! Parsing entry points and the reconciliation of an edited URI with the
//! original one.
use vstd::prelude::*;
use crate::text::{chars_of, same_chars};
use crate::totp::{
    is_valid_secret, key_chars, key_secret, parse_uri, query_part, split_uri, totp_result_view,
    uri_of, uri_rest, valid_secret, well_headed, TOTPError, TOTP,
};
use crate::text::{find_param, query_param};

verus! {

/// Reads `otpauth://totp` URIs.
pub struct TotpUriParser;

impl TotpUriParser {
    pub fn new() -> (r: Self) {
        TotpUriParser
    }

    pub fn parse(&self, uri_string: String) -> (r: Result<TOTP, TOTPError>)
        ensures
            totp_result_view(r) == parse_uri(uri_string@),
    {
        TOTP::from_uri(uri_string.as_str())
    }
}

/// The text offered for editing: the canonical URI when the original parses,
/// else the original unchanged.
pub open spec fn editing_form(original: Seq<char>) -> Seq<char> {
    match parse_uri(original) {
        Ok(m) => uri_of(m),
        Err(_) => original,
    }
}

/// The secret of a well-headed URI, when its `secret` parameter is present
/// and valid, whatever the other parameters hold.
pub open spec fn secret_of(s: Seq<char>) -> Option<Seq<char>> {
    if well_headed(s) {
        match query_param(query_part(uri_rest(s)), key_secret()) {
            Some(v) => if valid_secret(v) {
                Some(v)
            } else {
                None
            },
            None => None,
        }
    } else {
        None
    }
}

/// The text to save after an edit: the canonical URI of the edited
/// descriptor, unless the edit does not parse, or changes a secret that the
/// original holds.
pub open spec fn saved_form(original: Seq<char>, edited: Seq<char>) -> Result<Seq<char>, TOTPError> {
    match parse_uri(edited) {
        Err(e) => Err(e),
        Ok(me) => match secret_of(original) {
            Some(so) => if so != me.secret {
                Err(TOTPError::EditRejected)
            } else {
                Ok(uri_of(me))
            },
            None => Ok(uri_of(me)),
        },
    }
}

/// Finds the secret of a URI, as `secret_of` describes it.
pub fn uri_secret(s: &Vec<char>) -> (r: Option<Vec<char>>)
    ensures
        match r {
            Some(v) => secret_of(s@) == Some(v@),
            None => secret_of(s@) is None,
        },
{
    match split_uri(s) {
        None => None,
        Some((_, query)) => match find_param(&query, &key_chars(0)) {
            Some(v) => if is_valid_secret(&v) {
                Some(v)
            } else {
                None
            },
            None => None,
        },
    }
}

pub open spec fn text_result_view(r: Result<String, TOTPError>) -> Result<Seq<char>, TOTPError> {
    match r {
        Ok(s) => Ok(s@),
        Err(e) => Err(e),
    }
}

/// Guards TOTP URIs that a user edits.
pub struct TotpUriSanitizer;

impl TotpUriSanitizer {
    pub fn new() -> (r: Self) {
        TotpUriSanitizer
    }

    pub fn uri_for_editing(&self, original_uri: String) -> (r: String)
        ensures
            r@ == editing_form(original_uri@),
    {
        match TOTP::from_uri(original_uri.as_str()) {
            Ok(t) => t.to_uri(),
            Err(_) => original_uri,
        }
    }

    pub fn uri_for_saving(&self, original_uri: String, edited_uri: String) -> (r: Result<
        String,
        TOTPError,
    >)
        ensures
            text_result_view(r) == saved_form(original_uri@, edited_uri@),
    {
        let edited = match TOTP::from_uri(edited_uri.as_str()) {
            Ok(t) => t,
            Err(e) => {
                return Err(e);
            },
        };
        match uri_secret(&chars_of(original_uri.as_str())) {
            Some(secret) => {
                if !same_chars(&secret, &chars_of(edited.secret.as_str())) {
                    return Err(TOTPError::EditRejected);
                }
            },
            None => {},
        }
        Ok(edited.to_uri())
    }
}

} // verus!
