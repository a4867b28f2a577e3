//! Failure kinds of the library.

use vstd::prelude::*;
use crate::text::push_str;

verus! {

#[verifier::external_type_specification]
#[verifier::external_body]
pub struct ExDecodeError(base64::DecodeError);

#[derive(Debug)]
pub enum Error {
    /// A local file could not be read or written.
    Io(String),
    /// A JSON document could not be decoded.
    SerdeJson(String),
    /// A network call failed before a response arrived.
    Reqwest(String),
    /// A remote service answered with an unexpected status; holds its body.
    BadResponse(String),
    /// A remote resource that this operation depends on was never created.
    NotSetup(&'static str),
    /// A required setting is missing; names the command that provides it.
    Missing(&'static str),
    /// The repository's public key is not valid base64.
    Decode(base64::DecodeError),
    /// The repository's public key does not have the length of a key.
    InvalidKey,
    /// Sealing a secret failed.
    Encrypt,
    /// An environment variable could not be read.
    Env(String),
    /// The mod is already in the registry.
    AlreadyTracked,
    /// The mod is not in the registry.
    NotTracked,
    /// Two tracked mods resolved to the same item; holds the name recorded first.
    DuplicateIdentity(String),
}

impl Error {
    /// A message for the user: the text that a variant carries, or a fixed
    /// description of it.
    pub fn msg(&self) -> (r: String)
        ensures
            match self {
                Error::Io(m) | Error::SerdeJson(m) | Error::Reqwest(m) | Error::BadResponse(m)
                | Error::Env(m) => r@ == m@,
                Error::NotSetup(m) | Error::Missing(m) => r@ == m@,
                Error::DuplicateIdentity(name) => r@ == "duplicate tracked mod: "@ + name@,
                Error::InvalidKey => r@ == "Invalid public key"@,
                Error::Encrypt => r@ == "Encryption of the secret failed"@,
                Error::AlreadyTracked => r@ == "Mod already exists in the registry"@,
                Error::NotTracked => r@ == "Mod does not exist in the registry"@,
                Error::Decode(_) => true,
            },
    {
        match self {
            Error::Io(m) => m.clone(),
            Error::SerdeJson(m) => m.clone(),
            Error::Reqwest(m) => m.clone(),
            Error::BadResponse(m) => m.clone(),
            Error::NotSetup(m) => String::from_str(m),
            Error::Missing(m) => String::from_str(m),
            Error::Decode(e) => e.to_string(),
            Error::InvalidKey => String::from_str("Invalid public key"),
            Error::Encrypt => String::from_str("Encryption of the secret failed"),
            Error::Env(m) => m.clone(),
            Error::AlreadyTracked => String::from_str("Mod already exists in the registry"),
            Error::NotTracked => String::from_str("Mod does not exist in the registry"),
            Error::DuplicateIdentity(name) => {
                let mut s = String::from_str("duplicate tracked mod: ");
                push_str(&mut s, name.as_str());
                s
            },
        }
    }
}

} // verus!
