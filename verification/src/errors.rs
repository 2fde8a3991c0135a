//! Errors of the batch signing use case.

use vstd::prelude::*;
use crate::text;

verus! {

#[derive(Debug)]
pub enum SignBatchError {
    /// Invalid input.
    InvalidInput(String),
    /// Free text; usually carries technical detail for support (PKCS#11, CMS, DER).
    Pades(String),
    /// Session or signing-module error (the adapter maps the concrete error to text).
    Signer(String),
    /// I/O failure on `path`, with the operating system's message.
    Io { path: String, message: String },
}

/// The user-facing text of an error (as `Display` would show it).
pub open spec fn sign_batch_error_text(e: SignBatchError) -> Seq<char> {
    match e {
        SignBatchError::InvalidInput(m) => "entrada inválida: "@ + m@,
        SignBatchError::Pades(m) => "PDF inválido u operación PAdES fallida: "@ + m@,
        SignBatchError::Signer(m) => "sesión o módulo de firma: "@ + m@,
        SignBatchError::Io { path, message } => "IO en "@ + path@ + ": "@ + message@,
    }
}

impl SignBatchError {
    /// The user-facing text of this error.
    pub fn message(&self) -> (r: String)
        ensures
            r@ == sign_batch_error_text(*self),
    {
        match self {
            SignBatchError::InvalidInput(m) => {
                let mut v = text::chars_of("entrada inválida: ");
                text::append_chars(&mut v, &text::chars_of(m.as_str()));
                text::string_of(&v)
            },
            SignBatchError::Pades(m) => {
                let mut v = text::chars_of("PDF inválido u operación PAdES fallida: ");
                text::append_chars(&mut v, &text::chars_of(m.as_str()));
                text::string_of(&v)
            },
            SignBatchError::Signer(m) => {
                let mut v = text::chars_of("sesión o módulo de firma: ");
                text::append_chars(&mut v, &text::chars_of(m.as_str()));
                text::string_of(&v)
            },
            SignBatchError::Io { path, message } => {
                let mut v = text::chars_of("IO en ");
                text::append_chars(&mut v, &text::chars_of(path.as_str()));
                text::append_chars(&mut v, &text::chars_of(": "));
                text::append_chars(&mut v, &text::chars_of(message.as_str()));
                text::string_of(&v)
            },
        }
    }
}

} // verus!
