//! The decisions and texts behind the app's native dialogs: trusting a new
//! client origin, and offering an update.

use vstd::prelude::*;
use crate::allowed_origins::{self, AllowedOrigins};
use crate::origin_policy;
use crate::text;

verus! {

/// What to do when a client origin asks to use the local API.
#[derive(Debug, PartialEq, Eq, Structural, Clone, Copy)]
pub enum TrustPrecheck {
    /// Not an origin at all: refused without asking.
    Refuse,
    /// Already in the allowed list: accepted without asking.
    AlreadyTrusted,
    /// Ask the user.
    AskUser,
}

pub fn origin_trust_precheck(origins: &AllowedOrigins, origin: &str) -> (r: TrustPrecheck)
    ensures
        r == if !origin_policy::well_formed(origin@) {
            TrustPrecheck::Refuse
        } else if origin_policy::allowed_in(origin@, origins@) {
            TrustPrecheck::AlreadyTrusted
        } else {
            TrustPrecheck::AskUser
        },
{
    if !origin_policy::is_well_formed_origin(origin) {
        return TrustPrecheck::Refuse;
    }
    if origins.is_allowed_origin(origin) {
        return TrustPrecheck::AlreadyTrusted;
    }
    TrustPrecheck::AskUser
}

pub open spec fn trust_question(origin: Seq<char>) -> Seq<char> {
    "Un cliente solicita usar la API local de firma.\n\nOrigen:\n"@ + origin + "\n\n¿Confiar en este origen?"@
}

/// The question shown for an unknown origin.
pub fn origin_trust_message(origin: &str) -> (r: String)
    ensures
        r@ == trust_question(origin@),
{
    let mut v = text::chars_of("Un cliente solicita usar la API local de firma.\n\nOrigen:\n");
    text::append_chars(&mut v, &text::chars_of(origin));
    text::append_chars(&mut v, &text::chars_of("\n\n¿Confiar en este origen?"));
    text::string_of(&v)
}

/// The user's answer: an accepted origin joins the allowed list; the answer is returned.
pub fn record_trust_answer(origins: &mut AllowedOrigins, origin: &str, accepted: bool) -> (r: bool)
    ensures
        r == accepted,
        final(origins)@ == if accepted {
            allowed_origins::with_added(old(origins)@, origin@)
        } else {
            old(origins)@
        },
{
    if accepted {
        origins.add_if_absent(origin);
    }
    accepted
}

pub open spec fn update_offer_text(version: Seq<char>, notes: Option<Seq<char>>) -> Seq<char> {
    match notes {
        Some(n) => if text::trim(n).len() > 0 {
            "Hay una nueva versión disponible: v"@ + version + ".\n\n"@ + text::trim(n) + "\n\n¿Instalar ahora?"@
        } else {
            "Hay una nueva versión disponible: v"@ + version + ".\n\n¿Instalar ahora?"@
        },
        None => "Hay una nueva versión disponible: v"@ + version + ".\n\n¿Instalar ahora?"@,
    }
}

/// The question shown when an update is available, with its release notes when they are not blank.
pub fn update_offer_message(version: &str, notes: Option<&str>) -> (r: String)
    ensures
        r@ == update_offer_text(
            version@,
            match notes {
                Some(n) => Some(n@),
                None => None,
            },
        ),
{
    let mut v = text::chars_of("Hay una nueva versión disponible: v");
    text::append_chars(&mut v, &text::chars_of(version));
    let body = match notes {
        Some(n) => text::trim_chars(&text::chars_of(n)),
        None => Vec::new(),
    };
    if body.len() > 0 {
        text::append_chars(&mut v, &text::chars_of(".\n\n"));
        text::append_chars(&mut v, &body);
        text::append_chars(&mut v, &text::chars_of("\n\n¿Instalar ahora?"));
    } else {
        text::append_chars(&mut v, &text::chars_of(".\n\n¿Instalar ahora?"));
    }
    text::string_of(&v)
}

/// The message when no update is available.
pub fn up_to_date_message(current: &str) -> (r: String)
    ensures
        r@ == "Ya tienes la última versión (v"@ + current@ + ")."@,
{
    let mut v = text::chars_of("Ya tienes la última versión (v");
    text::append_chars(&mut v, &text::chars_of(current));
    text::append_chars(&mut v, &text::chars_of(")."));
    text::string_of(&v)
}

/// What the update check found.
pub enum UpdateCheck {
    /// Updates are disabled in this build.
    Disabled,
    /// No newer version.
    UpToDate,
    /// A newer version exists.
    Available,
    /// The check failed, with its error.
    Failed(String),
}

/// What to do next in the update flow.
#[derive(Debug)]
pub enum UpdateAction {
    /// Nothing more to do.
    Done,
    /// Tell the user the app is up to date (manual checks only).
    ShowUpToDate,
    /// Ask whether to install.
    OfferInstall,
    /// Report an error to the caller.
    Fail(String),
}

/// Updates are looked for only in release builds (`debug_build` is whether
/// debug assertions are compiled in).
pub fn updater_enabled(debug_build: bool) -> (r: bool)
    ensures
        r == !debug_build,
{
    !debug_build
}

/// The update flow's decision after a check, manual (from the menu) or periodic.
pub fn update_flow_action(manual: bool, check: UpdateCheck) -> (r: UpdateAction)
    ensures
        match check {
            UpdateCheck::Disabled => if manual {
                r matches UpdateAction::Fail(m) && m@
                    == "Las actualizaciones solo están disponibles en la aplicación instalada."@
            } else {
                r is Done
            },
            UpdateCheck::UpToDate => if manual {
                r is ShowUpToDate
            } else {
                r is Done
            },
            UpdateCheck::Available => r is OfferInstall,
            UpdateCheck::Failed(e) => if manual {
                r matches UpdateAction::Fail(m) && m@ == "No se pudo comprobar actualizaciones: "@ + e@
            } else {
                r is Done
            },
        },
{
    match check {
        UpdateCheck::Disabled => if manual {
            UpdateAction::Fail(String::from_str("Las actualizaciones solo están disponibles en la aplicación instalada."))
        } else {
            UpdateAction::Done
        },
        UpdateCheck::UpToDate => if manual {
            UpdateAction::ShowUpToDate
        } else {
            UpdateAction::Done
        },
        UpdateCheck::Available => UpdateAction::OfferInstall,
        UpdateCheck::Failed(e) => if manual {
            let mut v = text::chars_of("No se pudo comprobar actualizaciones: ");
            text::append_chars(&mut v, &text::chars_of(e.as_str()));
            UpdateAction::Fail(text::string_of(&v))
        } else {
            UpdateAction::Done
        },
    }
}

} // verus!
