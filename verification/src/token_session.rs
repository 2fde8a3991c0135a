//! The login state of the PKCS#11 token session: who is logged in, which
//! PIN is kept for the per-signature re-authentication, and how the
//! token's answers to a login map to errors.

use vstd::prelude::*;
use crate::pkcs11_support::{self, DriverPathError, SlotChoiceError};
use crate::text;

verus! {

/// Errors of the token layer.
#[derive(Debug)]
pub enum TokenError {
    Driver(DriverPathError),
    /// An error reported by the PKCS#11 module, as text.
    Pkcs11(String),
    NoSlot,
    SlotIndex,
    NotLoggedIn,
    EmptyPin,
    PinIncorrect,
    PinLocked,
    BadCertId,
    WinMyNotPkcs11,
    InvalidCertDer,
    NoPrivateKey,
    UnsupportedKeyType,
    MutexPoisoned,
}

pub open spec fn token_error_text(e: TokenError) -> Seq<char> {
    match e {
        TokenError::Driver(d) => pkcs11_support::driver_error_text(d),
        TokenError::Pkcs11(m) => m@,
        TokenError::NoSlot => pkcs11_support::slot_choice_text(SlotChoiceError::NoSlot),
        TokenError::SlotIndex => pkcs11_support::slot_choice_text(SlotChoiceError::SlotIndex),
        TokenError::NotLoggedIn => "Falta el PIN para firmar."@,
        TokenError::EmptyPin => "Introduce un PIN para firmar."@,
        TokenError::PinIncorrect => "PIN incorrecto"@,
        TokenError::PinLocked => "PIN bloqueado (demasiados intentos fallidos)"@,
        TokenError::BadCertId => "Identificador de certificado no válido."@,
        TokenError::WinMyNotPkcs11 => "certificado del almacén de Windows; no usa el token PKCS#11"@,
        TokenError::InvalidCertDer => "no se pudo interpretar el certificado X.509"@,
        TokenError::NoPrivateKey => "No se ha encontrado la clave privada del certificado seleccionado en la tarjeta."@,
        TokenError::UnsupportedKeyType => "Tipo de clave no compatible para la firma (de momento solo se admite RSA)."@,
        TokenError::MutexPoisoned => "Estado interno bloqueado; cierra y vuelve a abrir NexoSign."@,
    }
}

impl TokenError {
    /// The message shown to the user.
    pub fn message(&self) -> (r: String)
        ensures
            r@ == token_error_text(*self),
    {
        match self {
            TokenError::Driver(d) => d.message(),
            TokenError::Pkcs11(m) => text::string_of(&text::chars_of(m.as_str())),
            TokenError::NoSlot => SlotChoiceError::NoSlot.message(),
            TokenError::SlotIndex => SlotChoiceError::SlotIndex.message(),
            TokenError::NotLoggedIn => String::from_str("Falta el PIN para firmar."),
            TokenError::EmptyPin => String::from_str("Introduce un PIN para firmar."),
            TokenError::PinIncorrect => String::from_str("PIN incorrecto"),
            TokenError::PinLocked => String::from_str("PIN bloqueado (demasiados intentos fallidos)"),
            TokenError::BadCertId => String::from_str("Identificador de certificado no válido."),
            TokenError::WinMyNotPkcs11 => String::from_str(
                "certificado del almacén de Windows; no usa el token PKCS#11",
            ),
            TokenError::InvalidCertDer => String::from_str("no se pudo interpretar el certificado X.509"),
            TokenError::NoPrivateKey => String::from_str(
                "No se ha encontrado la clave privada del certificado seleccionado en la tarjeta.",
            ),
            TokenError::UnsupportedKeyType => String::from_str(
                "Tipo de clave no compatible para la firma (de momento solo se admite RSA).",
            ),
            TokenError::MutexPoisoned => String::from_str("Estado interno bloqueado; cierra y vuelve a abrir NexoSign."),
        }
    }
}

/// The slot-choice failure as a token error.
pub fn token_error_of_slot_choice(e: SlotChoiceError) -> (r: TokenError)
    ensures
        r is NoSlot <==> e == SlotChoiceError::NoSlot,
        r is SlotIndex <==> e == SlotChoiceError::SlotIndex,
{
    match e {
        SlotChoiceError::NoSlot => TokenError::NoSlot,
        SlotChoiceError::SlotIndex => TokenError::SlotIndex,
    }
}

/// Which failure the token reported for `C_Login`.
#[derive(Debug, PartialEq, Eq, Structural, Clone, Copy)]
pub enum LoginFailure {
    /// `CKR_PIN_INCORRECT`.
    PinIncorrect,
    /// `CKR_PIN_LOCKED`.
    PinLocked,
    /// Any other failure.
    Other,
}

/// What the token answered to `C_Login`.
#[derive(Debug)]
pub enum LoginOutcome {
    Accepted,
    /// `CKR_USER_ALREADY_LOGGED_IN`: treated as success.
    AlreadyLoggedIn,
    /// A failure, with the module's text for it.
    Failed { kind: LoginFailure, text: String },
}

pub open spec fn login_succeeded(o: LoginOutcome) -> bool {
    o is Accepted || o is AlreadyLoggedIn
}

/// Status of the session as the UI shows it.
#[derive(Debug)]
pub struct SessionStatusDto {
    pub logged_in: bool,
    /// Seconds of inactivity before the automatic logout (0: never).
    pub idle_timeout_secs: u64,
    pub seconds_until_auto_logout: Option<u64>,
}

/// Whether the session is logged in, and the PIN kept for re-authentication.
#[derive(Debug)]
pub struct TokenSession {
    logged_in: bool,
    pin: Option<String>,
    idle_secs: u64,
    last_activity: u64,
}

/// Default seconds of inactivity before the token is logged out.
pub const DEFAULT_TOKEN_IDLE_SECS: u64 = 900;

pub open spec fn opt_chars(o: Option<&str>) -> Option<Seq<char>> {
    match o {
        Some(s) => Some(s@),
        None => None,
    }
}

/// The idle limit from `NEXOSIGN_TOKEN_IDLE_SECS`: a decimal number of
/// seconds (`0` turns the automatic logout off); absent or not a number, 900.
pub open spec fn idle_limit_of(env_value: Option<Seq<char>>) -> u64 {
    match env_value {
        Some(v) => match text::parsed_unsigned(v, u64::MAX as nat) {
            Some(n) => n as u64,
            None => DEFAULT_TOKEN_IDLE_SECS,
        },
        None => DEFAULT_TOKEN_IDLE_SECS,
    }
}

pub fn token_idle_secs(env_value: Option<&str>) -> (r: u64)
    ensures
        r == idle_limit_of(opt_chars(env_value)),
{
    match env_value {
        Some(v) => match text::parse_unsigned(&text::chars_of(v), u64::MAX) {
            Some(n) => n,
            None => DEFAULT_TOKEN_IDLE_SECS,
        },
        None => DEFAULT_TOKEN_IDLE_SECS,
    }
}

/// Seconds since the last activity (none when the clock reads earlier).
pub open spec fn idle_elapsed(now: u64, last: u64) -> int {
    if now >= last { now - last } else { 0 }
}

/// The automatic logout is due: a limit is set and it has passed.
pub open spec fn idle_expired(now: u64, last: u64, limit: u64) -> bool {
    limit > 0 && idle_elapsed(now, last) >= limit
}

/// Whether a session idle since `last_activity` is to be logged out at `now`.
pub fn idle_logout_due(now: u64, last_activity: u64, idle_secs: u64) -> (r: bool)
    ensures
        r == idle_expired(now, last_activity, idle_secs),
{
    idle_secs > 0 && now >= last_activity && now - last_activity >= idle_secs
}

impl TokenSession {
    pub closed spec fn is_logged_in(&self) -> bool {
        self.logged_in
    }

    pub closed spec fn kept_pin(&self) -> Option<Seq<char>> {
        match self.pin {
            Some(p) => Some(p@),
            None => None,
        }
    }

    /// Logged in exactly when a PIN is kept.
    pub closed spec fn wf(&self) -> bool {
        self.logged_in == self.pin is Some
    }

    pub closed spec fn idle_limit(&self) -> u64 {
        self.idle_secs
    }

    pub closed spec fn last_activity_at(&self) -> u64 {
        self.last_activity
    }

    /// A logged-out session with the default idle limit.
    pub fn new() -> (r: Self)
        ensures
            r.wf(),
            !r.is_logged_in(),
            r.kept_pin() is None,
            r.idle_limit() == DEFAULT_TOKEN_IDLE_SECS,
    {
        TokenSession { logged_in: false, pin: None, idle_secs: DEFAULT_TOKEN_IDLE_SECS, last_activity: 0 }
    }

    /// A logged-out session with the given idle limit (`0`: never logged out for idleness).
    pub fn with_idle_limit(idle_secs: u64) -> (r: Self)
        ensures
            r.wf(),
            !r.is_logged_in(),
            r.kept_pin() is None,
            r.idle_limit() == idle_secs,
    {
        TokenSession { logged_in: false, pin: None, idle_secs, last_activity: 0 }
    }

    /// Records use of the token at `now` (a login, a signature).
    pub fn touch(&mut self, now: u64)
        ensures
            final(self).last_activity_at() == now,
            final(self).is_logged_in() == old(self).is_logged_in(),
            final(self).kept_pin() == old(self).kept_pin(),
            final(self).idle_limit() == old(self).idle_limit(),
            old(self).wf() ==> final(self).wf(),
    {
        self.last_activity = now;
    }

    /// Logs out a session that has been idle past its limit; `true` when it did.
    pub fn expire_if_idle(&mut self, now: u64) -> (r: bool)
        ensures
            r == (old(self).is_logged_in() && idle_expired(now, old(self).last_activity_at(), old(self).idle_limit())),
            r ==> !final(self).is_logged_in() && final(self).kept_pin() is None,
            !r ==> final(self).is_logged_in() == old(self).is_logged_in() && final(self).kept_pin() == old(
                self,
            ).kept_pin(),
            final(self).idle_limit() == old(self).idle_limit(),
            final(self).last_activity_at() == old(self).last_activity_at(),
            old(self).wf() ==> final(self).wf(),
    {
        if self.logged_in && idle_logout_due(now, self.last_activity, self.idle_secs) {
            self.logged_in = false;
            self.pin = None;
            true
        } else {
            false
        }
    }

    /// Records the token's answer to a login with `pin`: success keeps the
    /// PIN; any failure resets the session and is reported.
    pub fn apply_login(&mut self, pin: String, outcome: LoginOutcome) -> (r: Result<(), TokenError>)
        ensures
            final(self).wf(),
            final(self).idle_limit() == old(self).idle_limit(),
            login_succeeded(outcome) ==> r is Ok && final(self).is_logged_in() && final(self).kept_pin() == Some(
                pin@,
            ),
            !login_succeeded(outcome) ==> !final(self).is_logged_in(),
            !login_succeeded(outcome) ==> final(self).kept_pin() is None,
            outcome matches LoginOutcome::Failed { text, .. } ==> (r matches Err(TokenError::Pkcs11(m)) && m@
                == text@),
    {
        match outcome {
            LoginOutcome::Accepted | LoginOutcome::AlreadyLoggedIn => {
                self.logged_in = true;
                self.pin = Some(pin);
                Ok(())
            },
            LoginOutcome::Failed { text, .. } => {
                self.reset();
                Err(TokenError::Pkcs11(text))
            },
        }
    }

    /// Forgets the login and the PIN (also when the module is released).
    pub fn reset(&mut self)
        ensures
            final(self).wf(),
            !final(self).is_logged_in(),
            final(self).kept_pin() is None,
            final(self).idle_limit() == old(self).idle_limit(),
            final(self).last_activity_at() == old(self).last_activity_at(),
    {
        self.logged_in = false;
        self.pin = None;
    }

    /// Logs out: the session is no longer logged in and the PIN is forgotten.
    pub fn logout(&mut self)
        ensures
            final(self).wf(),
            final(self).idle_limit() == old(self).idle_limit(),
            !final(self).is_logged_in(),
            final(self).kept_pin() is None,
    {
        self.reset();
    }

    /// Signing needs a login; the kept PIN is handed back for the
    /// per-signature re-authentication.
    pub fn pin_for_signing(&self) -> (r: Result<Option<String>, TokenError>)
        requires
            self.wf(),
        ensures
            self.is_logged_in() ==> (r matches Ok(Some(p)) && Some(p@) == self.kept_pin()),
            !self.is_logged_in() ==> r matches Err(TokenError::NotLoggedIn),
    {
        if !self.logged_in {
            return Err(TokenError::NotLoggedIn);
        }
        match &self.pin {
            Some(p) => Ok(Some(p.clone())),
            None => Ok(None),
        }
    }

    /// The status at `now`: the idle limit, and while logged in under a
    /// limit, the seconds left before the automatic logout.
    pub fn session_status(&self, now: u64) -> (r: SessionStatusDto)
        ensures
            r.logged_in == self.is_logged_in(),
            r.idle_timeout_secs == self.idle_limit(),
            r.seconds_until_auto_logout == if self.is_logged_in() && self.idle_limit() > 0 {
                Some(
                    if idle_expired(now, self.last_activity_at(), self.idle_limit()) {
                        0u64
                    } else {
                        (self.idle_limit() - idle_elapsed(now, self.last_activity_at())) as u64
                    },
                )
            } else {
                None::<u64>
            },
    {
        let left = if self.logged_in && self.idle_secs > 0 {
            let elapsed: u64 = if now >= self.last_activity { now - self.last_activity } else { 0 };
            if elapsed >= self.idle_secs {
                Some(0u64)
            } else {
                Some(self.idle_secs - elapsed)
            }
        } else {
            None
        };
        SessionStatusDto { logged_in: self.logged_in, idle_timeout_secs: self.idle_secs, seconds_until_auto_logout: left }
    }
}

/// An empty PIN is refused before the token is touched.
pub fn check_pin_not_empty(pin: &str) -> (r: Result<(), TokenError>)
    ensures
        r is Ok <==> pin@.len() > 0,
        r is Err ==> r matches Err(TokenError::EmptyPin),
{
    if pin.is_empty() {
        Err(TokenError::EmptyPin)
    } else {
        Ok(())
    }
}

/// The answer of a PIN check (login, then everything released): a wrong or
/// blocked PIN is reported as such.
pub fn verify_pin_result(outcome: LoginOutcome) -> (r: Result<(), TokenError>)
    ensures
        match outcome {
            LoginOutcome::Accepted | LoginOutcome::AlreadyLoggedIn => r is Ok,
            LoginOutcome::Failed { kind: LoginFailure::PinIncorrect, .. } => r matches Err(TokenError::PinIncorrect),
            LoginOutcome::Failed { kind: LoginFailure::PinLocked, .. } => r matches Err(TokenError::PinLocked),
            LoginOutcome::Failed { kind: LoginFailure::Other, text } => r matches Err(TokenError::Pkcs11(t)) && t@
                == text@,
        },
{
    match outcome {
        LoginOutcome::Accepted | LoginOutcome::AlreadyLoggedIn => Ok(()),
        LoginOutcome::Failed { kind: LoginFailure::PinIncorrect, .. } => Err(TokenError::PinIncorrect),
        LoginOutcome::Failed { kind: LoginFailure::PinLocked, .. } => Err(TokenError::PinLocked),
        LoginOutcome::Failed { kind: LoginFailure::Other, text } => Err(TokenError::Pkcs11(text)),
    }
}

} // verus!
