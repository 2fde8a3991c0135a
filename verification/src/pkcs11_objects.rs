//! What the library makes of the certificate objects a PKCS#11 session
//! lists: the signing certificates shown to the user, the counts of a
//! diagnostic probe, and the certificate a given id names. The objects are
//! read from the token by the app; here they are plain values.

use vstd::prelude::*;
use crate::codec;
use crate::pkcs11_support;
use crate::signing_cert::{self, SigningCertSource, SigningCertSummary, SigningPinUi};
use crate::text;
use crate::x509;

verus! {

/// The attributes of one X.509 certificate object (`CKA_VALUE`,
/// `CKA_LABEL`, `CKA_ID`), each absent when the token did not return it.
#[derive(Debug)]
pub struct CertObject {
    pub value: Option<Vec<u8>>,
    pub label: Option<Vec<u8>>,
    pub id: Option<Vec<u8>>,
}

/// What `String::from_utf8_lossy` gives for some bytes.
pub uninterp spec fn utf8_lossy_of(b: Seq<u8>) -> Seq<char>;

/// `String::from_utf8_lossy(..).into_owned()`.
#[verifier::external_body]
fn utf8_lossy(b: &[u8]) -> (r: String)
    ensures
        r@ == utf8_lossy_of(b@),
{
    String::from_utf8_lossy(b).into_owned()
}

pub open spec fn is_signing(der: Seq<u8>) -> bool {
    x509::key_usage_non_repudiation_of(der) == Some(Some(true))
}

pub open spec fn opt_bytes(o: Option<Vec<u8>>) -> Option<Seq<u8>> {
    match o {
        Some(v) => Some(v@),
        None => None,
    }
}

/// A certificate object is listed when it has a value that is a signing certificate.
pub open spec fn listed(o: CertObject) -> bool {
    o.value matches Some(d) && is_signing(d@)
}

/// The summary shown for a listed certificate object.
pub open spec fn summary_matches(s: SigningCertSummary, o: CertObject) -> bool {
    let der = o.value->Some_0@;
    &&& s.id_hex@ == pkcs11_support::cert_id_text(opt_bytes(o.id), der)
    &&& s.label@ == match o.label {
        Some(l) => utf8_lossy_of(l@),
        None => Seq::<char>::empty(),
    }
    &&& s.subject_dn@ == match x509::subject_text_of(der) {
        Some(t) => t,
        None => Seq::<char>::empty(),
    }
    &&& s.source == SigningCertSource::Pkcs11
    &&& s.pin_ui == SigningPinUi::RequiredInApp
    &&& s.cert_thumbprint_sha1_hex@ == codec::hex_of(codec::sha1_of(der), false)
    &&& s.win_my_key_binding is None
}

fn opt_slice(o: &Option<Vec<u8>>) -> (r: Option<&[u8]>)
    ensures
        match r {
            Some(s) => opt_bytes(*o) == Some(s@),
            None => o is None,
        },
{
    match o {
        Some(v) => Some(v.as_slice()),
        None => None,
    }
}

/// The summary of a token certificate object, or none when it has no value
/// or is not a signing certificate.
pub fn signing_cert_from_object(o: &CertObject) -> (r: Option<SigningCertSummary>)
    ensures
        match r {
            Some(s) => listed(*o) && summary_matches(s, *o),
            None => !listed(*o),
        },
{
    let der = match &o.value {
        Some(d) => d,
        None => {
            return None;
        },
    };
    if !x509::der_is_signing_certificate(der.as_slice()) {
        return None;
    }
    let label = match &o.label {
        Some(l) => utf8_lossy(l.as_slice()),
        None => String::new(),
    };
    Some(
        SigningCertSummary {
            id_hex: pkcs11_support::cert_id_hex_for(opt_slice(&o.id), der.as_slice()),
            label,
            subject_dn: x509::subject_dn_from_der(der.as_slice()),
            source: SigningCertSource::Pkcs11,
            pin_ui: SigningPinUi::RequiredInApp,
            cert_thumbprint_sha1_hex: signing_cert::sha1_thumbprint_hex(der.as_slice()),
            win_my_key_binding: None,
        },
    )
}

/// The listed objects of a session, in order.
pub open spec fn listed_count(objs: Seq<CertObject>) -> nat
    decreases objs.len(),
{
    if objs.len() == 0 {
        0
    } else {
        listed_count(objs.drop_last()) + if listed(objs.last()) {
            1nat
        } else {
            0nat
        }
    }
}

/// The listed objects of a session, in the order the token lists them.
pub open spec fn listed_objects(objs: Seq<CertObject>) -> Seq<CertObject>
    decreases objs.len(),
{
    if objs.len() == 0 {
        Seq::empty()
    } else if listed(objs.last()) {
        listed_objects(objs.drop_last()).push(objs.last())
    } else {
        listed_objects(objs.drop_last())
    }
}

/// There are as many listed objects as `listed_count` counts.
pub proof fn lemma_listed_objects_len(objs: Seq<CertObject>)
    ensures
        listed_objects(objs).len() == listed_count(objs),
    decreases objs.len(),
{
    if objs.len() > 0 {
        lemma_listed_objects_len(objs.drop_last());
    }
}

/// The signing certificates of a session, in the order the token lists them:
/// the k-th summary is that of the k-th listed object.
pub fn collect_signing_certs(objs: &[CertObject]) -> (r: Vec<SigningCertSummary>)
    ensures
        r@.len() == listed_count(objs@),
        r@.len() == listed_objects(objs@).len(),
        forall|k: int| 0 <= k < r@.len() ==> summary_matches(#[trigger] r@[k], listed_objects(objs@)[k]),
{
    let mut out: Vec<SigningCertSummary> = Vec::new();
    let mut i: usize = 0;
    while i < objs.len()
        invariant
            i <= objs@.len(),
            out@.len() == listed_objects(objs@.take(i as int)).len(),
            forall|k: int|
                0 <= k < out@.len() ==> summary_matches(
                    #[trigger] out@[k],
                    listed_objects(objs@.take(i as int))[k],
                ),
        decreases objs@.len() - i,
    {
        let ghost before = objs@.take(i as int);
        let ghost after = objs@.take(i + 1);
        assert(after.drop_last() =~= before);
        assert(after.last() == objs@[i as int]);
        match signing_cert_from_object(&objs[i]) {
            Some(s) => {
                out.push(s);
                assert(listed_objects(after) == listed_objects(before).push(objs@[i as int]));
            },
            None => {
                assert(listed_objects(after) == listed_objects(before));
            },
        }
        i += 1;
    }
    assert(objs@.take(objs@.len() as int) =~= objs@);
    proof {
        lemma_listed_objects_len(objs@);
    }
    out
}

/// The counts of a diagnostic probe: certificate objects found, and those
/// among them that are signing certificates.
pub fn count_x509(objs: &[CertObject]) -> (r: (usize, usize))
    ensures
        r.0 == objs@.len(),
        r.1 == listed_count(objs@),
{
    let mut signing: usize = 0;
    let mut i: usize = 0;
    while i < objs.len()
        invariant
            i <= objs@.len(),
            signing == listed_count(objs@.take(i as int)),
            signing <= i,
        decreases objs@.len() - i,
    {
        assert(objs@.take(i + 1).drop_last() =~= objs@.take(i as int));
        let listed_now = match &objs[i].value {
            Some(d) => x509::der_is_signing_certificate(d.as_slice()),
            None => false,
        };
        if listed_now {
            signing += 1;
        }
        i += 1;
    }
    assert(objs@.take(objs@.len() as int) =~= objs@);
    (objs.len(), signing)
}

/// A listed object answers to `cert_id_hex` when its listed id equals the
/// trimmed id, ASCII case ignored.
pub open spec fn answers_to(o: CertObject, cert_id_hex: Seq<char>) -> bool {
    listed(o) && text::eq_ignore_case(
        pkcs11_support::cert_id_text(opt_bytes(o.id), o.value->Some_0@),
        text::trim(cert_id_hex),
    )
}

/// The raw id of a matched object: its `CKA_ID`, else the first 32 bytes of its DER.
pub open spec fn raw_id_of(o: CertObject) -> Seq<u8> {
    match o.id {
        Some(i) => i@,
        None => {
            let der = o.value->Some_0@;
            der.take(if der.len() < 32 { der.len() as int } else { 32 })
        },
    }
}

/// The certificate a listed id names among the session's objects (the first
/// that answers to it), with its DER and its raw id.
pub fn find_cert_by_listed_id(objs: &[CertObject], cert_id_hex: &str) -> (r: Option<(Vec<u8>, Vec<u8>)>)
    ensures
        match r {
            Some((der, raw)) => exists|i: int|
                0 <= i < objs@.len() && answers_to(#[trigger] objs@[i], cert_id_hex@) && (forall|j: int|
                    0 <= j < i ==> !answers_to(#[trigger] objs@[j], cert_id_hex@)) && opt_bytes(
                    objs@[i].value,
                ) == Some(der@) && raw@ == raw_id_of(objs@[i]),
            None => forall|i: int| 0 <= i < objs@.len() ==> !answers_to(#[trigger] objs@[i], cert_id_hex@),
        },
{
    let wanted = text::trim_chars(&text::chars_of(cert_id_hex));
    let mut i: usize = 0;
    while i < objs.len()
        invariant
            i <= objs@.len(),
            wanted@ == text::trim(cert_id_hex@),
            forall|j: int| 0 <= j < i ==> !answers_to(#[trigger] objs@[j], cert_id_hex@),
        decreases objs@.len() - i,
    {
        let o = &objs[i];
        if let Some(der) = &o.value {
            if x509::der_is_signing_certificate(der.as_slice()) {
                let id_hex = pkcs11_support::cert_id_hex_for(opt_slice(&o.id), der.as_slice());
                if text::eq_ignore_case_exec(&text::chars_of(id_hex.as_str()), &wanted) {
                    let raw = match &o.id {
                        Some(id) => copy_bytes(id.as_slice(), id.len()),
                        None => copy_bytes(der.as_slice(), if der.len() < 32 { der.len() } else { 32 }),
                    };
                    let d = copy_bytes(der.as_slice(), der.len());
                    assert(der@.take(der@.len() as int) =~= der@);
                    proof {
                        if o.id is Some {
                            assert(o.id->Some_0@.take(o.id->Some_0@.len() as int) =~= o.id->Some_0@);
                        }
                    }
                    assert(answers_to(objs@[i as int], cert_id_hex@));
                    assert(raw@ == raw_id_of(objs@[i as int]));
                    return Some((d, raw));
                }
            }
        }
        i += 1;
    }
    None
}

fn copy_bytes(b: &[u8], n: usize) -> (r: Vec<u8>)
    requires
        n <= b@.len(),
    ensures
        r@ == b@.take(n as int),
{
    let mut v: Vec<u8> = Vec::new();
    let mut i: usize = 0;
    while i < n
        invariant
            i <= n <= b@.len(),
            v@ == b@.take(i as int),
        decreases n - i,
    {
        v.push(b[i]);
        i += 1;
        assert(v@ =~= b@.take(i as int));
    }
    v
}

/// Opening a session is tried once more only when the driver has not yet
/// recognised the token (two attempts in all).
pub fn retry_session_open(attempt: u32, err: &str) -> (r: bool)
    ensures
        r == (attempt == 0 && pkcs11_support::token_not_recognized(err@)),
{
    attempt == 0 && pkcs11_support::session_error_token_not_recognized(err)
}

/// Modules tried in a routine certificate listing.
pub const MAX_MODULES_ROUTINE_LIST: usize = 2;

/// The certificates gathered across driver modules: scanning stops after
/// two modules, or as soon as a chip certificate has been found.
#[derive(Debug)]
pub struct ModuleScanMerge {
    pub merged: Vec<SigningCertSummary>,
    pub seen: Vec<String>,
    pub saw_token_not_recognized: bool,
    pub modules_scanned: usize,
}

pub open spec fn any_chip(v: Seq<SigningCertSummary>) -> bool {
    exists|i: int| 0 <= i < v.len() && (#[trigger] v[i]).source == SigningCertSource::Pkcs11
}

impl ModuleScanMerge {
    pub fn start() -> (r: Self)
        ensures
            r.merged@.len() == 0,
            r.seen@.len() == 0,
            !r.saw_token_not_recognized,
            r.modules_scanned == 0,
    {
        ModuleScanMerge { merged: Vec::new(), seen: Vec::new(), saw_token_not_recognized: false, modules_scanned: 0 }
    }

    /// Whether another module should be scanned.
    pub fn wants_more(&self) -> (r: bool)
        ensures
            r == (self.modules_scanned < MAX_MODULES_ROUTINE_LIST && !any_chip(self.merged@)),
    {
        if self.modules_scanned >= MAX_MODULES_ROUTINE_LIST {
            return false;
        }
        let mut i: usize = 0;
        while i < self.merged.len()
            invariant
                i <= self.merged@.len(),
                forall|j: int| 0 <= j < i ==> (#[trigger] self.merged@[j]).source != SigningCertSource::Pkcs11,
            decreases self.merged@.len() - i,
        {
            if self.merged[i].source == SigningCertSource::Pkcs11 {
                return false;
            }
            i += 1;
        }
        true
    }

    /// Adds one module's scan: its certificates (merged by id) and the
    /// session errors of its slots.
    pub fn add_module(&mut self, certs: Vec<SigningCertSummary>, slot_errors: &[String])
        requires
            old(self).modules_scanned < usize::MAX,
        ensures
            final(self).modules_scanned == old(self).modules_scanned + 1,
            final(self).saw_token_not_recognized == (old(self).saw_token_not_recognized || exists|i: int|
                0 <= i < slot_errors@.len() && pkcs11_support::token_not_recognized(
                    #[trigger] slot_errors@[i]@,
                )),
            (pkcs11_support::ids_of(final(self).merged@), pkcs11_support::strs(final(self).seen@).to_set())
                == pkcs11_support::merge_step(
                pkcs11_support::ids_of(old(self).merged@),
                pkcs11_support::strs(old(self).seen@).to_set(),
                pkcs11_support::ids_of(certs@),
            ),
            (final(self).merged@, pkcs11_support::strs(final(self).seen@).to_set()) == pkcs11_support::merge_certs(
                old(self).merged@,
                pkcs11_support::strs(old(self).seen@).to_set(),
                certs@,
            ),
    {
        let mut saw = self.saw_token_not_recognized;
        let mut i: usize = 0;
        while i < slot_errors.len()
            invariant
                i <= slot_errors@.len(),
                saw == (old(self).saw_token_not_recognized || exists|j: int|
                    0 <= j < i && pkcs11_support::token_not_recognized(#[trigger] slot_errors@[j]@)),
            decreases slot_errors@.len() - i,
        {
            if pkcs11_support::session_error_token_not_recognized(slot_errors[i].as_str()) {
                saw = true;
            }
            i += 1;
        }
        self.saw_token_not_recognized = saw;
        pkcs11_support::merge_signing_cert_summaries(&mut self.merged, certs, &mut self.seen);
        self.modules_scanned = self.modules_scanned + 1;
    }
}

} // verus!
