//! Signing-certificate metadata shown to the user, and the rules that decide
//! which certificates are listed.

use vstd::prelude::*;
use crate::allowed_origins::{split_commas, split_on_commas};
use crate::codec;
use crate::text;

verus! {

/// Prefix of `id_hex` for certificates of the Windows **Current User / MY** store.
pub const WIN_MY_CERT_ID_PREFIX: &'static str = "winmy:";

pub open spec fn win_my_prefix() -> Seq<char> {
    seq!['w', 'i', 'n', 'm', 'y', ':']
}

/// Where the private key of a MY-store certificate lives (Windows only).
#[derive(Debug, Clone, Copy, PartialEq, Eq, Structural)]
pub enum WinMyKeyBinding {
    /// Key on a smart card / reader (referenced from MY).
    SmartCard,
    /// Software key on this machine.
    Software,
    /// Not classified; treated as a card by the visibility policy.
    Unknown,
}

/// Where a certificate of the unified list comes from.
#[derive(Debug, Clone, Copy, PartialEq, Eq, Structural)]
pub enum SigningCertSource {
    Pkcs11,
    WinMy,
}

/// How the PIN field is shown in the app.
#[derive(Debug, Clone, Copy, PartialEq, Eq, Structural)]
pub enum SigningPinUi {
    /// PIN field required in NexoSign (PKCS#11, or keys that need it in the app).
    RequiredInApp,
    /// No PIN in NexoSign; the operating system's crypto is used.
    HiddenUseOsCrypto,
    /// No PIN in the app; Windows or the device may prompt.
    OsMayPrompt,
}

#[derive(Debug)]
pub struct SigningCertSummary {
    /// Hex of `CKA_ID`, else a prefix of the DER; for Windows MY, `winmy:` + SHA-1 hex.
    pub id_hex: String,
    pub label: String,
    /// X.509 subject, as text.
    pub subject_dn: String,
    pub source: SigningCertSource,
    pub pin_ui: SigningPinUi,
    /// SHA-1 of the DER (lower-case hex); lets MY duplicates of a chip certificate be hidden.
    pub cert_thumbprint_sha1_hex: String,
    /// Only for `WinMy`: where the private key lives.
    pub win_my_key_binding: Option<WinMyKeyBinding>,
}

/// `true` if the id belongs to the Windows MY store (never handed to PKCS#11).
pub fn is_win_my_cert_id(cert_id_hex: &str) -> (r: bool)
    ensures
        r == text::starts_with(text::trim(cert_id_hex@), win_my_prefix()),
{
    let v = text::chars_of(cert_id_hex);
    let t = text::trim_chars(&v);
    let p = vec!['w', 'i', 'n', 'm', 'y', ':'];
    assert(p@ =~= win_my_prefix());
    text::occurs_at_exec(&t, &p, 0)
}

/// SHA-1 thumbprint of an X.509 DER (lower-case hex), as Windows MY computes it.
pub fn sha1_thumbprint_hex(der: &[u8]) -> (r: String)
    ensures
        r@ == codec::hex_of(codec::sha1_of(der@), false),
{
    let d = codec::sha1_digest(der);
    codec::hex_encode(d.as_slice())
}

/// The SHA-1 thumbprint spelled by a `winmy:` id: exactly 40 hex digits after the prefix.
pub open spec fn win_my_thumbprint(id: Seq<char>) -> Option<Seq<char>> {
    if text::starts_with(id, win_my_prefix()) {
        let rest = id.skip(6);
        if rest.len() == 40 && forall|i: int| 0 <= i < 40 ==> codec::is_hex_char(#[trigger] rest[i]) {
            Some(text::lower(rest))
        } else {
            None
        }
    } else {
        None
    }
}

fn is_hex_char_exec(c: char) -> (r: bool)
    ensures
        r == codec::is_hex_char(c),
{
    ('0' <= c && c <= '9') || ('a' <= c && c <= 'f') || ('A' <= c && c <= 'F')
}

/// The SHA-1 thumbprint in a `winmy:` + 40 hex id, lower-cased.
pub fn thumbprint_from_win_my_id(cert_id_hex: &str) -> (r: Option<String>)
    ensures
        match r {
            Some(t) => win_my_thumbprint(cert_id_hex@) == Some(t@),
            None => win_my_thumbprint(cert_id_hex@) is None,
        },
{
    let v = text::chars_of(cert_id_hex);
    let p = vec!['w', 'i', 'n', 'm', 'y', ':'];
    assert(p@ =~= win_my_prefix());
    if !text::occurs_at_exec(&v, &p, 0) {
        return None;
    }
    let rest = text::slice_chars(&v, 6, v.len());
    assert(rest@ =~= v@.skip(6));
    if rest.len() != 40 {
        return None;
    }
    let mut i: usize = 0;
    while i < 40
        invariant
            rest@ == cert_id_hex@.skip(6),
            text::starts_with(cert_id_hex@, win_my_prefix()),
            rest@.len() == 40,
            i <= 40,
            forall|j: int| 0 <= j < i ==> codec::is_hex_char(#[trigger] rest@[j]),
        decreases 40 - i,
    {
        if !is_hex_char_exec(rest[i]) {
            return None;
        }
        i += 1;
    }
    let l = text::lower_chars(&rest);
    Some(text::string_of(&l))
}

/// The pieces of a subject used for de-duplication: each comma-separated piece,
/// trimmed and lower-cased, blank pieces dropped.
pub open spec fn key_parts(parts: Seq<Seq<char>>) -> Seq<Seq<char>>
    decreases parts.len(),
{
    if parts.len() == 0 {
        seq![]
    } else {
        let prev = key_parts(parts.drop_last());
        let p = text::lower(text::trim(parts.last()));
        if p.len() == 0 {
            prev
        } else {
            prev.push(p)
        }
    }
}

/// Pieces joined with `,` (`[..].join(",")`).
pub open spec fn join_commas(parts: Seq<Seq<char>>) -> Seq<char>
    decreases parts.len(),
{
    if parts.len() == 0 {
        seq![]
    } else if parts.len() == 1 {
        parts[0]
    } else {
        join_commas(parts.drop_last()) + seq![','] + parts.last()
    }
}

/// Normalised subject used to de-duplicate when the thumbprint is missing.
pub open spec fn dedupe_key(subject_dn: Seq<char>) -> Seq<char> {
    join_commas(key_parts(split_commas(subject_dn)))
}

fn subject_dedupe_key(subject_dn: &str) -> (r: Vec<char>)
    ensures
        r@ == dedupe_key(subject_dn@),
{
    let v = text::chars_of(subject_dn);
    let parts = split_on_commas(&v);
    let ghost pv = parts@.map_values(|x: Vec<char>| x@);
    let mut out: Vec<char> = Vec::new();
    let mut count: usize = 0;
    let mut i: usize = 0;
    assert(pv.take(0) =~= Seq::<Seq<char>>::empty());
    while i < parts.len()
        invariant
            i <= parts@.len(),
            pv == parts@.map_values(|x: Vec<char>| x@),
            out@ == join_commas(key_parts(pv.take(i as int))),
            count == key_parts(pv.take(i as int)).len(),
            count <= i,
        decreases parts@.len() - i,
    {
        assert(pv.take(i + 1).drop_last() =~= pv.take(i as int));
        assert(pv.take(i + 1).last() == parts@[i as int]@);
        let t = text::trim_chars(&parts[i]);
        let l = text::lower_chars(&t);
        if l.len() > 0 {
            let ghost kp = key_parts(pv.take(i as int));
            if count > 0 {
                out.push(',');
            }
            text::append_chars(&mut out, &l);
            proof {
                let kp2 = kp.push(l@);
                assert(kp2.drop_last() =~= kp);
                if count == 0 {
                    assert(kp2 =~= seq![l@]);
                }
            }
            count += 1;
        }
        i += 1;
    }
    assert(pv.take(parts@.len() as int) =~= pv);
    out
}

/// The certificates of `s` for which `keep` holds, in order.
pub open spec fn filter_certs(
    s: Seq<SigningCertSummary>,
    keep: spec_fn(SigningCertSummary) -> bool,
) -> Seq<SigningCertSummary>
    decreases s.len(),
{
    if s.len() == 0 {
        seq![]
    } else {
        let prev = filter_certs(s.drop_last(), keep);
        if keep(s.last()) {
            prev.push(s.last())
        } else {
            prev
        }
    }
}

pub proof fn lemma_filter_certs(s: Seq<SigningCertSummary>, keep: spec_fn(SigningCertSummary) -> bool)
    ensures
        forall|i: int| 0 <= i < filter_certs(s, keep).len() ==> keep(#[trigger] filter_certs(s, keep)[i]),
        forall|i: int| 0 <= i < filter_certs(s, keep).len() ==> s.contains(#[trigger] filter_certs(s, keep)[i]),
        forall|x: SigningCertSummary| s.contains(x) && keep(x) ==> #[trigger] filter_certs(s, keep).contains(x),
        (forall|i: int| 0 <= i < s.len() ==> keep(#[trigger] s[i])) ==> filter_certs(s, keep) == s,
    decreases s.len(),
{
    if s.len() > 0 {
        let t = s.drop_last();
        lemma_filter_certs(t, keep);
        let prev = filter_certs(t, keep);
        assert forall|i: int| 0 <= i < filter_certs(s, keep).len() implies s.contains(
            #[trigger] filter_certs(s, keep)[i],
        ) by {
            if i < prev.len() {
                assert(t.contains(prev[i]));
                let k = choose|k: int| 0 <= k < t.len() && t[k] == prev[i];
                assert(s[k] == prev[i]);
            } else {
                assert(s[s.len() - 1] == s.last());
            }
        }
        assert forall|x: SigningCertSummary| s.contains(x) && keep(x) implies #[trigger] filter_certs(
            s,
            keep,
        ).contains(x) by {
            let k = choose|k: int| 0 <= k < s.len() && s[k] == x;
            if k < s.len() - 1 {
                assert(t[k] == x);
                assert(t.contains(x));
                assert(prev.contains(x));
                let j = choose|j: int| 0 <= j < prev.len() && prev[j] == x;
                assert(filter_certs(s, keep)[j] == x);
            } else {
                assert(filter_certs(s, keep)[prev.len() as int] == x);
            }
        }
        if forall|i: int| 0 <= i < s.len() ==> keep(#[trigger] s[i]) {
            assert forall|i: int| 0 <= i < t.len() implies keep(#[trigger] t[i]) by {
                assert(t[i] == s[i]);
            }
            assert(keep(s[s.len() - 1]));
            assert(s =~= t.push(s.last()));
        }
    }
}

/// Some chip (PKCS#11) certificate of `certs` has thumbprint `t`.
pub open spec fn chip_has_thumbprint(certs: Seq<SigningCertSummary>, t: Seq<char>) -> bool {
    exists|i: int|
        0 <= i < certs.len() && #[trigger] certs[i].source == SigningCertSource::Pkcs11
            && certs[i].cert_thumbprint_sha1_hex@ == t
}

/// Some chip certificate of `certs` has subject key `k`.
pub open spec fn chip_has_subject(certs: Seq<SigningCertSummary>, k: Seq<char>) -> bool {
    exists|i: int|
        0 <= i < certs.len() && #[trigger] certs[i].source == SigningCertSource::Pkcs11
            && dedupe_key(certs[i].subject_dn@) == k
}

/// Whether `c` survives [`dedupe_signing_certs_prefer_pkcs11`] over `certs`.
pub open spec fn kept_by_dedupe(certs: Seq<SigningCertSummary>, c: SigningCertSummary) -> bool {
    ||| c.source != SigningCertSource::WinMy
    ||| {
        let t = c.cert_thumbprint_sha1_hex@;
        let k = dedupe_key(c.subject_dn@);
        &&& !(t.len() > 0 && chip_has_thumbprint(certs, t))
        &&& (k.len() == 0 || !chip_has_subject(certs, k))
    }
}

/// What [`dedupe_signing_certs_prefer_pkcs11`] leaves of `certs`.
pub open spec fn deduped(certs: Seq<SigningCertSummary>) -> Seq<SigningCertSummary> {
    filter_certs(certs, |c: SigningCertSummary| kept_by_dedupe(certs, c))
}

/// Non-blank thumbprints of the chip certificates of `s`, in order.
spec fn chip_thumbs(s: Seq<SigningCertSummary>) -> Seq<Seq<char>>
    decreases s.len(),
{
    if s.len() == 0 {
        seq![]
    } else {
        let prev = chip_thumbs(s.drop_last());
        let c = s.last();
        if c.source == SigningCertSource::Pkcs11 && c.cert_thumbprint_sha1_hex@.len() > 0 {
            prev.push(c.cert_thumbprint_sha1_hex@)
        } else {
            prev
        }
    }
}

/// Non-blank subject keys of the chip certificates of `s`, in order.
spec fn chip_subjects(s: Seq<SigningCertSummary>) -> Seq<Seq<char>>
    decreases s.len(),
{
    if s.len() == 0 {
        seq![]
    } else {
        let prev = chip_subjects(s.drop_last());
        let c = s.last();
        if c.source == SigningCertSource::Pkcs11 && dedupe_key(c.subject_dn@).len() > 0 {
            prev.push(dedupe_key(c.subject_dn@))
        } else {
            prev
        }
    }
}

proof fn lemma_chip_sets(s: Seq<SigningCertSummary>)
    ensures
        forall|t: Seq<char>|
            #[trigger] chip_thumbs(s).contains(t) <==> (t.len() > 0 && chip_has_thumbprint(s, t)),
        forall|k: Seq<char>|
            #[trigger] chip_subjects(s).contains(k) <==> (k.len() > 0 && chip_has_subject(s, k)),
    decreases s.len(),
{
    if s.len() > 0 {
        let p = s.drop_last();
        lemma_chip_sets(p);
        let c = s.last();
        assert forall|t: Seq<char>| #[trigger] chip_thumbs(s).contains(t) <==> (t.len() > 0
            && chip_has_thumbprint(s, t)) by {
            let pt = chip_thumbs(p);
            if chip_thumbs(s).contains(t) {
                let q = choose|q: int| 0 <= q < chip_thumbs(s).len() && chip_thumbs(s)[q] == t;
                if q < pt.len() {
                    assert(pt[q] == t);
                    assert(pt.contains(t));
                    let j = choose|j: int|
                        0 <= j < p.len() && #[trigger] p[j].source == SigningCertSource::Pkcs11
                            && p[j].cert_thumbprint_sha1_hex@ == t;
                    assert(s[j] == p[j]);
                } else {
                    assert(s[s.len() - 1] == c);
                }
            }
            if t.len() > 0 && chip_has_thumbprint(s, t) {
                let j = choose|j: int|
                    0 <= j < s.len() && #[trigger] s[j].source == SigningCertSource::Pkcs11
                        && s[j].cert_thumbprint_sha1_hex@ == t;
                if j < s.len() - 1 {
                    assert(p[j] == s[j]);
                    assert(chip_has_thumbprint(p, t));
                    assert(pt.contains(t));
                    let q = choose|q: int| 0 <= q < pt.len() && pt[q] == t;
                    assert(chip_thumbs(s)[q] == t);
                } else {
                    assert(chip_thumbs(s)[pt.len() as int] == t);
                }
            }
        }
        assert forall|k: Seq<char>| #[trigger] chip_subjects(s).contains(k) <==> (k.len() > 0
            && chip_has_subject(s, k)) by {
            let ps = chip_subjects(p);
            if chip_subjects(s).contains(k) {
                let q = choose|q: int| 0 <= q < chip_subjects(s).len() && chip_subjects(s)[q] == k;
                if q < ps.len() {
                    assert(ps[q] == k);
                    assert(ps.contains(k));
                    let j = choose|j: int|
                        0 <= j < p.len() && #[trigger] p[j].source == SigningCertSource::Pkcs11
                            && dedupe_key(p[j].subject_dn@) == k;
                    assert(s[j] == p[j]);
                } else {
                    assert(s[s.len() - 1] == c);
                }
            }
            if k.len() > 0 && chip_has_subject(s, k) {
                let j = choose|j: int|
                    0 <= j < s.len() && #[trigger] s[j].source == SigningCertSource::Pkcs11
                        && dedupe_key(s[j].subject_dn@) == k;
                if j < s.len() - 1 {
                    assert(p[j] == s[j]);
                    assert(chip_has_subject(p, k));
                    assert(ps.contains(k));
                    let q = choose|q: int| 0 <= q < ps.len() && ps[q] == k;
                    assert(chip_subjects(s)[q] == k);
                } else {
                    assert(chip_subjects(s)[ps.len() as int] == k);
                }
            }
        }
    }
}

fn contains_chars(list: &Vec<Vec<char>>, x: &Vec<char>) -> (r: bool)
    ensures
        r == text::views(list@).contains(x@),
{
    let ghost lv = text::views(list@);
    let mut i: usize = 0;
    while i < list.len()
        invariant
            i <= list@.len(),
            lv == text::views(list@),
            forall|j: int| 0 <= j < i ==> #[trigger] lv[j] != x@,
        decreases list@.len() - i,
    {
        if text::eq_chars(&list[i], x) {
            assert(lv[i as int] == x@);
            return true;
        }
        i += 1;
    }
    false
}

/// When the same certificate is both on the chip (PKCS#11) and in MY, keeps only the reader's entry.
pub fn dedupe_signing_certs_prefer_pkcs11(certs: Vec<SigningCertSummary>) -> (r: Vec<SigningCertSummary>)
    ensures
        r@ == deduped(certs@),
{
    let ghost all = certs@;
    let mut thumbs: Vec<Vec<char>> = Vec::new();
    let mut subjects: Vec<Vec<char>> = Vec::new();
    let mut i: usize = 0;
    assert(all.take(0) =~= Seq::<SigningCertSummary>::empty());
    while i < certs.len()
        invariant
            i <= certs@.len(),
            all == certs@,
            text::views(thumbs@) == chip_thumbs(all.take(i as int)),
            text::views(subjects@) == chip_subjects(all.take(i as int)),
        decreases certs@.len() - i,
    {
        assert(all.take(i + 1).drop_last() =~= all.take(i as int));
        assert(all.take(i + 1).last() == all[i as int]);
        if certs[i].source == SigningCertSource::Pkcs11 {
            let t = text::chars_of(certs[i].cert_thumbprint_sha1_hex.as_str());
            if t.len() > 0 {
                let ghost before = text::views(thumbs@);
                thumbs.push(t);
                assert(text::views(thumbs@) =~= before.push(t@));
            }
            let k = subject_dedupe_key(certs[i].subject_dn.as_str());
            if k.len() > 0 {
                let ghost before = text::views(subjects@);
                subjects.push(k);
                assert(text::views(subjects@) =~= before.push(k@));
            }
        }
        i += 1;
    }
    assert(all.take(all.len() as int) =~= all);
    proof {
        lemma_chip_sets(all);
    }
    let ghost keep = |c: SigningCertSummary| kept_by_dedupe(all, c);
    let mut out: Vec<SigningCertSummary> = Vec::new();
    for c in it: certs.into_iter()
        invariant
            it.seq() == all,
            keep == (|c: SigningCertSummary| kept_by_dedupe(all, c)),
            out@ == filter_certs(it.seq().take(it.index() as int), keep),
            forall|t: Seq<char>|
                #[trigger] text::views(thumbs@).contains(t) <==> (t.len() > 0
                    && chip_has_thumbprint(all, t)),
            forall|k: Seq<char>|
                #[trigger] text::views(subjects@).contains(k) <==> (k.len() > 0
                    && chip_has_subject(all, k)),
    {
        let ghost idx = it.index();
        proof {
            assert(it.seq().take(idx + 1).drop_last() =~= it.seq().take(idx as int));
            assert(it.seq().take(idx + 1).last() == c);
        }
        let keep_it = if c.source != SigningCertSource::WinMy {
            true
        } else {
            let t = text::chars_of(c.cert_thumbprint_sha1_hex.as_str());
            if t.len() > 0 && contains_chars(&thumbs, &t) {
                false
            } else {
                let k = subject_dedupe_key(c.subject_dn.as_str());
                k.len() == 0 || !contains_chars(&subjects, &k)
            }
        };
        assert(keep_it == kept_by_dedupe(all, c));
        assert(keep_it == keep(c));
        if keep_it {
            out.push(c);
        }
    }
    proof {
        assert(all.take(all.len() as int) =~= all);
    }
    out
}

/// Adds the certificates of the Windows MY store to a listing and drops the
/// MY duplicates of chip certificates. `my_store` is what listing the store
/// gave: `None` where there is no such store (the listing is returned as it
/// is), the certificates, or the listing's error (then only the
/// de-duplication is applied).
pub fn append_windows_my_signing_certs(
    v: Vec<SigningCertSummary>,
    my_store: Option<Result<Vec<SigningCertSummary>, String>>,
) -> (r: Vec<SigningCertSummary>)
    ensures
        match my_store {
            None => r@ == v@,
            Some(Ok(w)) => r@ == deduped(v@ + w@),
            Some(Err(_)) => r@ == deduped(v@),
        },
{
    match my_store {
        None => v,
        Some(Ok(w)) => {
            let mut all = v;
            let mut more = w;
            all.append(&mut more);
            dedupe_signing_certs_prefer_pkcs11(all)
        },
        Some(Err(_)) => dedupe_signing_certs_prefer_pkcs11(v),
    }
}

/// `true` if the list holds at least one signing certificate read from the chip (PKCS#11).
pub fn has_pkcs11_signing_cert(certs: &[SigningCertSummary]) -> (r: bool)
    ensures
        r == exists|i: int| 0 <= i < certs@.len() && #[trigger] certs@[i].source == SigningCertSource::Pkcs11,
{
    let mut i: usize = 0;
    while i < certs.len()
        invariant
            i <= certs@.len(),
            forall|j: int| 0 <= j < i ==> #[trigger] certs@[j].source != SigningCertSource::Pkcs11,
        decreases certs@.len() - i,
    {
        if certs[i].source == SigningCertSource::Pkcs11 {
            return true;
        }
        i += 1;
    }
    false
}

/// A certificate that the visibility policy shows when no chip certificate is present.
pub open spec fn visible_without_chip(c: SigningCertSummary) -> bool {
    c.source != SigningCertSource::WinMy || c.win_my_key_binding == Some(WinMyKeyBinding::Software)
}

/// What [`apply_signing_cert_visibility_policy`] leaves of `certs`.
pub open spec fn visible_certs(certs: Seq<SigningCertSummary>) -> Seq<SigningCertSummary> {
    if exists|i: int| 0 <= i < certs.len() && #[trigger] certs[i].source == SigningCertSource::Pkcs11 {
        certs
    } else {
        filter_certs(certs, |c: SigningCertSummary| visible_without_chip(c))
    }
}

/// Hides MY entries bound to a card when the chip is not visible through PKCS#11.
pub fn apply_signing_cert_visibility_policy(certs: Vec<SigningCertSummary>) -> (r: Vec<SigningCertSummary>)
    ensures
        r@ == visible_certs(certs@),
{
    if has_pkcs11_signing_cert(certs.as_slice()) {
        return certs;
    }
    let ghost all = certs@;
    let ghost keep = |c: SigningCertSummary| visible_without_chip(c);
    let mut out: Vec<SigningCertSummary> = Vec::new();
    for c in it: certs.into_iter()
        invariant
            it.seq() == all,
            keep == (|c: SigningCertSummary| visible_without_chip(c)),
            out@ == filter_certs(it.seq().take(it.index() as int), keep),
    {
        let ghost idx = it.index();
        proof {
            assert(it.seq().take(idx + 1).drop_last() =~= it.seq().take(idx as int));
            assert(it.seq().take(idx + 1).last() == c);
        }
        let show = match c.source {
            SigningCertSource::Pkcs11 => true,
            SigningCertSource::WinMy => match c.win_my_key_binding {
                Some(WinMyKeyBinding::Software) => true,
                _ => false,
            },
        };
        assert(show == visible_without_chip(c));
        assert(show == keep(c));
        if show {
            out.push(c);
        }
    }
    proof {
        assert(all.take(all.len() as int) =~= all);
    }
    out
}

/// De-duplication keeps every chip certificate, and drops every MY certificate
/// whose non-blank thumbprint matches a chip certificate.
pub proof fn law_dedupe_prefers_chip(certs: Seq<SigningCertSummary>)
    ensures
        forall|c: SigningCertSummary|
            certs.contains(c) && c.source == SigningCertSource::Pkcs11 ==> #[trigger] deduped(
                certs,
            ).contains(c),
        forall|i: int|
            0 <= i < deduped(certs).len() ==> {
                let c = #[trigger] deduped(certs)[i];
                c.source == SigningCertSource::WinMy && c.cert_thumbprint_sha1_hex@.len() > 0
                    ==> !chip_has_thumbprint(certs, c.cert_thumbprint_sha1_hex@)
            },
{
    lemma_filter_certs(certs, |x: SigningCertSummary| kept_by_dedupe(certs, x));
}

/// Removing duplicate certificates a second time changes nothing.
pub proof fn law_dedupe_idempotent(certs: Seq<SigningCertSummary>)
    ensures
        deduped(deduped(certs)) == deduped(certs),
{
    let d = deduped(certs);
    let keep_c = |x: SigningCertSummary| kept_by_dedupe(certs, x);
    let keep_d = |x: SigningCertSummary| kept_by_dedupe(d, x);
    lemma_filter_certs(certs, keep_c);
    assert(d == filter_certs(certs, keep_c));
    assert forall|t: Seq<char>| chip_has_thumbprint(d, t) <==> chip_has_thumbprint(certs, t) by {
        if chip_has_thumbprint(d, t) {
            let i = choose|i: int|
                0 <= i < d.len() && #[trigger] d[i].source == SigningCertSource::Pkcs11
                    && d[i].cert_thumbprint_sha1_hex@ == t;
            assert(certs.contains(d[i]));
            let j = choose|j: int| 0 <= j < certs.len() && certs[j] == d[i];
            assert(certs[j].source == SigningCertSource::Pkcs11);
        }
        if chip_has_thumbprint(certs, t) {
            let j = choose|j: int|
                0 <= j < certs.len() && #[trigger] certs[j].source == SigningCertSource::Pkcs11
                    && certs[j].cert_thumbprint_sha1_hex@ == t;
            assert(certs.contains(certs[j]));
            assert(keep_c(certs[j]));
            assert(d.contains(certs[j]));
            let i = choose|i: int| 0 <= i < d.len() && d[i] == certs[j];
            assert(d[i].source == SigningCertSource::Pkcs11);
        }
    }
    assert forall|k: Seq<char>| chip_has_subject(d, k) <==> chip_has_subject(certs, k) by {
        if chip_has_subject(d, k) {
            let i = choose|i: int|
                0 <= i < d.len() && #[trigger] d[i].source == SigningCertSource::Pkcs11
                    && dedupe_key(d[i].subject_dn@) == k;
            assert(certs.contains(d[i]));
            let j = choose|j: int| 0 <= j < certs.len() && certs[j] == d[i];
            assert(certs[j].source == SigningCertSource::Pkcs11);
        }
        if chip_has_subject(certs, k) {
            let j = choose|j: int|
                0 <= j < certs.len() && #[trigger] certs[j].source == SigningCertSource::Pkcs11
                    && dedupe_key(certs[j].subject_dn@) == k;
            assert(certs.contains(certs[j]));
            assert(keep_c(certs[j]));
            assert(d.contains(certs[j]));
            let i = choose|i: int| 0 <= i < d.len() && d[i] == certs[j];
            assert(d[i].source == SigningCertSource::Pkcs11);
        }
    }
    assert forall|i: int| 0 <= i < d.len() implies keep_d(#[trigger] d[i]) by {
        assert(keep_c(d[i]));
    }
    lemma_filter_certs(d, keep_d);
    assert(deduped(d) == filter_certs(d, keep_d));
}

/// With a chip certificate present, the visibility policy changes nothing;
/// without one, every MY entry it shows has a software key; and applying it
/// twice is the same as applying it once.
pub proof fn law_visibility_policy(certs: Seq<SigningCertSummary>)
    ensures
        (exists|i: int| 0 <= i < certs.len() && #[trigger] certs[i].source == SigningCertSource::Pkcs11)
            ==> visible_certs(certs) == certs,
        forall|i: int|
            0 <= i < visible_certs(certs).len() && !(exists|j: int|
                0 <= j < certs.len() && #[trigger] certs[j].source == SigningCertSource::Pkcs11)
                ==> visible_without_chip(#[trigger] visible_certs(certs)[i]),
        visible_certs(visible_certs(certs)) == visible_certs(certs),
{
    let keep = |c: SigningCertSummary| visible_without_chip(c);
    lemma_filter_certs(certs, keep);
    let v = visible_certs(certs);
    if !(exists|i: int| 0 <= i < certs.len() && #[trigger] certs[i].source == SigningCertSource::Pkcs11) {
        lemma_filter_certs(v, keep);
        if exists|i: int| 0 <= i < v.len() && #[trigger] v[i].source == SigningCertSource::Pkcs11 {
            let i = choose|i: int| 0 <= i < v.len() && #[trigger] v[i].source == SigningCertSource::Pkcs11;
            assert(certs.contains(v[i]));
        }
    }
}

} // verus!
