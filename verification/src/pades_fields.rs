//! The content of the signature that is added to a PDF: the signature
//! dictionary and its widget, the text of the visible appearance, the
//! name of the new field and the size reserved for the CMS blob.

use vstd::prelude::*;
use crate::text;
use vstd::string::StringSliceAdditionalSpecFns;

verus! {

/// One escaped character of a PDF literal string.
pub open spec fn escape_char(c: char) -> Seq<char> {
    if c == '\\' {
        seq!['\\', '\\']
    } else if c == '(' {
        seq!['\\', '(']
    } else if c == ')' {
        seq!['\\', ')']
    } else {
        seq![c]
    }
}

/// A PDF literal string's content: `\`, `(` and `)` escaped with a backslash.
pub open spec fn pdf_escaped(s: Seq<char>) -> Seq<char>
    decreases s.len(),
{
    if s.len() == 0 {
        seq![]
    } else {
        pdf_escaped(s.drop_last()) + escape_char(s.last())
    }
}

/// Escapes text for a PDF literal string.
pub fn pdf_escape_pdf_literal(s: &str) -> (r: String)
    ensures
        r@ == pdf_escaped(s@),
{
    let v = text::chars_of(s);
    let mut out: Vec<char> = Vec::new();
    let mut i: usize = 0;
    while i < v.len()
        invariant
            i <= v@.len(),
            out@ == pdf_escaped(v@.take(i as int)),
        decreases v@.len() - i,
    {
        let c = v[i];
        assert(v@.take(i + 1).drop_last() =~= v@.take(i as int));
        let ghost before = out@;
        if c == '\\' || c == '(' || c == ')' {
            out.push('\\');
        }
        out.push(c);
        assert(out@ =~= before + escape_char(c));
        i += 1;
    }
    assert(v@.take(v@.len() as int) =~= v@);
    text::string_of(&out)
}

/// The decimal text of a signed integer (`i64` as Rust prints it).
pub open spec fn signed_decimal(n: int) -> Seq<char> {
    if n < 0 {
        seq!['-'] + text::decimal((-n) as nat)
    } else {
        text::decimal(n as nat)
    }
}

fn signed_decimal_chars(n: i64) -> (r: Vec<char>)
    requires
        n > i64::MIN,
    ensures
        r@ == signed_decimal(n as int),
{
    if n < 0 {
        let mut v: Vec<char> = Vec::new();
        v.push('-');
        text::append_chars(&mut v, &text::decimal_chars((-n) as u64));
        v
    } else {
        text::decimal_chars(n as u64)
    }
}

pub open spec fn abs(n: int) -> int {
    if n < 0 {
        -n
    } else {
        n
    }
}

/// The content stream of the text appearance of a signature whose widget
/// is `rect`: a light box over the whole widget, then "Firma digital
/// PAdES", the signer's name and the date, each on its own line.
pub open spec fn appearance_text(rect: [i64; 4], name: Seq<char>, now: Seq<char>) -> Seq<char> {
    let w = abs(rect[2] - rect[0]);
    let h = abs(rect[3] - rect[1]);
    "q 0.97 0.98 1 rg 0 0 "@ + text::decimal(w as nat) + " "@ + text::decimal(h as nat)
        + " re f Q BT /F1 7 Tf 0.22 0.24 0.3 rg 8 "@ + signed_decimal(h - 13)
        + " Td (Firma digital PAdES) Tj /F1 8 Tf 0.07 0.09 0.14 rg 0 -12 Td ("@ + pdf_escaped(name)
        + ") Tj /F1 6.5 Tf 0.4 0.42 0.46 rg 0 -10 Td ("@ + pdf_escaped(now) + ") Tj ET"@
}

/// The text appearance stream (`now` is the local date, `dd/mm/YYYY HH:MM`).
/// The widget's sides are whole points of at most 2^53, so the widths
/// print as integers.
pub fn appearance_text_content(rect: [i64; 4], signer_name: &str, now: &str) -> (r: String)
    requires
        abs(rect[2] - rect[0]) <= 0x20000000000000,
        abs(rect[3] - rect[1]) <= 0x20000000000000,
    ensures
        r@ == appearance_text(rect, signer_name@, now@),
{
    let dx: i64 = rect[2] - rect[0];
    let dy: i64 = rect[3] - rect[1];
    let w: i64 = if dx < 0 { -dx } else { dx };
    let h: i64 = if dy < 0 { -dy } else { dy };
    let mut v = text::chars_of("q 0.97 0.98 1 rg 0 0 ");
    text::append_chars(&mut v, &text::decimal_chars(w as u64));
    text::append_chars(&mut v, &text::chars_of(" "));
    text::append_chars(&mut v, &text::decimal_chars(h as u64));
    text::append_chars(&mut v, &text::chars_of(" re f Q BT /F1 7 Tf 0.22 0.24 0.3 rg 8 "));
    text::append_chars(&mut v, &signed_decimal_chars(h - 13));
    text::append_chars(&mut v, &text::chars_of(" Td (Firma digital PAdES) Tj /F1 8 Tf 0.07 0.09 0.14 rg 0 -12 Td ("));
    text::append_chars(&mut v, &text::chars_of(pdf_escape_pdf_literal(signer_name).as_str()));
    text::append_chars(&mut v, &text::chars_of(") Tj /F1 6.5 Tf 0.4 0.42 0.46 rg 0 -10 Td ("));
    text::append_chars(&mut v, &text::chars_of(pdf_escape_pdf_literal(now).as_str()));
    text::append_chars(&mut v, &text::chars_of(") Tj ET"));
    text::string_of(&v)
}

pub open spec fn all_ascii(s: Seq<char>) -> bool {
    forall|i: int| 0 <= i < s.len() ==> (#[trigger] s[i] as u32) < 128
}

/// The `/M` date of a signature (ISO 32000: `D:YYYYMMDDHHMMSS±HH'MM'`) from
/// the local time stamp and its UTC offset (`±HHMM`); `Z` when the offset
/// is shorter than five characters.
pub open spec fn signing_time(stamp: Seq<char>, offset: Seq<char>) -> Seq<char> {
    if offset.len() >= 5 {
        stamp + offset.subrange(0, 3) + "'"@ + offset.subrange(3, 5) + "'"@
    } else {
        stamp + "Z"@
    }
}

pub fn pdf_signing_time(stamp: &str, offset: &str) -> (r: String)
    requires
        all_ascii(offset@),
    ensures
        r@ == signing_time(stamp@, offset@),
{
    let mut v = text::chars_of(stamp);
    let o = text::chars_of(offset);
    if o.len() >= 5 {
        text::append_chars(&mut v, &text::slice_chars(&o, 0, 3));
        text::append_chars(&mut v, &text::chars_of("'"));
        text::append_chars(&mut v, &text::slice_chars(&o, 3, 5));
        text::append_chars(&mut v, &text::chars_of("'"));
    } else {
        text::append_chars(&mut v, &text::chars_of("Z"));
    }
    text::string_of(&v)
}

/// The local time as the signature shows it: the date for the appearance
/// (`%d/%m/%Y %H:%M`), the stamp for `/M` (`D:%Y%m%d%H%M%S`) and the UTC
/// offset (`%z`).
#[derive(Debug)]
pub struct LocalNowTexts {
    pub display: String,
    pub stamp: String,
    pub offset: String,
}

/// The stamp chrono writes for `D:%Y%m%d%H%M%S`: the literal `D:`, then the date.
pub open spec fn is_pdf_stamp(stamp: Seq<char>) -> bool {
    stamp.len() >= 2 && stamp.take(2) == "D:"@
}

/// What chrono writes for `%z`: a sign, then the hours and minutes as two
/// digits each (`+hhmm`).
pub open spec fn is_utc_offset(offset: Seq<char>) -> bool {
    &&& offset.len() == 5
    &&& offset[0] == '+' || offset[0] == '-'
    &&& forall|i: int| 1 <= i < 5 ==> '0' <= #[trigger] offset[i] <= '9'
}

/// `chrono::Local::now()` formatted three ways. The values are the time at
/// the call. Stated is only their shape, as chrono writes it: the display
/// begins with the two-digit day and `/`, the stamp begins with the literal
/// `D:`, and the offset is `+hhmm` or `-hhmm`.
#[verifier::external_body]
fn local_now_texts() -> (r: LocalNowTexts)
    ensures
        r.display@.len() >= 3 && r.display@[2] == '/',
        is_pdf_stamp(r.stamp@),
        is_utc_offset(r.offset@),
{
    let now = chrono::Local::now();
    LocalNowTexts {
        display: now.format("%d/%m/%Y %H:%M").to_string(),
        stamp: now.format("D:%Y%m%d%H%M%S").to_string(),
        offset: now.format("%z").to_string(),
    }
}

/// The appearance date and the `/M` value for a signature made now: the
/// `/M` value is the stamp of the local time followed by its offset as
/// `+hh'mm'`.
pub fn signature_times_now() -> (r: (String, String))
    ensures
        r.0@.len() > 0,
        r.1@.take(2) == "D:"@,
        exists|stamp: Seq<char>, offset: Seq<char>|
            is_pdf_stamp(stamp) && is_utc_offset(offset) && r.1@ == #[trigger] signing_time(stamp, offset),
{
    let t = local_now_texts();
    proof {
        assert forall|i: int| 0 <= i < t.offset@.len() implies (t.offset@[i] as u32) < 128 by {}
    }
    let m = pdf_signing_time(t.stamp.as_str(), t.offset.as_str());
    assert(m@.take(2) =~= t.stamp@.take(2));
    (t.display, m)
}

/// What the signature count reads of one dictionary of the document: its
/// `/Type` and `/SubFilter` when they are names.
#[derive(Debug)]
pub struct DictFacts {
    pub dict_type: Option<Vec<u8>>,
    pub sub_filter: Option<Vec<u8>>,
}

/// A signature dictionary: `/Type /Sig` with a detached CMS sub-filter.
pub open spec fn is_signature_dict(d: DictFacts) -> bool {
    &&& d.dict_type matches Some(t) && t@ == seq![83u8, 105, 103]
    &&& d.sub_filter matches Some(f) && (f@ == seq![
        97u8, 100, 98, 101, 46, 112, 107, 99, 115, 55, 46, 100, 101, 116, 97, 99, 104, 101, 100,
    ] || f@ == seq![69u8, 84, 83, 73, 46, 67, 65, 100, 69, 83, 46, 100, 101, 116, 97, 99, 104, 101, 100])
}

pub open spec fn count_sig(ds: Seq<DictFacts>) -> nat
    decreases ds.len(),
{
    if ds.len() == 0 {
        0
    } else {
        count_sig(ds.drop_last()) + if is_signature_dict(ds.last()) {
            1nat
        } else {
            0nat
        }
    }
}

fn bytes_eq(a: &[u8], b: &[u8]) -> (r: bool)
    ensures
        r == (a@ == b@),
{
    if a.len() != b.len() {
        return false;
    }
    let mut i: usize = 0;
    while i < a.len()
        invariant
            a@.len() == b@.len(),
            i <= a@.len(),
            forall|j: int| 0 <= j < i ==> a@[j] == b@[j],
        decreases a@.len() - i,
    {
        if a[i] != b[i] {
            return false;
        }
        i += 1;
    }
    assert(a@ =~= b@);
    true
}

fn is_signature_dict_exec(d: &DictFacts) -> (r: bool)
    ensures
        r == is_signature_dict(*d),
{
    let sig: [u8; 3] = [83, 105, 103];
    let adbe: [u8; 19] = [97, 100, 98, 101, 46, 112, 107, 99, 115, 55, 46, 100, 101, 116, 97, 99, 104, 101, 100];
    let etsi: [u8; 19] = [69, 84, 83, 73, 46, 67, 65, 100, 69, 83, 46, 100, 101, 116, 97, 99, 104, 101, 100];
    let type_ok = match &d.dict_type {
        Some(t) => bytes_eq(t.as_slice(), &sig),
        None => false,
    };
    let sub_ok = match &d.sub_filter {
        Some(f) => bytes_eq(f.as_slice(), &adbe) || bytes_eq(f.as_slice(), &etsi),
        None => false,
    };
    proof {
        assert(sig@ =~= seq![83u8, 105, 103]);
        assert(adbe@ =~= seq![
            97u8, 100, 98, 101, 46, 112, 107, 99, 115, 55, 46, 100, 101, 116, 97, 99, 104, 101, 100,
        ]);
        assert(etsi@ =~= seq![69u8, 84, 83, 73, 46, 67, 65, 100, 69, 83, 46, 100, 101, 116, 97, 99, 104, 101, 100]);
    }
    type_ok && sub_ok
}

/// How many signature dictionaries (`/Type /Sig`, sub-filter
/// `adbe.pkcs7.detached` or `ETSI.CAdES.detached`) a document already has.
pub fn count_signature_dictionaries(dicts: &[DictFacts]) -> (r: usize)
    ensures
        r == count_sig(dicts@),
{
    let mut n: usize = 0;
    let mut i: usize = 0;
    while i < dicts.len()
        invariant
            i <= dicts@.len(),
            n == count_sig(dicts@.take(i as int)),
            n <= i,
        decreases dicts@.len() - i,
    {
        assert(dicts@.take(i + 1).drop_last() =~= dicts@.take(i as int));
        if is_signature_dict_exec(&dicts[i]) {
            n += 1;
        }
        i += 1;
    }
    assert(dicts@.take(dicts@.len() as int) =~= dicts@);
    n
}

/// `Signature{n}`, `n` one more than the signatures already present (saturating).
pub open spec fn field_name_text(count: nat) -> Seq<char> {
    "Signature"@ + text::decimal(if count >= usize::MAX { usize::MAX as nat } else { count + 1 })
}

/// The name of the new signature field.
pub fn next_signature_field_name(existing_signatures: usize) -> (r: String)
    ensures
        r@ == field_name_text(existing_signatures as nat),
{
    let n: usize = if existing_signatures == usize::MAX { usize::MAX } else { existing_signatures + 1 };
    let mut v = text::chars_of("Signature");
    text::append_chars(&mut v, &text::decimal_chars(n as u64));
    text::string_of(&v)
}

/// The `/Type` and `/SubFilter` names of a dictionary, as bytes.
pub open spec fn facts_view(d: DictFacts) -> (Option<Seq<u8>>, Option<Seq<u8>>) {
    (
        match d.dict_type {
            Some(t) => Some(t@),
            None => None,
        },
        match d.sub_filter {
            Some(f) => Some(f@),
            None => None,
        },
    )
}

pub open spec fn object_view(o: Option<DictFacts>) -> Option<(Option<Seq<u8>>, Option<Seq<u8>>)> {
    match o {
        Some(d) => Some(facts_view(d)),
        None => None,
    }
}

/// What lopdf reads of a PDF file: `None` when `Document::load_mem` refuses
/// the bytes; else, for each object in id order, `None` when it is not a
/// dictionary, or its `/Type` and `/SubFilter` when they are names.
pub uninterp spec fn pdf_object_facts_of(pdf: Seq<u8>) -> Option<Seq<Option<(Option<Seq<u8>>, Option<Seq<u8>>)>>>;

/// `lopdf::Document::load_mem`, then each object of `Document::objects`
/// (a `BTreeMap`, so in id order) as its dictionary facts. Only that the
/// result is the named reading of these bytes is stated.
#[verifier::external_body]
fn pdf_object_facts(pdf: &[u8]) -> (r: Option<Vec<Option<DictFacts>>>)
    ensures
        match r {
            None => pdf_object_facts_of(pdf@) is None,
            Some(v) => pdf_object_facts_of(pdf@) == Some(v@.map_values(|o: Option<DictFacts>| object_view(o))),
        },
{
    let doc = lopdf::Document::load_mem(pdf).ok()?;
    Some(doc.objects.values().map(|o| match o {
        lopdf::Object::Dictionary(d) => Some(DictFacts {
            dict_type: match d.get(b"Type") { Ok(lopdf::Object::Name(n)) => Some(n.clone()), _ => None },
            sub_filter: match d.get(b"SubFilter") { Ok(lopdf::Object::Name(n)) => Some(n.clone()), _ => None },
        }),
        _ => None,
    }).collect())
}

/// A signature dictionary, from its names (as `is_signature_dict`).
pub open spec fn is_signature_facts(f: (Option<Seq<u8>>, Option<Seq<u8>>)) -> bool {
    &&& f.0 == Some(seq![83u8, 105, 103])
    &&& f.1 == Some(seq![97u8, 100, 98, 101, 46, 112, 107, 99, 115, 55, 46, 100, 101, 116, 97, 99, 104, 101, 100])
        || f.1 == Some(seq![69u8, 84, 83, 73, 46, 67, 65, 100, 69, 83, 46, 100, 101, 116, 97, 99, 104, 101, 100])
}

/// How many objects of a document are signature dictionaries.
pub open spec fn count_sig_objects(objs: Seq<Option<(Option<Seq<u8>>, Option<Seq<u8>>)>>) -> nat
    decreases objs.len(),
{
    if objs.len() == 0 {
        0
    } else {
        count_sig_objects(objs.drop_last()) + match objs.last() {
            Some(f) => if is_signature_facts(f) {
                1nat
            } else {
                0nat
            },
            None => 0nat,
        }
    }
}

/// The name of the new signature field of a PDF file, from the signature
/// dictionaries it already has; `None` when lopdf cannot load the file.
pub fn signature_field_name_for_pdf(pdf: &[u8]) -> (r: Option<String>)
    ensures
        match pdf_object_facts_of(pdf@) {
            None => r is None,
            Some(objs) => r matches Some(n) && n@ == field_name_text(count_sig_objects(objs)),
        },
{
    let objs = match pdf_object_facts(pdf) {
        Some(v) => v,
        None => {
            return None;
        },
    };
    let ghost ov = objs@.map_values(|o: Option<DictFacts>| object_view(o));
    let mut n: usize = 0;
    let mut i: usize = 0;
    while i < objs.len()
        invariant
            i <= objs@.len(),
            ov == objs@.map_values(|o: Option<DictFacts>| object_view(o)),
            n == count_sig_objects(ov.take(i as int)),
            n <= i,
        decreases objs@.len() - i,
    {
        assert(ov.take(i + 1).drop_last() =~= ov.take(i as int));
        assert(ov.take(i + 1).last() == object_view(objs@[i as int]));
        match &objs[i] {
            Some(d) => {
                if is_signature_dict_exec(d) {
                    n += 1;
                }
            },
            None => {},
        }
        i += 1;
    }
    assert(ov.take(objs@.len() as int) =~= ov);
    Some(next_signature_field_name(n))
}

/// The objects a signature adds to the document, as values: the signature
/// dictionary (with a zeroed `/Contents` of `contents_len` bytes and a
/// `/ByteRange` placeholder wide enough for the real offsets), the widget
/// annotation and the form flags.
#[derive(Debug)]
pub struct SignaturePlan {
    pub filter: String,
    pub sub_filter: String,
    pub contents_len: usize,
    pub byte_range_placeholder: [i64; 4],
    /// The signer's name, UTF-8, written as a hex string.
    pub name: Vec<u8>,
    pub reason: String,
    pub location: String,
    /// The `/M` date.
    pub signing_time: String,
    pub field_name: String,
    pub rect: [i64; 4],
    /// Widget flags: print and locked (`4 + 128`).
    pub annotation_flags: i64,
    /// AcroForm `/SigFlags`: signatures exist, append only.
    pub sig_flags: i64,
}

pub fn signature_plan(
    contents_len: usize,
    rect: [i64; 4],
    signer_name: &str,
    field_name: String,
    signing_time: String,
) -> (r: SignaturePlan)
    ensures
        r.filter@ == "Adobe.PPKLite"@,
        r.sub_filter@ == "ETSI.CAdES.detached"@,
        r.contents_len == contents_len,
        r.byte_range_placeholder == [0i64, 999999999999999i64, 999999999999999i64, 999999999999999i64],
        r.name@ == signer_name.spec_bytes(),
        r.reason@ == "Soy el autor del documento"@,
        r.location@ == "Peru"@,
        r.signing_time == signing_time,
        r.field_name == field_name,
        r.rect == rect,
        r.annotation_flags == 132,
        r.sig_flags == 3,
{
    let bytes = signer_name.as_bytes();
    let mut name: Vec<u8> = Vec::new();
    let mut i: usize = 0;
    while i < bytes.len()
        invariant
            i <= bytes@.len(),
            name@ == bytes@.take(i as int),
        decreases bytes@.len() - i,
    {
        name.push(bytes[i]);
        i += 1;
        assert(name@ =~= bytes@.take(i as int));
    }
    assert(bytes@.take(bytes@.len() as int) =~= bytes@);
    SignaturePlan {
        filter: String::from_str("Adobe.PPKLite"),
        sub_filter: String::from_str("ETSI.CAdES.detached"),
        contents_len,
        byte_range_placeholder: [0, 999999999999999, 999999999999999, 999999999999999],
        name,
        reason: String::from_str("Soy el autor del documento"),
        location: String::from_str("Peru"),
        signing_time,
        field_name,
        rect,
        annotation_flags: 132,
        sig_flags: 3,
    }
}

/// Size first reserved for the CMS blob.
pub const INITIAL_CMS_RESERVATION: usize = 8192;

/// Attempts before giving up on fitting the CMS blob.
pub const MAX_CMS_ATTEMPTS: u32 = 25;

/// The size reserved for the CMS blob across attempts: sign with the
/// current reservation; if the blob does not fit, retry with its size.
#[derive(Debug, Clone, Copy)]
pub struct CmsReservation {
    pub reserved: usize,
    pub attempts: u32,
}

/// What to do after a signing attempt.
#[derive(Debug, PartialEq, Eq, Structural, Clone, Copy)]
pub enum ReservationStep {
    /// The blob fits: patch it in and write the file.
    Fits,
    /// Build the document again with the new reservation.
    Retry,
    /// Too many attempts.
    GiveUp,
}

pub open spec fn no_convergence_message() -> Seq<char> {
    "no convergió el tamaño reservado para CMS"@
}

impl CmsReservation {
    pub fn start() -> (r: Self)
        ensures
            r.reserved == INITIAL_CMS_RESERVATION,
            r.attempts == 0,
    {
        CmsReservation { reserved: INITIAL_CMS_RESERVATION, attempts: 0 }
    }

    /// Records the size of the blob signed with the current reservation.
    pub fn after_attempt(&mut self, cms_len: usize) -> (r: ReservationStep)
        requires
            old(self).attempts < MAX_CMS_ATTEMPTS,
        ensures
            cms_len <= old(self).reserved ==> r == ReservationStep::Fits && *final(self) == *old(self),
            cms_len > old(self).reserved ==> final(self).reserved == cms_len && final(self).attempts
                == old(self).attempts + 1 && (r == if final(self).attempts < MAX_CMS_ATTEMPTS {
                ReservationStep::Retry
            } else {
                ReservationStep::GiveUp
            }),
    {
        if cms_len <= self.reserved {
            return ReservationStep::Fits;
        }
        self.reserved = if cms_len > 4096 { cms_len } else { 4096 };
        if self.reserved != cms_len {
            self.reserved = cms_len;
        }
        self.attempts = self.attempts + 1;
        if self.attempts < MAX_CMS_ATTEMPTS {
            ReservationStep::Retry
        } else {
            ReservationStep::GiveUp
        }
    }
}

/// The reservation only grows, and a retry always reserves at least the
/// size of the blob that did not fit.
pub proof fn law_reservation_grows(before: CmsReservation, after: CmsReservation, cms_len: usize)
    requires
        cms_len > before.reserved,
        after.reserved == cms_len,
    ensures
        after.reserved > before.reserved,
        after.reserved >= cms_len,
{
}

/// `/Type /Sig` as the dictionary facts give it.
pub open spec fn sig_type() -> Seq<u8> {
    seq![83u8, 105, 103]
}

/// The sub-filter `adbe.pkcs7.detached`.
pub open spec fn adbe_pkcs7_detached() -> Seq<u8> {
    seq![97u8, 100, 98, 101, 46, 112, 107, 99, 115, 55, 46, 100, 101, 116, 97, 99, 104, 101, 100]
}

/// The sub-filter `ETSI.CAdES.detached`.
pub open spec fn etsi_cades_detached() -> Seq<u8> {
    seq![69u8, 84, 83, 73, 46, 67, 65, 100, 69, 83, 46, 100, 101, 116, 97, 99, 104, 101, 100]
}

/// Each object adds to the count of existing signatures exactly when it is
/// a `/Type /Sig` dictionary signed with `adbe.pkcs7.detached` or with
/// `ETSI.CAdES.detached`: such an object adds one, any other object (not a
/// dictionary, another type, another or no sub-filter) adds nothing.
pub proof fn law_signature_count_step(
    objs: Seq<Option<(Option<Seq<u8>>, Option<Seq<u8>>)>>,
    o: Option<(Option<Seq<u8>>, Option<Seq<u8>>)>,
)
    ensures
        count_sig_objects(objs.push(Some((Some(sig_type()), Some(adbe_pkcs7_detached()))))) == count_sig_objects(objs) + 1,
        count_sig_objects(objs.push(Some((Some(sig_type()), Some(etsi_cades_detached()))))) == count_sig_objects(objs) + 1,
        count_sig_objects(objs.push(o)) == count_sig_objects(objs) + if (o matches Some((t, f)) && t == Some(sig_type()) && (
            f == Some(adbe_pkcs7_detached()) || f == Some(etsi_cades_detached()))) {
            1int
        } else {
            0int
        },
{
    let a = objs.push(Some((Some(sig_type()), Some(adbe_pkcs7_detached()))));
    let b = objs.push(Some((Some(sig_type()), Some(etsi_cades_detached()))));
    let c = objs.push(o);
    assert(a.drop_last() =~= objs);
    assert(b.drop_last() =~= objs);
    assert(c.drop_last() =~= objs);
}

/// The field name of a PDF counts the same signatures as
/// `count_signature_dictionaries`: over the dictionaries of a document, the
/// object count and the dictionary count agree.
pub proof fn law_field_name_counts_like_dictionaries(dicts: Seq<DictFacts>)
    ensures
        count_sig_objects(dicts.map_values(|d: DictFacts| Some(facts_view(d)))) == count_sig(dicts),
    decreases dicts.len(),
{
    let v = dicts.map_values(|d: DictFacts| Some(facts_view(d)));
    if dicts.len() > 0 {
        law_field_name_counts_like_dictionaries(dicts.drop_last());
        assert(v.drop_last() =~= dicts.drop_last().map_values(|d: DictFacts| Some(facts_view(d))));
        assert(v.last() == Some(facts_view(dicts.last())));
        let d = dicts.last();
        assert(is_signature_facts(facts_view(d)) == is_signature_dict(d));
    }
}

} // verus!
