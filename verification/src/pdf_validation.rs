//! Validation of the PDF paths of a batch (local HTTP API and app commands).
//!
//! The file system is read by the caller, which hands over what it found for
//! each path in a [`PdfFileProbe`]; the rules that decide are here.

use vstd::prelude::*;
use crate::paths;
use crate::text;

verus! {

/// Largest PDF accepted in a batch (50 MiB).
pub const MAX_BATCH_PDF_BYTES: u64 = 52428800;

/// Most PDFs in a multipart intent (and the factor of the total size cap).
pub const MAX_PDFS_PER_BATCH_INTENT: usize = 20;

/// Largest total size of the PDFs of a multipart intent (20 × 50 MiB).
pub const MAX_TOTAL_BATCH_INTENT_BYTES: u64 = 1048576000;

/// Metadata of a path, as `std::fs::metadata` reports it.
#[derive(Debug, Clone, Copy)]
pub struct FileMeta {
    pub is_file: bool,
    pub len: u64,
}

/// What the file system said about one path: its metadata (or the error's
/// text) and its first bytes (at most 16; or the read error's text).
#[derive(Debug)]
pub struct PdfFileProbe {
    pub metadata: Result<FileMeta, String>,
    pub prefix: Result<Vec<u8>, String>,
}

/// A path of the batch that failed validation (the UI can load the rest).
#[derive(Debug, Clone)]
pub struct RejectedPdfPath {
    pub path: String,
    pub reason: String,
}

pub open spec fn pdf_magic() -> Seq<u8> {
    seq![37u8, 80, 68, 70]
}

/// `%PDF` at offset 0, else the reason.
pub open spec fn magic_check(prefix: Seq<u8>) -> Result<(), Seq<char>> {
    if prefix.len() < 4 {
        Err("cabecera PDF incompleta (se espera %PDF)"@)
    } else if prefix.subrange(0, 4) != pdf_magic() {
        Err("no es un PDF válido (cabecera %PDF esperada)"@)
    } else {
        Ok(())
    }
}

/// Size limit, then `%PDF` magic.
pub open spec fn magic_and_size_check(len: u64, prefix: Seq<u8>) -> Result<(), Seq<char>> {
    if len > MAX_BATCH_PDF_BYTES {
        Err("demasiado grande (máx. 50 MiB por archivo)"@)
    } else {
        magic_check(prefix)
    }
}

/// The outcome of [`validate_single_pdf_input`] for path `p` and probe facts.
pub open spec fn single_check(
    p: Seq<char>,
    metadata: Result<(bool, u64), Seq<char>>,
    prefix: Result<Seq<u8>, Seq<char>>,
) -> Result<(), Seq<char>> {
    if !paths::is_absolute_path(p) {
        Err("la ruta debe ser absoluta (recibido: "@ + p + ")"@)
    } else {
        match metadata {
            Err(e) => Err(p + ": "@ + e),
            Ok((is_file, len)) => if !is_file {
                Err("no es un archivo regular: "@ + p)
            } else if len > MAX_BATCH_PDF_BYTES {
                Err("demasiado grande (máx. 50 MiB): "@ + p)
            } else if !(match paths::extension_of(p) {
                Some(e) => text::eq_ignore_case(e, "pdf"@),
                None => false,
            }) {
                Err("solo se admiten .pdf: "@ + p)
            } else {
                match prefix {
                    Err(e) => Err(p + ": "@ + e),
                    Ok(b) => match magic_check(b) {
                        Ok(()) => Ok(()),
                        Err(m) => Err(p + ": "@ + m),
                    },
                }
            },
        }
    }
}

/// The plain facts of a probe.
pub open spec fn probe_facts(probe: PdfFileProbe) -> (Result<(bool, u64), Seq<char>>, Result<Seq<u8>, Seq<char>>) {
    (
        match probe.metadata {
            Ok(m) => Ok((m.is_file, m.len)),
            Err(e) => Err(e@),
        },
        match probe.prefix {
            Ok(b) => Ok(b@),
            Err(e) => Err(e@),
        },
    )
}

pub open spec fn result_text(r: Result<(), String>) -> Result<(), Seq<char>> {
    match r {
        Ok(()) => Ok(()),
        Err(e) => Err(e@),
    }
}

fn text_of(parts: &[&str]) -> (r: String)
    ensures
        r@ == text::concat_all(parts@.map_values(|s: &str| s@)),
{
    let mut v: Vec<char> = Vec::new();
    let mut i: usize = 0;
    while i < parts.len()
        invariant
            i <= parts@.len(),
            v@ == text::concat_all(parts@.map_values(|s: &str| s@).take(i as int)),
        decreases parts@.len() - i,
    {
        let ghost before = v@;
        text::append_chars(&mut v, &text::chars_of(parts[i]));
        assert(parts@.map_values(|s: &str| s@).take(i + 1).drop_last() =~= parts@.map_values(
            |s: &str| s@,
        ).take(i as int));
        i += 1;
    }
    assert(parts@.map_values(|s: &str| s@).take(parts@.len() as int) =~= parts@.map_values(
        |s: &str| s@,
    ));
    text::string_of(&v)
}

fn err2(a: &str, b: &str) -> (r: Result<(), String>)
    ensures
        r matches Err(e) && e@ == a@ + b@,
{
    let mut v = text::chars_of(a);
    text::append_chars(&mut v, &text::chars_of(b));
    Err(text::string_of(&v))
}

fn err3(a: &str, b: &str, c: &str) -> (r: Result<(), String>)
    ensures
        r matches Err(e) && e@ == a@ + b@ + c@,
{
    let mut v = text::chars_of(a);
    text::append_chars(&mut v, &text::chars_of(b));
    text::append_chars(&mut v, &text::chars_of(c));
    Err(text::string_of(&v))
}

/// First bytes must be `%PDF` (no leading garbage allowed in uploads).
pub fn validate_pdf_magic_prefix(prefix: &[u8]) -> (r: Result<(), String>)
    ensures
        result_text(r) == magic_check(prefix@),
{
    if prefix.len() < 4 {
        return Err(String::from_str("cabecera PDF incompleta (se espera %PDF)"));
    }
    if !(prefix[0] == 37 && prefix[1] == 80 && prefix[2] == 68 && prefix[3] == 70) {
        assert(prefix@.subrange(0, 4) != pdf_magic()) by {
            if prefix@.subrange(0, 4) == pdf_magic() {
                assert(prefix@.subrange(0, 4)[0] == prefix@[0]);
                assert(prefix@.subrange(0, 4)[1] == prefix@[1]);
                assert(prefix@.subrange(0, 4)[2] == prefix@[2]);
                assert(prefix@.subrange(0, 4)[3] == prefix@[3]);
            }
        }
        return Err(String::from_str("no es un PDF válido (cabecera %PDF esperada)"));
    }
    assert(prefix@.subrange(0, 4) =~= pdf_magic());
    Ok(())
}

/// Checks the `%PDF` prefix and the per-file size limit.
pub fn validate_pdf_magic_and_size(len: u64, prefix: &[u8]) -> (r: Result<(), String>)
    ensures
        result_text(r) == magic_and_size_check(len, prefix@),
{
    if len > MAX_BATCH_PDF_BYTES {
        return Err(String::from_str("demasiado grande (máx. 50 MiB por archivo)"));
    }
    validate_pdf_magic_prefix(prefix)
}

/// Checks one path as the batch validation does (absolute, a regular file,
/// at most 50 MiB, `.pdf`, `%PDF` header), from what the file system reported.
pub fn validate_single_pdf_input(path: &str, probe: &PdfFileProbe) -> (r: Result<(), String>)
    ensures
        result_text(r) == single_check(path@, probe_facts(*probe).0, probe_facts(*probe).1),
{
    if !paths::path_is_absolute(path) {
        return err3("la ruta debe ser absoluta (recibido: ", path, ")");
    }
    let meta = match &probe.metadata {
        Err(e) => return err3(path, ": ", e.as_str()),
        Ok(m) => *m,
    };
    if !meta.is_file {
        return err2("no es un archivo regular: ", path);
    }
    if meta.len > MAX_BATCH_PDF_BYTES {
        return err2("demasiado grande (máx. 50 MiB): ", path);
    }
    let is_pdf = match paths::path_extension(path) {
        Some(e) => {
            let pdf = text::chars_of("pdf");
            text::eq_ignore_case_exec(&text::chars_of(e.as_str()), &pdf)
        },
        None => false,
    };
    if !is_pdf {
        return err2("solo se admiten .pdf: ", path);
    }
    let prefix = match &probe.prefix {
        Err(e) => return err3(path, ": ", e.as_str()),
        Ok(b) => b,
    };
    match validate_pdf_magic_prefix(prefix.as_slice()) {
        Ok(()) => Ok(()),
        Err(m) => err3(path, ": ", m.as_str()),
    }
}

/// The paths whose check passed, and those whose check failed with the reason,
/// both in input order.
pub open spec fn partition_spec(paths: Seq<Seq<char>>, results: Seq<Result<(), Seq<char>>>) -> (Seq<Seq<char>>, Seq<(Seq<char>, Seq<char>)>)
    decreases paths.len(),
{
    if paths.len() == 0 || results.len() == 0 {
        (seq![], seq![])
    } else {
        let (a, r) = partition_spec(paths.drop_last(), results.drop_last());
        match results.last() {
            Ok(()) => (a.push(paths.last()), r),
            Err(m) => (a, r.push((paths.last(), m))),
        }
    }
}

/// The outcome of validating each path with its probe.
pub open spec fn checks(paths: Seq<Seq<char>>, probes: Seq<PdfFileProbe>) -> Seq<Result<(), Seq<char>>> {
    Seq::new(
        paths.len(),
        |i: int| single_check(paths[i], probe_facts(probes[i]).0, probe_facts(probes[i]).1),
    )
}

/// Separates valid paths from rejected ones (e.g. by size) without aborting the batch.
pub fn partition_pdf_paths(paths: Vec<String>, probes: &[PdfFileProbe]) -> (r: (Vec<String>, Vec<RejectedPdfPath>))
    requires
        probes@.len() == paths@.len(),
    ensures
        ({
            let (a, rj) = partition_spec(paths@.map_values(|s: String| s@), checks(paths@.map_values(|s: String| s@), probes@));
            &&& r.0@.map_values(|s: String| s@) == a
            &&& r.1@.map_values(|x: RejectedPdfPath| (x.path@, x.reason@)) == rj
        }),
{
    let ghost pv = paths@.map_values(|s: String| s@);
    let ghost cs = checks(pv, probes@);
    let mut accepted: Vec<String> = Vec::new();
    let mut rejected: Vec<RejectedPdfPath> = Vec::new();
    let mut i: usize = 0;
    assert(pv.take(0) =~= Seq::<Seq<char>>::empty());
    while i < paths.len()
        invariant
            i <= paths@.len(),
            probes@.len() == paths@.len(),
            pv == paths@.map_values(|s: String| s@),
            cs == checks(pv, probes@),
            ({
                let (a, rj) = partition_spec(pv.take(i as int), cs.take(i as int));
                &&& accepted@.map_values(|s: String| s@) == a
                &&& rejected@.map_values(|x: RejectedPdfPath| (x.path@, x.reason@)) == rj
            }),
        decreases paths@.len() - i,
    {
        assert(pv.take(i + 1).drop_last() =~= pv.take(i as int));
        assert(cs.take(i + 1).drop_last() =~= cs.take(i as int));
        assert(pv.take(i + 1).last() == paths@[i as int]@);
        assert(cs.take(i + 1).last() == cs[i as int]);
        let res = validate_single_pdf_input(paths[i].as_str(), &probes[i]);
        match res {
            Ok(()) => {
                let ghost before = accepted@.map_values(|s: String| s@);
                accepted.push(paths[i].clone());
                assert(accepted@.map_values(|s: String| s@) =~= before.push(pv[i as int]));
            },
            Err(reason) => {
                let ghost before = rejected@.map_values(|x: RejectedPdfPath| (x.path@, x.reason@));
                rejected.push(RejectedPdfPath { path: paths[i].clone(), reason });
                assert(rejected@.map_values(|x: RejectedPdfPath| (x.path@, x.reason@)) =~= before.push(
                    (pv[i as int], cs[i as int]->Err_0),
                ));
            },
        }
        i += 1;
    }
    assert(pv.take(paths@.len() as int) =~= pv);
    assert(cs.take(paths@.len() as int) =~= cs);
    (accepted, rejected)
}

/// The first failing check of a batch, or `Ok` when every path passes; an
/// empty batch is refused.
pub open spec fn batch_check(results: Seq<Result<(), Seq<char>>>) -> Result<(), Seq<char>> {
    if results.len() == 0 {
        Err("inputs no puede estar vacío"@)
    } else {
        first_error(results)
    }
}

pub open spec fn first_error(results: Seq<Result<(), Seq<char>>>) -> Result<(), Seq<char>>
    decreases results.len(),
{
    if results.len() == 0 {
        Ok(())
    } else {
        match results[0] {
            Err(m) => Err(m),
            Ok(()) => first_error(results.drop_first()),
        }
    }
}

/// Checks absolute paths, existence, `.pdf` extension and the per-file size limit.
pub fn validate_batch_pdf_inputs(paths: &[String], probes: &[PdfFileProbe]) -> (r: Result<(), String>)
    requires
        probes@.len() == paths@.len(),
    ensures
        result_text(r) == batch_check(checks(paths@.map_values(|s: String| s@), probes@)),
{
    let ghost pv = paths@.map_values(|s: String| s@);
    let ghost cs = checks(pv, probes@);
    if paths.len() == 0 {
        return Err(String::from_str("inputs no puede estar vacío"));
    }
    let mut i: usize = 0;
    assert(cs.skip(0) =~= cs);
    while i < paths.len()
        invariant
            i <= paths@.len(),
            probes@.len() == paths@.len(),
            pv == paths@.map_values(|s: String| s@),
            cs == checks(pv, probes@),
            cs.len() > 0,
            first_error(cs) == first_error(cs.skip(i as int)),
        decreases paths@.len() - i,
    {
        assert(cs.skip(i as int)[0] == cs[i as int]);
        assert(cs.skip(i as int).drop_first() =~= cs.skip(i + 1));
        let res = validate_single_pdf_input(paths[i].as_str(), &probes[i]);
        if res.is_err() {
            return res;
        }
        i += 1;
    }
    Ok(())
}

/// Validating a batch accepts it exactly when it is non-empty and partitioning
/// it rejects nothing; partitioning keeps every path exactly once.
pub proof fn law_partition_accounts_for_every_path(paths: Seq<Seq<char>>, results: Seq<Result<(), Seq<char>>>)
    requires
        paths.len() == results.len(),
    ensures
        partition_spec(paths, results).0.len() + partition_spec(paths, results).1.len() == paths.len(),
        (partition_spec(paths, results).1.len() == 0) <==> first_error(results) is Ok,
    decreases paths.len(),
{
    if paths.len() > 0 {
        law_partition_accounts_for_every_path(paths.drop_last(), results.drop_last());
        lemma_first_error_last(results);
    }
}

proof fn lemma_first_error_last(results: Seq<Result<(), Seq<char>>>)
    requires
        results.len() > 0,
    ensures
        first_error(results) is Ok <==> (first_error(results.drop_last()) is Ok && results.last() is Ok),
    decreases results.len(),
{
    if results.len() > 1 {
        assert(results.drop_first().drop_last() =~= results.drop_last().drop_first());
        assert(results.drop_last()[0] == results[0]);
        assert(results.drop_first().last() == results.last());
        lemma_first_error_last(results.drop_first());
    } else {
        assert(results.drop_first().len() == 0);
        assert(results.drop_last().len() == 0);
        assert(first_error(results.drop_first()) is Ok);
    }
}

proof fn lemma_first_error_split(results: Seq<Result<(), Seq<char>>>)
    requires
        results.len() > 0,
    ensures
        first_error(results) is Err <==> (first_error(results.drop_last()) is Err || results.last() is Err),
        first_error(results.drop_last()) is Err ==> first_error(results) == first_error(results.drop_last()),
        first_error(results.drop_last()) is Ok && results.last() is Err ==> first_error(results)
            == results.last(),
    decreases results.len(),
{
    if results.len() > 1 {
        assert(results.drop_first().drop_last() =~= results.drop_last().drop_first());
        assert(results.drop_last()[0] == results[0]);
        assert(results.drop_first().last() == results.last());
        lemma_first_error_split(results.drop_first());
    } else {
        assert(results.drop_first().len() == 0);
        assert(results.drop_last().len() == 0);
        assert(results.last() == results[0]);
        assert(first_error(results.drop_first()) is Ok);
        assert(first_error(results.drop_last()) is Ok);
    }
}

proof fn lemma_first_rejection(paths: Seq<Seq<char>>, results: Seq<Result<(), Seq<char>>>)
    requires
        paths.len() == results.len(),
    ensures
        first_error(results) is Err ==> partition_spec(paths, results).1.len() > 0 && Err::<(), Seq<char>>(
            partition_spec(paths, results).1[0].1,
        ) == first_error(results),
    decreases paths.len(),
{
    if paths.len() > 0 {
        lemma_first_rejection(paths.drop_last(), results.drop_last());
        lemma_first_error_split(results);
        law_partition_accounts_for_every_path(paths.drop_last(), results.drop_last());
    }
}

/// Validating a batch succeeds exactly when the batch is non-empty and
/// partitioning the same paths (with the same probes) rejects none of them;
/// when it fails on a non-empty batch, its error is the reason given for the
/// first rejected path.
pub proof fn law_batch_validation_matches_partition(paths: Seq<Seq<char>>, probes: Seq<PdfFileProbe>)
    requires
        paths.len() == probes.len(),
    ensures
        (batch_check(checks(paths, probes)) is Ok) <==> (paths.len() > 0 && partition_spec(
            paths,
            checks(paths, probes),
        ).1.len() == 0),
        paths.len() > 0 && batch_check(checks(paths, probes)) is Err ==> partition_spec(
            paths,
            checks(paths, probes),
        ).1.len() > 0 && Err::<(), Seq<char>>(partition_spec(paths, checks(paths, probes)).1[0].1) == batch_check(
            checks(paths, probes),
        ),
{
    let cs = checks(paths, probes);
    law_partition_accounts_for_every_path(paths, cs);
    lemma_first_rejection(paths, cs);
}

proof fn lemma_lower_char_is(c: char, lo: char, up: char)
    requires
        'a' <= lo <= 'z',
        (up as u32) + 32 == lo as u32,
    ensures
        (text::lower_char(c) == lo) <==> (c == lo || c == up),
{
    assert('A' <= up <= 'Z');
    if 'A' <= c && c <= 'Z' {
        assert((c as u32) < 91);
        assert((((c as u32) + 32) as char) as u32 == (c as u32) + 32);
        assert((lo as u32) as char == lo);
        if text::lower_char(c) == lo {
            assert((c as u32) + 32 == lo as u32);
            assert(c as u32 == up as u32);
        }
        if c == up {
            assert(((c as u32) + 32) as char == ((lo as u32) as char));
        }
    }
}

/// Whether a file name extension spells `pdf` with each letter in either
/// case (`pdf`, `PDF`, `Pdf`, ...).
pub open spec fn spells_pdf(e: Seq<char>) -> bool {
    &&& e.len() == 3
    &&& e[0] == 'p' || e[0] == 'P'
    &&& e[1] == 'd' || e[1] == 'D'
    &&& e[2] == 'f' || e[2] == 'F'
}

/// The extension check of a PDF input ignores ASCII case: an absolute path
/// to a regular file within the size limit whose first bytes are `%PDF` is
/// accepted exactly when its extension spells `pdf` in any mix of upper and
/// lower case (so `SCAN.PDF` and `a.Pdf` are accepted, `a.pdfx` and `a.txt`
/// are not).
pub proof fn law_pdf_extension_ignores_ascii_case(p: Seq<char>, e: Seq<char>, len: u64, prefix: Seq<u8>)
    requires
        paths::is_absolute_path(p),
        paths::extension_of(p) == Some(e),
        len <= MAX_BATCH_PDF_BYTES,
        prefix.len() >= 4,
        prefix.subrange(0, 4) == pdf_magic(),
    ensures
        single_check(p, Ok((true, len)), Ok(prefix)) is Ok <==> spells_pdf(e),
        !spells_pdf(e) ==> single_check(p, Ok((true, len)), Ok(prefix)) == Err::<(), Seq<char>>(
            "solo se admiten .pdf: "@ + p,
        ),
{
    reveal_strlit("pdf");
    let pdf = "pdf"@;
    assert(pdf.len() == 3 && pdf[0] == 'p' && pdf[1] == 'd' && pdf[2] == 'f');
    lemma_lower_char_is(e[0], 'p', 'P');
    lemma_lower_char_is(e[1], 'd', 'D');
    lemma_lower_char_is(e[2], 'f', 'F');
    assert(text::lower(pdf) =~= pdf);
    if spells_pdf(e) {
        assert(text::lower(e) =~= pdf);
    }
    if text::eq_ignore_case(e, pdf) {
        assert(text::lower(e).len() == 3);
        assert(text::lower(e)[0] == 'p');
        assert(text::lower(e)[1] == 'd');
        assert(text::lower(e)[2] == 'f');
    }
}

} // verus!
