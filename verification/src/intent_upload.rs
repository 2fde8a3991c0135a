//! Intake of PDF files uploaded with a batch intent (multipart body): the
//! per-file and per-batch limits and the names the files are staged under.

use vstd::prelude::*;
use crate::paths;
use crate::pdf_validation::{self, MAX_PDFS_PER_BATCH_INTENT, MAX_TOTAL_BATCH_INTENT_BYTES};
use crate::text;

verus! {

/// Characters kept in a staged file name.
pub open spec fn keep_staged_char(c: char) -> bool {
    text::alphanumeric(c) || c == '.' || c == '_' || c == '-' || c == ' '
}

pub open spec fn staged_keep() -> spec_fn(char) -> bool {
    |c: char| keep_staged_char(c)
}

/// The name a file is staged under: the last component of the client's
/// name (or `document`), only letters, digits, `.`, `_`, `-` and spaces,
/// trimmed; `document_{index}` when nothing is left; `.pdf` appended unless
/// it already ends so (any case).
pub open spec fn staged_filename(client_name: Seq<char>, index: nat) -> Seq<char> {
    let base = match paths::file_name_of(client_name) {
        Some(b) => b,
        None => "document"@,
    };
    let stem0 = text::trim(base.filter(staged_keep()));
    let stem = if stem0.len() == 0 {
        "document_"@ + text::decimal(index)
    } else {
        stem0
    };
    if text::ends_with(text::lowercase_of(stem), ".pdf"@) {
        stem
    } else {
        stem + ".pdf"@
    }
}

/// The name to stage an uploaded file under.
pub fn sanitize_staged_filename(client_name: &str, index: usize) -> (r: String)
    ensures
        r@ == staged_filename(client_name@, index as nat),
{
    let base = match paths::path_file_name(client_name) {
        Some(b) => text::chars_of(b.as_str()),
        None => text::chars_of("document"),
    };
    let mut safe: Vec<char> = Vec::new();
    let mut i: usize = 0;
    while i < base.len()
        invariant
            i <= base@.len(),
            safe@ == base@.take(i as int).filter(staged_keep()),
        decreases base@.len() - i,
    {
        let c = base[i];
        let keep = text::char_is_alphanumeric(c) || c == '.' || c == '_' || c == '-' || c == ' ';
        proof {
            reveal(Seq::filter);
            assert(base@.take(i + 1).drop_last() =~= base@.take(i as int));
            assert(base@.take(i + 1).last() == c);
        }
        if keep {
            safe.push(c);
        }
        i += 1;
    }
    assert(base@.take(base@.len() as int) =~= base@);
    let trimmed = text::trim_chars(&safe);
    let stem = if trimmed.len() == 0 {
        let mut v = text::chars_of("document_");
        text::append_chars(&mut v, &text::decimal_chars(index as u64));
        v
    } else {
        trimmed
    };
    let lower = text::chars_of(text::str_to_lowercase(text::string_of(&stem).as_str()).as_str());
    if text::ends_with_exec(&lower, &text::chars_of(".pdf")) {
        text::string_of(&stem)
    } else {
        let mut v = stem;
        text::append_chars(&mut v, &text::chars_of(".pdf"));
        text::string_of(&v)
    }
}

/// The `attempt`-th alternative name when a staged name is taken: `{stem}_{attempt}.pdf`.
pub fn numbered_pdf_name(stem: &str, attempt: u16) -> (r: String)
    ensures
        r@ == stem@ + "_"@ + text::decimal(attempt as nat) + ".pdf"@,
{
    let mut v = text::chars_of(stem);
    text::append_chars(&mut v, &text::chars_of("_"));
    text::append_chars(&mut v, &text::decimal_chars(attempt as u64));
    text::append_chars(&mut v, &text::chars_of(".pdf"));
    text::string_of(&v)
}

/// The last-resort name when every numbered name is taken: `{stem}_{unique}.pdf`.
pub fn fallback_pdf_name(stem: &str, unique: &str) -> (r: String)
    ensures
        r@ == stem@ + "_"@ + unique@ + ".pdf"@,
{
    let mut v = text::chars_of(stem);
    text::append_chars(&mut v, &text::chars_of("_"));
    text::append_chars(&mut v, &text::chars_of(unique));
    text::append_chars(&mut v, &text::chars_of(".pdf"));
    text::string_of(&v)
}

/// Files accepted so far in one upload.
#[derive(Debug, Clone, Copy)]
pub struct IntentUpload {
    pub files: usize,
    pub total_bytes: u64,
}

pub open spec fn too_many_message() -> Seq<char> {
    "demasiados PDF (máx. 20)"@
}

pub open spec fn total_message() -> Seq<char> {
    "suma de tamaños de PDF supera el límite del lote"@
}

/// The first bytes of a file that the magic check reads.
pub open spec fn prefix_of(data: Seq<u8>) -> Seq<u8> {
    data.take(if data.len() < 16 { data.len() as int } else { 16 })
}

/// One more uploaded file: at most 20 files, at most 1000 MiB in all, each a
/// PDF of at most 50 MiB.
pub open spec fn upload_step(files: nat, total: nat, data: Seq<u8>) -> Result<(), Seq<char>> {
    if files >= MAX_PDFS_PER_BATCH_INTENT {
        Err(too_many_message())
    } else if total + data.len() > MAX_TOTAL_BATCH_INTENT_BYTES {
        Err(total_message())
    } else {
        pdf_validation::magic_and_size_check(data.len() as u64, prefix_of(data))
    }
}

impl IntentUpload {
    pub fn start() -> (r: Self)
        ensures
            r.files == 0,
            r.total_bytes == 0,
    {
        IntentUpload { files: 0, total_bytes: 0 }
    }

    /// Accepts one more file (its bytes and the name the client gave) and
    /// returns the name to stage it under, or the reason the upload is refused.
    pub fn accept_file(&mut self, data: &[u8], filename_hint: &str) -> (r: Result<String, String>)
        requires
            data@.len() <= u64::MAX,
        ensures
            match r {
                Ok(name) => {
                    &&& upload_step(old(self).files as nat, old(self).total_bytes as nat, data@) is Ok
                    &&& final(self).files == old(self).files + 1
                    &&& final(self).total_bytes == old(self).total_bytes + data@.len()
                    &&& name@ == staged_filename(filename_hint@, old(self).files as nat)
                },
                Err(e) => {
                    &&& upload_step(old(self).files as nat, old(self).total_bytes as nat, data@) == Err::<
                        (),
                        Seq<char>,
                    >(e@)
                    &&& *final(self) == *old(self)
                },
            },
    {
        let len = data.len() as u64;
        if self.files >= MAX_PDFS_PER_BATCH_INTENT {
            return Err(String::from_str("demasiados PDF (máx. 20)"));
        }
        let next_total: u64 = if len > u64::MAX - self.total_bytes {
            u64::MAX
        } else {
            self.total_bytes + len
        };
        if next_total > MAX_TOTAL_BATCH_INTENT_BYTES {
            return Err(String::from_str("suma de tamaños de PDF supera el límite del lote"));
        }
        let prefix_len: usize = if data.len() < 16 { data.len() } else { 16 };
        let prefix = prefix_slice(data, prefix_len);
        match pdf_validation::validate_pdf_magic_and_size(len, &prefix) {
            Ok(()) => {},
            Err(msg) => {
                return Err(msg);
            },
        }
        let name = sanitize_staged_filename(filename_hint, self.files);
        self.files = self.files + 1;
        self.total_bytes = next_total;
        Ok(name)
    }
}

fn prefix_slice(data: &[u8], n: usize) -> (r: Vec<u8>)
    requires
        n <= data@.len(),
    ensures
        r@ == data@.take(n as int),
{
    let mut r: Vec<u8> = Vec::new();
    let mut i: usize = 0;
    while i < n
        invariant
            i <= n <= data@.len(),
            r@ == data@.take(i as int),
        decreases n - i,
    {
        r.push(data[i]);
        i += 1;
        assert(r@ =~= data@.take(i as int));
    }
    r
}

/// An upload with no file is refused.
pub fn check_intent_has_files(files: usize) -> (r: Result<(), String>)
    ensures
        r is Ok <==> files > 0,
        r matches Err(e) ==> e@ == "no se recibió ningún PDF (campos file o files)"@,
{
    if files == 0 {
        Err(String::from_str("no se recibió ningún PDF (campos file o files)"))
    } else {
        Ok(())
    }
}

/// The `output_dir` field of an upload: absent or blank gives none, else the trimmed text.
pub fn intent_output_dir_text(raw: Option<&str>) -> (r: Option<String>)
    ensures
        match raw {
            None => r is None,
            Some(s) => if text::trim(s@).len() == 0 {
                r is None
            } else {
                r matches Some(t) && t@ == text::trim(s@)
            },
        },
{
    match raw {
        None => None,
        Some(s) => {
            let t = text::trim_chars(&text::chars_of(s));
            if t.len() == 0 {
                None
            } else {
                Some(text::string_of(&t))
            }
        },
    }
}

/// Every file accepted in an upload respects the batch limits, whatever the
/// order in which the files arrive.
pub proof fn law_accepted_uploads_stay_within_limits(files: nat, total: nat, data: Seq<u8>)
    requires
        upload_step(files, total, data) is Ok,
    ensures
        files + 1 <= MAX_PDFS_PER_BATCH_INTENT,
        total + data.len() <= MAX_TOTAL_BATCH_INTENT_BYTES,
        data.len() <= pdf_validation::MAX_BATCH_PDF_BYTES,
{
}

/// How the body of an intent is read, from its `Content-Type`.
#[derive(Debug, PartialEq, Eq, Structural, Clone, Copy)]
pub enum IntentBodyKind {
    Multipart,
    Json,
    /// Neither JSON nor multipart (415).
    Unsupported,
}

/// `multipart/form-data…` is a multipart upload; `application/json…` or no
/// type at all is JSON; anything else is refused.
pub fn intent_body_kind(content_type: &str) -> (r: IntentBodyKind)
    ensures
        r == if text::starts_with(content_type@, "multipart/form-data"@) {
            IntentBodyKind::Multipart
        } else if !text::starts_with(content_type@, "application/json"@) && content_type@.len() > 0 {
            IntentBodyKind::Unsupported
        } else {
            IntentBodyKind::Json
        },
{
    let c = text::chars_of(content_type);
    if text::occurs_at_exec(&c, &text::chars_of("multipart/form-data"), 0) {
        return IntentBodyKind::Multipart;
    }
    if !text::occurs_at_exec(&c, &text::chars_of("application/json"), 0) && c.len() > 0 {
        return IntentBodyKind::Unsupported;
    }
    IntentBodyKind::Json
}

proof fn lemma_trim_keeps(x: Seq<char>)
    requires
        forall|i: int| 0 <= i < x.len() ==> keep_staged_char(#[trigger] x[i]),
    ensures
        forall|i: int| 0 <= i < text::trim(x).len() ==> keep_staged_char(#[trigger] text::trim(x)[i]),
{
    lemma_trim_start_keeps(x);
    lemma_trim_end_keeps(text::trim_start(x));
}

proof fn lemma_trim_start_keeps(x: Seq<char>)
    requires
        forall|i: int| 0 <= i < x.len() ==> keep_staged_char(#[trigger] x[i]),
    ensures
        forall|i: int| 0 <= i < text::trim_start(x).len() ==> keep_staged_char(#[trigger] text::trim_start(x)[i]),
    decreases x.len(),
{
    if x.len() > 0 && text::is_ws(x[0]) {
        let d = x.drop_first();
        assert forall|i: int| 0 <= i < d.len() implies keep_staged_char(#[trigger] d[i]) by {
            assert(d[i] == x[i + 1]);
        }
        lemma_trim_start_keeps(d);
        assert(text::trim_start(x) == text::trim_start(d));
    } else {
        assert(text::trim_start(x) == x);
    }
}

proof fn lemma_trim_end_keeps(x: Seq<char>)
    requires
        forall|i: int| 0 <= i < x.len() ==> keep_staged_char(#[trigger] x[i]),
    ensures
        forall|i: int| 0 <= i < text::trim_end(x).len() ==> keep_staged_char(#[trigger] text::trim_end(x)[i]),
    decreases x.len(),
{
    if x.len() > 0 && text::is_ws(x.last()) {
        let d = x.drop_last();
        assert forall|i: int| 0 <= i < d.len() implies keep_staged_char(#[trigger] d[i]) by {
            assert(d[i] == x[i]);
        }
        lemma_trim_end_keeps(d);
        assert(text::trim_end(x) == text::trim_end(d));
    } else {
        assert(text::trim_end(x) == x);
    }
}

proof fn lemma_decimal_digits(n: nat)
    ensures
        text::decimal(n).len() > 0,
        forall|i: int| 0 <= i < text::decimal(n).len() ==> '0' <= #[trigger] text::decimal(n)[i] <= '9',
    decreases n,
{
    if n >= 10 {
        lemma_decimal_digits(n / 10);
    }
}

/// A staged file name is never empty, holds only letters, digits, `.`, `_`,
/// `-` and spaces (so no `/` or `\` that could leave the staging
/// directory), and ends in `.pdf`: literally when `.pdf` was appended, in
/// its lowercase form when the client's name already ended so.
pub proof fn law_staged_name_shape(client_name: Seq<char>, index: nat)
    ensures
        staged_filename(client_name, index).len() > 0,
        forall|i: int|
            0 <= i < staged_filename(client_name, index).len() ==> keep_staged_char(
                #[trigger] staged_filename(client_name, index)[i],
            ),
        forall|i: int|
            0 <= i < staged_filename(client_name, index).len() ==> #[trigger] staged_filename(client_name, index)[i]
                != '/' && staged_filename(client_name, index)[i] != '\\',
        text::ends_with(staged_filename(client_name, index), ".pdf"@) || text::ends_with(
            text::lowercase_of(staged_filename(client_name, index)),
            ".pdf"@,
        ),
{
    reveal_strlit("document");
    reveal_strlit("document_");
    reveal_strlit(".pdf");
    let base = match paths::file_name_of(client_name) {
        Some(b) => b,
        None => "document"@,
    };
    let f = base.filter(staged_keep());
    assert forall|i: int| 0 <= i < f.len() implies keep_staged_char(#[trigger] f[i]) by {
        base.lemma_filter_pred(staged_keep(), i);
    }
    lemma_trim_keeps(f);
    let stem0 = text::trim(f);
    let stem = if stem0.len() == 0 {
        "document_"@ + text::decimal(index)
    } else {
        stem0
    };
    if stem0.len() == 0 {
        lemma_decimal_digits(index);
        let dd = text::decimal(index);
        assert forall|i: int| 0 <= i < stem.len() implies keep_staged_char(#[trigger] stem[i]) by {
            if i >= 9 {
                assert(stem[i] == dd[i - 9]);
            }
        }
    }
    let r = staged_filename(client_name, index);
    let pdf = ".pdf"@;
    if !text::ends_with(text::lowercase_of(stem), pdf) {
        assert(r == stem + pdf);
        assert forall|i: int| 0 <= i < r.len() implies keep_staged_char(#[trigger] r[i]) by {
            if i >= stem.len() {
                assert(r[i] == pdf[i - stem.len()]);
            } else {
                assert(r[i] == stem[i]);
            }
        }
        assert(r.subrange(r.len() - 4, r.len() as int) =~= pdf);
    }
    assert forall|i: int| 0 <= i < r.len() implies #[trigger] r[i] != '/' && r[i] != '\\' by {
        assert(keep_staged_char(r[i]));
    }
}

} // verus!
