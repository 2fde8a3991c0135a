//! The decisions around the PKCS#11 token: which driver modules to try and
//! in which order, which slot to use, how a certificate is identified, and
//! how certificate lists from several slots and modules are merged.

use vstd::prelude::*;
use crate::codec;
use crate::signing_cert::{self, SigningCertSummary, SigningPinUi};
use crate::text;

verus! {

/// Operating system the built-in driver list is for.
#[derive(Debug, Clone, Copy, PartialEq, Eq, Structural)]
pub enum TargetOs {
    Windows,
    Linux,
    MacOs,
    Other,
}

/// The texts of a list of strings.
pub open spec fn strs(v: Seq<String>) -> Seq<Seq<char>> {
    v.map_values(|s: String| s@)
}

/// Built-in driver paths for an operating system, in priority order (seed of
/// the settings table and fallback).
pub open spec fn builtin_paths(os: TargetOs) -> Seq<Seq<char>> {
    match os {
        TargetOs::Windows => seq![
            "C:\\Program Files\\IDEMIA\\IDPlugClassic\\DLLs\\idplug-pkcs11.dll"@,
            "C:\\Program Files (x86)\\IDEMIA\\IDPlugClassic\\DLLs\\idplug-pkcs11.dll"@,
            "C:\\Windows\\System32\\bit4ipki.dll"@,
            "C:\\Windows\\System32\\idprimepkcs1164.dll"@,
            "C:\\Windows\\System32\\idprimepkcs1132.dll"@,
            "C:\\Windows\\System32\\etpkcs11.dll"@,
            "C:\\Windows\\System32\\eps2003csp11.dll"@,
            "C:\\Windows\\System32\\asepkcs.dll"@,
            "C:\\Windows\\System32\\opensc-pkcs11.dll"@,
            "C:\\Windows\\System32\\pkcs11.dll"@,
        ],
        TargetOs::Linux => seq![
            "/usr/lib/x86_64-linux-gnu/opensc-pkcs11.so"@,
            "/usr/lib/opensc-pkcs11.so"@,
            "/usr/local/lib/opensc-pkcs11.so"@,
        ],
        TargetOs::MacOs => seq![
            "/usr/local/lib/libasepkcs.dylib"@,
            "/Library/Application Support/Athena/lib/libasepkcs.dylib"@,
            "/usr/local/lib/libbit4ipki.dylib"@,
            "/Library/bit4id/pkcs11/libbit4ipki.dylib"@,
            "/usr/local/lib/libetpkcs11.dylib"@,
            "/opt/homebrew/lib/opensc-pkcs11.so"@,
            "/opt/homebrew/lib/pkcs11/opensc-pkcs11.so"@,
            "/usr/local/lib/opensc-pkcs11.so"@,
            "/Library/OpenSC/lib/opensc-pkcs11.so"@,
        ],
        TargetOs::Other => seq![],
    }
}

/// The built-in driver paths for `os`.
pub fn builtin_pkcs11_path_strings(os: TargetOs) -> (r: Vec<&'static str>)
    ensures
        r@.map_values(|s: &str| s@) == builtin_paths(os),
{
    let r: Vec<&'static str> = match os {
        TargetOs::Windows => vec![
            "C:\\Program Files\\IDEMIA\\IDPlugClassic\\DLLs\\idplug-pkcs11.dll",
            "C:\\Program Files (x86)\\IDEMIA\\IDPlugClassic\\DLLs\\idplug-pkcs11.dll",
            "C:\\Windows\\System32\\bit4ipki.dll",
            "C:\\Windows\\System32\\idprimepkcs1164.dll",
            "C:\\Windows\\System32\\idprimepkcs1132.dll",
            "C:\\Windows\\System32\\etpkcs11.dll",
            "C:\\Windows\\System32\\eps2003csp11.dll",
            "C:\\Windows\\System32\\asepkcs.dll",
            "C:\\Windows\\System32\\opensc-pkcs11.dll",
            "C:\\Windows\\System32\\pkcs11.dll",
        ],
        TargetOs::Linux => vec![
            "/usr/lib/x86_64-linux-gnu/opensc-pkcs11.so",
            "/usr/lib/opensc-pkcs11.so",
            "/usr/local/lib/opensc-pkcs11.so",
        ],
        TargetOs::MacOs => vec![
            "/usr/local/lib/libasepkcs.dylib",
            "/Library/Application Support/Athena/lib/libasepkcs.dylib",
            "/usr/local/lib/libbit4ipki.dylib",
            "/Library/bit4id/pkcs11/libbit4ipki.dylib",
            "/usr/local/lib/libetpkcs11.dylib",
            "/opt/homebrew/lib/opensc-pkcs11.so",
            "/opt/homebrew/lib/pkcs11/opensc-pkcs11.so",
            "/usr/local/lib/opensc-pkcs11.so",
            "/Library/OpenSC/lib/opensc-pkcs11.so",
        ],
        TargetOs::Other => Vec::new(),
    };
    assert(r@.map_values(|s: &str| s@) =~= builtin_paths(os));
    r
}

/// The built-in driver paths for `os`, as owned paths, in the same order.
pub fn builtin_candidate_paths(os: TargetOs) -> (r: Vec<String>)
    ensures
        strs(r@) == builtin_paths(os),
{
    let b = builtin_pkcs11_path_strings(os);
    let ghost bv = b@.map_values(|s: &str| s@);
    let mut r: Vec<String> = Vec::new();
    let mut i: usize = 0;
    while i < b.len()
        invariant
            i <= b@.len(),
            bv == b@.map_values(|s: &str| s@),
            strs(r@) == bv.take(i as int),
        decreases b@.len() - i,
    {
        let p = text::string_of(&text::chars_of(b[i]));
        assert(p@ == bv[i as int]);
        let ghost before = r@;
        r.push(p);
        assert(strs(r@) =~= strs(before).push(p@));
        assert(bv.take(i + 1) =~= bv.take(i as int).push(bv[i as int]));
        i += 1;
    }
    assert(bv.take(b@.len() as int) =~= bv);
    r
}

/// Why no driver module can be used.
#[derive(Debug)]
pub enum DriverPathError {
    /// `NEXOSIGN_PKCS11_MODULE` names a file that does not exist.
    EnvPathMissing(String),
    /// None of the candidate modules exists.
    NotFound,
}

pub open spec fn driver_error_text(e: DriverPathError) -> Seq<char> {
    match e {
        DriverPathError::EnvPathMissing(p) => "La ruta indicada en NEXOSIGN_PKCS11_MODULE no existe: "@ + p@
            + ". Corrige la ruta o elimina la variable para usar el controlador detectado automáticamente."@,
        DriverPathError::NotFound => "No encontramos el controlador del lector. Instala el software del fabricante (por ejemplo el del DNIe o OpenSC) o añade su ruta en Ajustes → «Lector de DNIe y tarjetas»."@,
    }
}

impl DriverPathError {
    /// The message shown to the user.
    pub fn message(&self) -> (r: String)
        ensures
            r@ == driver_error_text(*self),
    {
        match self {
            DriverPathError::EnvPathMissing(p) => {
                let mut v = text::chars_of("La ruta indicada en NEXOSIGN_PKCS11_MODULE no existe: ");
                text::append_chars(&mut v, &text::chars_of(p.as_str()));
                text::append_chars(
                    &mut v,
                    &text::chars_of(
                        ". Corrige la ruta o elimina la variable para usar el controlador detectado automáticamente.",
                    ),
                );
                text::string_of(&v)
            },
            DriverPathError::NotFound => String::from_str(
                "No encontramos el controlador del lector. Instala el software del fabricante (por ejemplo el del DNIe o OpenSC) o añade su ruta en Ajustes → «Lector de DNIe y tarjetas».",
            ),
        }
    }
}

/// The key two paths are compared by: the path in lower case.
pub open spec fn path_key(p: Seq<char>) -> Seq<char> {
    text::lowercase_of(p)
}

pub open spec fn has_key(list: Seq<Seq<char>>, k: Seq<char>) -> bool {
    exists|i: int| 0 <= i < list.len() && path_key(#[trigger] list[i]) == k
}

/// `list` with the candidates appended that add a new key, in order.
pub open spec fn push_unique_paths(list: Seq<Seq<char>>, candidates: Seq<Seq<char>>) -> Seq<Seq<char>>
    decreases candidates.len(),
{
    if candidates.len() == 0 {
        list
    } else {
        let prev = push_unique_paths(list, candidates.drop_last());
        if has_key(prev, path_key(candidates.last())) {
            prev
        } else {
            prev.push(candidates.last())
        }
    }
}

/// No two paths of `list` share a key.
pub open spec fn keys_distinct(list: Seq<Seq<char>>) -> bool {
    forall|i: int, j: int|
        0 <= i < j < list.len() ==> path_key(#[trigger] list[i]) != path_key(#[trigger] list[j])
}

fn key_of(p: &str) -> (r: Vec<char>)
    ensures
        r@ == path_key(p@),
{
    text::chars_of(text::str_to_lowercase(p).as_str())
}

fn add_unique_path(list: &mut Vec<String>, keys: &mut Vec<Vec<char>>, p: &str)
    requires
        old(keys)@.len() == old(list)@.len(),
        forall|i: int| 0 <= i < old(list)@.len() ==> (#[trigger] old(keys)@[i])@ == path_key(old(list)@[i]@),
    ensures
        final(keys)@.len() == final(list)@.len(),
        forall|i: int| 0 <= i < final(list)@.len() ==> (#[trigger] final(keys)@[i])@ == path_key(final(list)@[i]@),
        strs(final(list)@) == if has_key(strs(old(list)@), path_key(p@)) {
            strs(old(list)@)
        } else {
            strs(old(list)@).push(p@)
        },
{
    let k = key_of(p);
    let ghost lv = strs(list@);
    let mut found = false;
    let mut i: usize = 0;
    while i < keys.len()
        invariant
            keys@.len() == list@.len(),
            lv == strs(list@),
            list@ == old(list)@,
            keys@ == old(keys)@,
            forall|j: int| 0 <= j < list@.len() ==> (#[trigger] keys@[j])@ == path_key(list@[j]@),
            i <= keys@.len(),
            found ==> has_key(lv, k@),
            !found ==> forall|j: int| 0 <= j < i ==> path_key(#[trigger] lv[j]) != k@,
        decreases keys@.len() - i,
    {
        if text::eq_chars(&keys[i], &k) {
            assert(lv[i as int] == list@[i as int]@);
            assert(path_key(lv[i as int]) == k@);
            found = true;
        }
        i += 1;
    }
    if !found {
        assert(!has_key(lv, k@));
        list.push(text::string_of(&text::chars_of(p)));
        keys.push(k);
        assert(strs(list@) =~= lv.push(p@));
    }
}

/// The candidate driver paths: the ones saved in the settings first (in
/// their order), then the built-in ones; a path whose lower-case form was
/// already seen is skipped.
pub fn merge_candidate_paths(db_ordered: &[String], builtin: &[&str]) -> (r: Vec<String>)
    ensures
        strs(r@) == push_unique_paths(
            push_unique_paths(seq![], strs(db_ordered@)),
            builtin@.map_values(|s: &str| s@),
        ),
{
    let mut list: Vec<String> = Vec::new();
    let mut keys: Vec<Vec<char>> = Vec::new();
    let ghost dv = strs(db_ordered@);
    let ghost bv = builtin@.map_values(|s: &str| s@);
    let mut i: usize = 0;
    assert(strs(list@) =~= push_unique_paths(seq![], dv.take(0)));
    while i < db_ordered.len()
        invariant
            i <= db_ordered@.len(),
            dv == strs(db_ordered@),
            keys@.len() == list@.len(),
            forall|j: int| 0 <= j < list@.len() ==> (#[trigger] keys@[j])@ == path_key(list@[j]@),
            strs(list@) == push_unique_paths(seq![], dv.take(i as int)),
        decreases db_ordered@.len() - i,
    {
        assert(dv.take(i + 1).drop_last() =~= dv.take(i as int));
        add_unique_path(&mut list, &mut keys, db_ordered[i].as_str());
        i += 1;
    }
    assert(dv.take(dv.len() as int) =~= dv);
    let ghost base = strs(list@);
    let mut j: usize = 0;
    assert(base =~= push_unique_paths(base, bv.take(0)));
    while j < builtin.len()
        invariant
            j <= builtin@.len(),
            bv == builtin@.map_values(|s: &str| s@),
            keys@.len() == list@.len(),
            forall|k: int| 0 <= k < list@.len() ==> (#[trigger] keys@[k])@ == path_key(list@[k]@),
            strs(list@) == push_unique_paths(base, bv.take(j as int)),
        decreases builtin@.len() - j,
    {
        assert(bv.take(j + 1).drop_last() =~= bv.take(j as int));
        add_unique_path(&mut list, &mut keys, builtin[j]);
        j += 1;
    }
    assert(bv.take(bv.len() as int) =~= bv);
    list
}

proof fn lemma_push_unique_distinct(list: Seq<Seq<char>>, candidates: Seq<Seq<char>>)
    requires
        keys_distinct(list),
    ensures
        keys_distinct(push_unique_paths(list, candidates)),
        push_unique_paths(list, candidates).len() <= list.len() + candidates.len(),
        push_unique_paths(list, candidates).len() >= list.len(),
        forall|i: int| 0 <= i < candidates.len() ==> has_key(
            push_unique_paths(list, candidates),
            path_key(#[trigger] candidates[i]),
        ),
        forall|i: int| 0 <= i < list.len() ==> #[trigger] push_unique_paths(list, candidates)[i] == list[i],
    decreases candidates.len(),
{
    if candidates.len() > 0 {
        let c = candidates.last();
        let prev = push_unique_paths(list, candidates.drop_last());
        lemma_push_unique_distinct(list, candidates.drop_last());
        let next = push_unique_paths(list, candidates);
        if !has_key(prev, path_key(c)) {
            assert(next == prev.push(c));
            assert forall|i: int, j: int| 0 <= i < j < next.len() implies path_key(#[trigger] next[i])
                != path_key(#[trigger] next[j]) by {
                if j == next.len() - 1 {
                    assert(next[j] == c);
                    assert(next[i] == prev[i]);
                } else {
                    assert(next[i] == prev[i]);
                    assert(next[j] == prev[j]);
                }
            }
            assert(has_key(next, path_key(c))) by {
                assert(next[next.len() - 1] == c);
            }
        }
        assert forall|i: int| 0 <= i < candidates.len() implies has_key(
            next,
            path_key(#[trigger] candidates[i]),
        ) by {
            if i < candidates.len() - 1 {
                assert(candidates.drop_last()[i] == candidates[i]);
                assert(has_key(prev, path_key(candidates[i])));
                let w = choose|w: int| 0 <= w < prev.len() && path_key(#[trigger] prev[w]) == path_key(candidates[i]);
                assert(next[w] == prev[w]);
            }
        }
        assert forall|i: int| 0 <= i < list.len() implies #[trigger] next[i] == list[i] by {
            assert(prev[i] == list[i]);
        }
    }
}

/// The merged candidates hold no two paths with the same lower-case form,
/// and every saved or built-in path is represented by one of them.
pub proof fn law_candidates_deduplicated(db_ordered: Seq<Seq<char>>, builtin: Seq<Seq<char>>)
    ensures
        keys_distinct(push_unique_paths(push_unique_paths(seq![], db_ordered), builtin)),
        forall|i: int| 0 <= i < db_ordered.len() ==> has_key(
            push_unique_paths(push_unique_paths(seq![], db_ordered), builtin),
            path_key(#[trigger] db_ordered[i]),
        ),
        forall|i: int| 0 <= i < builtin.len() ==> has_key(
            push_unique_paths(push_unique_paths(seq![], db_ordered), builtin),
            path_key(#[trigger] builtin[i]),
        ),
{
    let first = push_unique_paths(seq![], db_ordered);
    lemma_push_unique_distinct(seq![], db_ordered);
    lemma_push_unique_distinct(first, builtin);
    let all = push_unique_paths(first, builtin);
    assert forall|i: int| 0 <= i < db_ordered.len() implies has_key(all, path_key(#[trigger] db_ordered[i])) by {
        assert(has_key(first, path_key(db_ordered[i])));
        let w = choose|w: int| 0 <= w < first.len() && path_key(#[trigger] first[w]) == path_key(db_ordered[i]);
        assert(all[w] == first[w]);
    }
}

/// The candidates flagged as existing, in order.
pub open spec fn kept_existing(c: Seq<Seq<char>>, e: Seq<bool>) -> Seq<Seq<char>>
    decreases c.len(),
{
    if c.len() == 0 || e.len() != c.len() {
        seq![]
    } else {
        let prev = kept_existing(c.drop_last(), e.drop_last());
        if e.last() {
            prev.push(c.last())
        } else {
            prev
        }
    }
}

/// The candidates that exist on disk, in order; none is an error.
/// `exists[i]` tells whether `candidates[i]` is a file.
pub fn existing_module_paths(candidates: Vec<String>, exists: &[bool]) -> (r: Result<Vec<String>, DriverPathError>)
    requires
        exists@.len() == candidates@.len(),
    ensures
        match r {
            Ok(found) => found@.len() > 0 && strs(found@) == kept_existing(
                strs(candidates@),
                exists@,
            ),
            Err(e) => e is NotFound && kept_existing(strs(candidates@), exists@).len()
                == 0,
        },
{
    let ghost cv = strs(candidates@);
    let mut found: Vec<String> = Vec::new();
    let mut i: usize = 0;
    for c in it: candidates.into_iter()
        invariant
            cv == strs(it.seq()),
            exists@.len() == cv.len(),
            i == it.index(),
            strs(found@) == kept_existing(cv.take(i as int), exists@.take(i as int)),
    {
        assert(cv.take(i + 1).drop_last() =~= cv.take(i as int));
        assert(exists@.take(i + 1).drop_last() =~= exists@.take(i as int));
        assert(cv.take(i + 1).last() == c@);
        assert(i < cv.len());
        assert(exists@.len() == exists.len());
        if exists[i] {
            let ghost before = found@;
            found.push(c);
            assert(strs(found@) =~= strs(before).push(c@));
        }
        i += 1;
    }
    assert(cv.take(cv.len() as int) =~= cv);
    assert(exists@.take(exists@.len() as int) =~= exists@);
    if found.len() == 0 {
        Err(DriverPathError::NotFound)
    } else {
        Ok(found)
    }
}

/// When `NEXOSIGN_PKCS11_MODULE` is set: its trimmed value is the only
/// candidate if that file exists, else an error naming it.
pub fn env_module_paths(env_value: &str, is_file: bool) -> (r: Result<Vec<String>, DriverPathError>)
    ensures
        match r {
            Ok(v) => is_file && v@.len() == 1 && v@[0]@ == text::trim(env_value@),
            Err(e) => !is_file && (e matches DriverPathError::EnvPathMissing(p) && p@ == text::trim(env_value@)),
        },
{
    let p = text::string_of(&text::trim_chars(&text::chars_of(env_value)));
    if is_file {
        let mut v: Vec<String> = Vec::new();
        v.push(p);
        Ok(v)
    } else {
        Err(DriverPathError::EnvPathMissing(p))
    }
}

/// The candidates with the preferred module first: every path with the same
/// lower-case form is dropped, then the preferred one goes in front.
pub open spec fn with_preferred(paths: Seq<Seq<char>>, preferred: Seq<char>) -> Seq<Seq<char>> {
    seq![preferred] + paths.filter(|p: Seq<char>| path_key(p) != path_key(preferred))
}

pub fn preferred_first(paths: Vec<String>, preferred: &str) -> (r: Vec<String>)
    ensures
        strs(r@) == with_preferred(strs(paths@), preferred@),
{
    let ghost pv = strs(paths@);
    assert(pv.len() == paths.len());
    let ghost pred = |p: Seq<char>| path_key(p) != path_key(preferred@);
    let key = key_of(preferred);
    let mut kept: Vec<String> = Vec::new();
    kept.push(text::string_of(&text::chars_of(preferred)));
    let mut i: usize = 0;
    for p in it: paths.into_iter()
        invariant
            pv == strs(it.seq()),
            pv.len() <= usize::MAX,
            i == it.index(),
            key@ == path_key(preferred@),
            pred == (|p: Seq<char>| path_key(p) != path_key(preferred@)),
            strs(kept@) == seq![preferred@] + pv.take(i as int).filter(pred),
    {
        proof {
            reveal(Seq::filter);
            assert(pv.take(i + 1).drop_last() =~= pv.take(i as int));
            assert(pv.take(i + 1).last() == p@);
        }
        assert(i < pv.len());
        let k = key_of(p.as_str());
        if !text::eq_chars(&k, &key) {
            let ghost before = kept@;
            kept.push(p);
            assert(strs(kept@) =~= strs(before).push(p@));
        }
        i += 1;
    }
    assert(pv.take(pv.len() as int) =~= pv);
    kept
}

/// The driver has not yet recognised the token (worth one retry).
pub open spec fn token_not_recognized(err: Seq<char>) -> bool {
    let e = text::lowercase_of(err);
    (exists|i: int| text::occurs_at(e, "not recognize"@, i)) || (exists|i: int|
        text::occurs_at(e, "token not recognized"@, i))
}

fn contains_chars(s: &[char], p: &[char]) -> (r: bool)
    ensures
        r == exists|i: int| text::occurs_at(s@, p@, i),
{
    let mut i: usize = 0;
    while i <= s.len()
        invariant
            i <= s@.len() + 1,
            forall|j: int| 0 <= j < i ==> !text::occurs_at(s@, p@, j),
        decreases s@.len() + 1 - i,
    {
        if text::occurs_at_exec(s, p, i) {
            return true;
        }
        if i == s.len() {
            assert forall|j: int| !text::occurs_at(s@, p@, j) by {
                if j > s@.len() {
                    assert(!text::occurs_at(s@, p@, j));
                }
            }
            return false;
        }
        i += 1;
    }
    false
}

pub fn session_error_token_not_recognized(err: &str) -> (r: bool)
    ensures
        r == token_not_recognized(err@),
{
    let e = text::chars_of(text::str_to_lowercase(err).as_str());
    contains_chars(&e, &text::chars_of("not recognize")) || contains_chars(&e, &text::chars_of("token not recognized"))
}

/// Why no slot could be chosen.
#[derive(Debug, PartialEq, Eq, Structural, Clone, Copy)]
pub enum SlotChoiceError {
    /// No slot has a token.
    NoSlot,
    /// `NEXOSIGN_PKCS11_SLOT` names a slot past the last one.
    SlotIndex,
}

pub open spec fn slot_choice_text(e: SlotChoiceError) -> Seq<char> {
    match e {
        SlotChoiceError::NoSlot => "PKCS11_NO_TOKEN: no se detecta el DNIe ni la tarjeta. Conecta el lector e inserta tu tarjeta."@,
        SlotChoiceError::SlotIndex => "No se ha podido seleccionar el puerto del lector indicado."@,
    }
}

impl SlotChoiceError {
    pub fn message(&self) -> (r: String)
        ensures
            r@ == slot_choice_text(*self),
    {
        match self {
            SlotChoiceError::NoSlot => String::from_str(
                "PKCS11_NO_TOKEN: no se detecta el DNIe ni la tarjeta. Conecta el lector e inserta tu tarjeta.",
            ),
            SlotChoiceError::SlotIndex => String::from_str("No se ha podido seleccionar el puerto del lector indicado."),
        }
    }
}

/// The slot index to use among `slot_count` slots with a token: the value
/// of `NEXOSIGN_PKCS11_SLOT` if it parses as a number, else the first.
pub open spec fn slot_choice(slot_count: nat, env: Option<Seq<char>>) -> Result<nat, SlotChoiceError> {
    let idx = match env {
        Some(s) => match text::parsed_unsigned(s, usize::MAX as nat) {
            Some(n) => n,
            None => 0,
        },
        None => 0,
    };
    if slot_count == 0 {
        Err(SlotChoiceError::NoSlot)
    } else if idx < slot_count {
        Ok(idx)
    } else {
        Err(SlotChoiceError::SlotIndex)
    }
}

pub fn pick_slot_index(slot_count: usize, env_slot: Option<&str>) -> (r: Result<usize, SlotChoiceError>)
    ensures
        match r {
            Ok(i) => slot_choice(
                slot_count as nat,
                match env_slot {
                    Some(s) => Some(s@),
                    None => None,
                },
            ) == Ok::<nat, SlotChoiceError>(i as nat),
            Err(e) => slot_choice(
                slot_count as nat,
                match env_slot {
                    Some(s) => Some(s@),
                    None => None,
                },
            ) == Err::<nat, SlotChoiceError>(e),
        },
{
    if slot_count == 0 {
        return Err(SlotChoiceError::NoSlot);
    }
    let idx: u64 = match env_slot {
        Some(s) => match text::parse_unsigned(&text::chars_of(s), usize::MAX as u64) {
            Some(n) => n,
            None => 0,
        },
        None => 0,
    };
    if idx < slot_count as u64 {
        Ok(idx as usize)
    } else {
        Err(SlotChoiceError::SlotIndex)
    }
}

/// Lower-case hex of `bytes`, two digits per byte.
pub fn bytes_to_hex(bytes: &[u8]) -> (r: String)
    ensures
        r@ == codec::hex_of(bytes@, false),
{
    let mut v: Vec<char> = Vec::new();
    let mut i: usize = 0;
    while i < bytes.len()
        invariant
            i <= bytes@.len(),
            v@ == codec::hex_of(bytes@.take(i as int), false),
        decreases bytes@.len() - i,
    {
        let b = bytes[i];
        let hi = b / 16;
        let lo = b % 16;
        let ch: char = if hi < 10 { ((hi + 48) as u8) as char } else { ((hi + 87) as u8) as char };
        let cl: char = if lo < 10 { ((lo + 48) as u8) as char } else { ((lo + 87) as u8) as char };
        assert(bytes@.take(i + 1).drop_last() =~= bytes@.take(i as int));
        assert(bytes@.take(i + 1).last() == b);
        v.push(ch);
        v.push(cl);
        i += 1;
    }
    assert(bytes@.take(bytes@.len() as int) =~= bytes@);
    text::string_of(&v)
}

/// The id a certificate on the token is listed under: its `CKA_ID` in hex,
/// or, when the id is missing or empty, the hex of the first 32 bytes of its DER.
pub open spec fn cert_id_text(id: Option<Seq<u8>>, der: Seq<u8>) -> Seq<char> {
    match id {
        Some(i) => if i.len() > 0 {
            codec::hex_of(i, false)
        } else {
            codec::hex_of(der.take(if der.len() < 32 { der.len() as int } else { 32 }), false)
        },
        None => codec::hex_of(der.take(if der.len() < 32 { der.len() as int } else { 32 }), false),
    }
}

pub fn cert_id_hex_for(id: Option<&[u8]>, der: &[u8]) -> (r: String)
    ensures
        r@ == cert_id_text(
            match id {
                Some(i) => Some(i@),
                None => None,
            },
            der@,
        ),
{
    match id {
        Some(i) => {
            if i.len() > 0 {
                return bytes_to_hex(i);
            }
        },
        None => {},
    }
    let n: usize = if der.len() < 32 { der.len() } else { 32 };
    let mut head: Vec<u8> = Vec::new();
    let mut k: usize = 0;
    while k < n
        invariant
            k <= n <= der@.len(),
            head@ == der@.take(k as int),
        decreases n - k,
    {
        head.push(der[k]);
        k += 1;
        assert(head@ =~= der@.take(k as int));
    }
    bytes_to_hex(&head)
}

/// The ids of a list of certificates.
pub open spec fn ids_of(v: Seq<SigningCertSummary>) -> Seq<Seq<char>> {
    v.map_values(|c: SigningCertSummary| c.id_hex@)
}

/// `merged` after adding the certificates of `batch` whose id was not seen
/// yet (the first of equal ids wins); `seen` gains every id of the batch.
pub open spec fn merge_step(
    merged: Seq<Seq<char>>,
    seen: Set<Seq<char>>,
    batch: Seq<Seq<char>>,
) -> (Seq<Seq<char>>, Set<Seq<char>>)
    decreases batch.len(),
{
    if batch.len() == 0 {
        (merged, seen)
    } else {
        let (m, s) = merge_step(merged, seen, batch.drop_last());
        if s.contains(batch.last()) {
            (m, s)
        } else {
            (m.push(batch.last()), s.insert(batch.last()))
        }
    }
}

/// `merged` after adding, whole and in order, the certificates of `batch`
/// whose id was not seen yet (the first of equal ids wins); the second part
/// is `seen` with every id of the batch.
pub open spec fn merge_certs(
    merged: Seq<SigningCertSummary>,
    seen: Set<Seq<char>>,
    batch: Seq<SigningCertSummary>,
) -> (Seq<SigningCertSummary>, Set<Seq<char>>)
    decreases batch.len(),
{
    if batch.len() == 0 {
        (merged, seen)
    } else {
        let (m, s) = merge_certs(merged, seen, batch.drop_last());
        if s.contains(batch.last().id_hex@) {
            (m, s)
        } else {
            (m.push(batch.last()), s.insert(batch.last().id_hex@))
        }
    }
}

/// Merges a batch of certificates into `merged`, skipping ids already in
/// `seen` (across slots and modules).
pub fn merge_signing_cert_summaries(
    merged: &mut Vec<SigningCertSummary>,
    batch: Vec<SigningCertSummary>,
    seen: &mut Vec<String>,
)
    ensures
        (ids_of(final(merged)@), strs(final(seen)@).to_set()) == merge_step(
            ids_of(old(merged)@),
            strs(old(seen)@).to_set(),
            ids_of(batch@),
        ),
        (final(merged)@, strs(final(seen)@).to_set()) == merge_certs(
            old(merged)@,
            strs(old(seen)@).to_set(),
            batch@,
        ),
        final(merged)@.len() >= old(merged)@.len(),
        forall|i: int| 0 <= i < old(merged)@.len() ==> #[trigger] final(merged)@[i] == old(merged)@[i],
{
    let ghost bs = batch@;
    let ghost bv = ids_of(batch@);
    assert(bv.len() == batch.len());
    let ghost m0 = ids_of(merged@);
    let ghost s0 = strs(seen@).to_set();
    let ghost old_merged = merged@;
    let mut i: usize = 0;
    for c in it: batch.into_iter()
        invariant
            bv == ids_of(it.seq()),
            bs == it.seq(),
            bv.len() <= usize::MAX,
            i == it.index(),
            (ids_of(merged@), strs(seen@).to_set()) == merge_step(m0, s0, bv.take(i as int)),
            (merged@, strs(seen@).to_set()) == merge_certs(old_merged, s0, bs.take(i as int)),
            merged@.len() >= old_merged.len(),
            forall|k: int| 0 <= k < old_merged.len() ==> #[trigger] merged@[k] == old_merged[k],
    {
        assert(bv.take(i + 1).drop_last() =~= bv.take(i as int));
        assert(bv.take(i + 1).last() == c.id_hex@);
        assert(bs.take(i + 1).drop_last() =~= bs.take(i as int));
        assert(i < bv.len());
        let id = c.id_hex.as_str();
        let mut found = false;
        let mut j: usize = 0;
        while j < seen.len()
            invariant
                j <= seen@.len(),
                !found ==> forall|k: int| 0 <= k < j ==> (#[trigger] seen@[k])@ != id@,
                found ==> strs(seen@).contains(id@),
            decreases seen@.len() - j,
        {
            if text::eq_chars(&text::chars_of(seen[j].as_str()), &text::chars_of(id)) {
                found = true;
                assert(strs(seen@)[j as int] == id@);
            }
            j += 1;
        }
        let ghost sv = strs(seen@);
        if !found {
            assert(!sv.contains(id@)) by {
                if sv.contains(id@) {
                    let k = choose|k: int| 0 <= k < sv.len() && sv[k] == id@;
                    assert(seen@[k]@ == id@);
                }
            }
        }
        assert(sv.to_set().contains(id@) == found);
        if !found {
            let ghost before_m = merged@;
            let ghost before_s = seen@;
            seen.push(text::string_of(&text::chars_of(id)));
            merged.push(c);
            assert(ids_of(merged@) =~= ids_of(before_m).push(bv.take(i + 1).last()));
            assert(merged@ =~= before_m.push(bs.take(i + 1).last()));
            assert(strs(seen@) =~= sv.push(id@));
            assert(strs(seen@).to_set() =~= sv.to_set().insert(id@)) by {
                sv.lemma_push_to_set_commute(id@);
            }
        }
        i += 1;
    }
    assert(bv.take(bv.len() as int) =~= bv);
    assert(bs.take(bs.len() as int) =~= bs);
}

/// How the app asks for a PIN, decided from the key provider's name (lower
/// case) when it shows a smart card; `None` when the answer depends on
/// whether the key can be opened silently.
pub open spec fn smart_card_provider(name: Seq<char>) -> bool {
    exists|i: int|
        text::occurs_at(name, "smart card"@, i) || text::occurs_at(name, "scard"@, i) || text::occurs_at(
            name,
            "virtual smart card"@,
            i,
        ) || text::occurs_at(name, "minidriver"@, i)
}

pub fn pin_ui_from_provider(provider_lower: Option<&str>) -> (r: Option<SigningPinUi>)
    ensures
        match provider_lower {
            Some(n) => if smart_card_provider(n@) {
                r == Some(SigningPinUi::RequiredInApp)
            } else {
                r is None
            },
            None => r is None,
        },
{
    match provider_lower {
        None => None,
        Some(n) => {
            let v = text::chars_of(n);
            let a = contains_chars(&v, &text::chars_of("smart card"));
            let b = contains_chars(&v, &text::chars_of("scard"));
            let c = contains_chars(&v, &text::chars_of("virtual smart card"));
            let d = contains_chars(&v, &text::chars_of("minidriver"));
            if a || b || c || d {
                Some(SigningPinUi::RequiredInApp)
            } else {
                None
            }
        },
    }
}

/// Otherwise: a key that opens silently needs no PIN from the app; else
/// the system may prompt.
pub fn pin_ui_after_silent_acquire(silent_ok: bool) -> (r: SigningPinUi)
    ensures
        r == if silent_ok {
            SigningPinUi::HiddenUseOsCrypto
        } else {
            SigningPinUi::OsMayPrompt
        },
{
    if silent_ok {
        SigningPinUi::HiddenUseOsCrypto
    } else {
        SigningPinUi::OsMayPrompt
    }
}

/// The SHA-1 thumbprint named by a `winmy:` certificate id: forty hex digits
/// after the prefix.
pub open spec fn win_my_thumbprint_bytes(id: Seq<char>) -> Option<Seq<u8>> {
    if text::starts_with(id, signing_cert::win_my_prefix()) {
        let rest = id.skip(signing_cert::win_my_prefix().len() as int);
        if rest.len() != 40 {
            None
        } else {
            match codec::hex_decoded(rest) {
                Some(b) => if b.len() == 20 {
                    Some(b)
                } else {
                    None
                },
                None => None,
            }
        }
    } else {
        None
    }
}

/// The 20-byte SHA-1 thumbprint named by a `winmy:` id (used to find the
/// certificate in the Windows store).
pub fn parse_win_my_thumbprint(cert_id_hex: &str) -> (r: Option<Vec<u8>>)
    ensures
        match r {
            Some(b) => win_my_thumbprint_bytes(cert_id_hex@) == Some(b@),
            None => win_my_thumbprint_bytes(cert_id_hex@) is None,
        },
{
    let v = text::chars_of(cert_id_hex);
    let p = text::chars_of(signing_cert::WIN_MY_CERT_ID_PREFIX);
    proof {
        reveal_strlit("winmy:");
    }
    assert(p@ =~= signing_cert::win_my_prefix());
    if !text::occurs_at_exec(&v, &p, 0) {
        return None;
    }
    let rest = text::slice_chars(&v, 6, v.len());
    assert(rest@ =~= v@.skip(6));
    if rest.len() != 40 {
        return None;
    }
    match codec::hex_decode(text::string_of(&rest).as_str()) {
        Some(b) => if b.len() == 20 {
            Some(b)
        } else {
            None
        },
        None => None,
    }
}

/// Errors of the Windows certificate store.
#[derive(Debug)]
pub enum WinCertError {
    Api(String),
    UnsupportedKey,
}

impl WinCertError {
    pub fn message(&self) -> (r: String)
        ensures
            r@ == match *self {
                WinCertError::Api(m) => "API Windows: "@ + m@,
                WinCertError::UnsupportedKey => "certificado no RSA CNG soportado"@,
            },
    {
        match self {
            WinCertError::Api(m) => {
                let mut v = text::chars_of("API Windows: ");
                text::append_chars(&mut v, &text::chars_of(m.as_str()));
                text::string_of(&v)
            },
            WinCertError::UnsupportedKey => String::from_str("certificado no RSA CNG soportado"),
        }
    }
}

/// Which signer handles a certificate id: the Windows store for `winmy:` ids, else the token.
#[derive(Debug, PartialEq, Eq, Structural, Clone, Copy)]
pub enum SignerRoute {
    WinMy,
    Pkcs11,
}

pub fn signer_route(cert_id_hex: &str) -> (r: SignerRoute)
    ensures
        r == if text::starts_with(cert_id_hex@, signing_cert::win_my_prefix()) {
            SignerRoute::WinMy
        } else {
            SignerRoute::Pkcs11
        },
{
    let v = text::chars_of(cert_id_hex);
    let p = vec!['w', 'i', 'n', 'm', 'y', ':'];
    assert(p@ =~= signing_cert::win_my_prefix());
    if text::occurs_at_exec(&v, &p, 0) {
        SignerRoute::WinMy
    } else {
        SignerRoute::Pkcs11
    }
}

/// The PIN a signing session logs in with: the trimmed PIN, none when it is absent or blank.
pub fn session_pin(pin: Option<&str>) -> (r: Option<String>)
    ensures
        match pin {
            Some(p) => if text::trim(p@).len() > 0 {
                r matches Some(q) && q@ == text::trim(p@)
            } else {
                r is None
            },
            None => r is None,
        },
{
    match pin {
        None => None,
        Some(p) => {
            let t = text::trim_chars(&text::chars_of(p));
            if t.len() > 0 {
                Some(text::string_of(&t))
            } else {
                None
            }
        },
    }
}

/// The error when a read-write session cannot be opened.
pub fn rw_session_error(e: &str) -> (r: String)
    ensures
        r@ == "Sesión RW: "@ + e@,
{
    let mut v = text::chars_of("Sesión RW: ");
    text::append_chars(&mut v, &text::chars_of(e));
    text::string_of(&v)
}

/// The error when neither a read-only nor a read-write session opens.
pub fn ro_rw_session_error(e_ro: &str, e_rw: &str) -> (r: String)
    ensures
        r@ == "Sesión RO: "@ + e_ro@ + "; RW: "@ + e_rw@,
{
    let mut v = text::chars_of("Sesión RO: ");
    text::append_chars(&mut v, &text::chars_of(e_ro));
    text::append_chars(&mut v, &text::chars_of("; RW: "));
    text::append_chars(&mut v, &text::chars_of(e_rw));
    text::string_of(&v)
}

/// The error when scanning a module takes too long.
pub fn scan_timeout_message(timeout_secs: u64, path_label: &str) -> (r: String)
    ensures
        r@ == "Tiempo de espera agotado ("@ + text::decimal(timeout_secs as nat) + "s) al usar "@ + path_label@,
{
    let mut v = text::chars_of("Tiempo de espera agotado (");
    text::append_chars(&mut v, &text::decimal_chars(timeout_secs));
    text::append_chars(&mut v, &text::chars_of("s) al usar "));
    text::append_chars(&mut v, &text::chars_of(path_label));
    text::string_of(&v)
}

/// The rows a driver list is saved as: each non-blank path trimmed, with its
/// position in the given list as its order.
pub open spec fn path_rows(paths: Seq<Seq<char>>) -> Seq<(Seq<char>, int)>
    decreases paths.len(),
{
    if paths.len() == 0 {
        seq![]
    } else {
        let prev = path_rows(paths.drop_last());
        let t = text::trim(paths.last());
        if t.len() == 0 {
            prev
        } else {
            prev.push((t, paths.len() - 1))
        }
    }
}

pub fn ordered_path_rows(paths: &[String]) -> (r: Vec<(String, i64)>)
    requires
        paths@.len() <= i64::MAX,
    ensures
        r@.map_values(|e: (String, i64)| (e.0@, e.1 as int)) == path_rows(strs(paths@)),
{
    let ghost pv = strs(paths@);
    let mut out: Vec<(String, i64)> = Vec::new();
    let mut i: usize = 0;
    while i < paths.len()
        invariant
            i <= paths@.len() <= i64::MAX,
            pv == strs(paths@),
            out@.map_values(|e: (String, i64)| (e.0@, e.1 as int)) == path_rows(pv.take(i as int)),
        decreases paths@.len() - i,
    {
        assert(pv.take(i + 1).drop_last() =~= pv.take(i as int));
        let t = text::trim_chars(&text::chars_of(paths[i].as_str()));
        if t.len() > 0 {
            let ghost before = out@;
            out.push((text::string_of(&t), i as i64));
            assert(out@.map_values(|e: (String, i64)| (e.0@, e.1 as int)) =~= before.map_values(
                |e: (String, i64)| (e.0@, e.1 as int),
            ).push((t@, i as int)));
        }
        i += 1;
    }
    assert(pv.take(pv.len() as int) =~= pv);
    out
}

} // verus!
