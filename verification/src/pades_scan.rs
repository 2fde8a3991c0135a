//! Byte-level work on an incrementally saved PDF: locating the signature
//! dictionary, its `/Contents` hex hole and `/ByteRange`, the digest that the
//! CMS signature covers, and the patches that complete the signature.

use vstd::prelude::*;
use crate::codec;
use crate::text;
use crate::errors::SignBatchError;

verus! {

/// `p` occurs in `buf` at `i`.
pub open spec fn occurs(buf: Seq<u8>, p: Seq<u8>, i: int) -> bool {
    0 <= i && i + p.len() <= buf.len() && buf.subrange(i, i + p.len()) == p
}

/// First `k >= from` (below `n`) for which `pred` holds.
pub open spec fn first_where(n: int, pred: spec_fn(int) -> bool, from: int) -> Option<int>
    decreases n - from,
{
    if from < 0 || from >= n {
        None
    } else if pred(from) {
        Some(from)
    } else {
        first_where(n, pred, from + 1)
    }
}

pub proof fn lemma_first_where_skip(n: int, pred: spec_fn(int) -> bool, a: int, b: int)
    requires
        0 <= a <= b,
        forall|j: int| a <= j < b && j < n ==> !#[trigger] pred(j),
    ensures
        first_where(n, pred, a) == first_where(n, pred, b),
    decreases b - a,
{
    if a < b && a < n {
        lemma_first_where_skip(n, pred, a + 1, b);
    }
}

pub proof fn lemma_first_where_found(n: int, pred: spec_fn(int) -> bool, from: int, k: int)
    requires
        first_where(n, pred, from) == Some(k),
    ensures
        from <= k < n,
        0 <= from,
        pred(k),
        forall|j: int| from <= j < k ==> !#[trigger] pred(j),
    decreases n - from,
{
    if !pred(from) {
        lemma_first_where_found(n, pred, from + 1, k);
    }
}

pub proof fn lemma_first_where_none(n: int, pred: spec_fn(int) -> bool, from: int)
    requires
        0 <= from,
        first_where(n, pred, from) is None,
    ensures
        forall|j: int| from <= j < n ==> !#[trigger] pred(j),
    decreases n - from,
{
    if from < n {
        lemma_first_where_none(n, pred, from + 1);
    }
}

/// The `Option<usize>` result of a search, as an `Option<int>`.
pub open spec fn as_int(r: Option<usize>) -> Option<int> {
    match r {
        Some(i) => Some(i as int),
        None => None,
    }
}

pub open spec fn subfilter_key() -> Seq<u8> {
    seq![47u8, 83, 117, 98, 70, 105, 108, 116, 101, 114]
}

pub open spec fn etsi_name() -> Seq<u8> {
    seq![47u8, 69, 84, 83, 73, 46, 67, 65, 100, 69, 83, 46, 100, 101, 116, 97, 99, 104, 101, 100]
}

pub open spec fn adbe_name() -> Seq<u8> {
    seq![47u8, 97, 100, 98, 101, 46, 112, 107, 99, 115, 55, 46, 100, 101, 116, 97, 99, 104, 101, 100]
}

pub open spec fn contents_key() -> Seq<u8> {
    seq![47u8, 67, 111, 110, 116, 101, 110, 116, 115]
}

pub open spec fn byte_range_key() -> Seq<u8> {
    seq![47u8, 66, 121, 116, 101, 82, 97, 110, 103, 101]
}

/// `u8::is_ascii_whitespace`: space, tab, line feed, form feed, carriage return.
pub open spec fn is_ascii_ws(b: u8) -> bool {
    b == 32 || b == 9 || b == 10 || b == 12 || b == 13
}

/// The first index at or after `j` that is not ASCII whitespace (or the end).
pub open spec fn ws_end(buf: Seq<u8>, j: int) -> int
    decreases buf.len() - j,
{
    if 0 <= j < buf.len() && is_ascii_ws(buf[j]) {
        ws_end(buf, j + 1)
    } else {
        j
    }
}

/// `/SubFilter` at `i`, followed (after optional whitespace) by
/// `/ETSI.CAdES.detached` or `/adbe.pkcs7.detached`.
pub open spec fn is_subfilter_at(buf: Seq<u8>, i: int) -> bool {
    &&& occurs(buf, subfilter_key(), i)
    &&& (occurs(buf, etsi_name(), ws_end(buf, i + 10)) || occurs(
        buf,
        adbe_name(),
        ws_end(buf, i + 10),
    ))
}

pub open spec fn subfilter_pred(buf: Seq<u8>) -> spec_fn(int) -> bool {
    |i: int| is_subfilter_at(buf, i)
}

pub open spec fn occurs_pred(buf: Seq<u8>, p: Seq<u8>) -> spec_fn(int) -> bool {
    |i: int| occurs(buf, p, i)
}

/// The first signature `/SubFilter` at or after `from`.
pub open spec fn first_subfilter(buf: Seq<u8>, from: int) -> Option<int> {
    first_where(buf.len() as int, subfilter_pred(buf), from)
}

/// All signature `/SubFilter` positions at or after `from`, in increasing order.
pub open spec fn subfilters_from(buf: Seq<u8>, from: int) -> Seq<int>
    decreases buf.len() - from,
{
    if from < 0 || from >= buf.len() {
        seq![]
    } else if is_subfilter_at(buf, from) {
        seq![from] + subfilters_from(buf, from + 1)
    } else {
        subfilters_from(buf, from + 1)
    }
}

proof fn lemma_subfilters_first(buf: Seq<u8>, from: int)
    requires
        0 <= from,
    ensures
        match first_subfilter(buf, from) {
            Some(i) => subfilters_from(buf, from) == seq![i] + subfilters_from(buf, i + 1),
            None => subfilters_from(buf, from) == Seq::<int>::empty(),
        },
    decreases buf.len() - from,
{
    if from < buf.len() && !is_subfilter_at(buf, from) {
        lemma_subfilters_first(buf, from + 1);
    }
}

/// `/Contents` at `i`, followed (after optional whitespace) by `<`.
pub open spec fn is_contents_hex_at(buf: Seq<u8>, i: int) -> bool {
    &&& occurs(buf, contents_key(), i)
    &&& {
        let j = ws_end(buf, i + 9);
        0 <= j < buf.len() && buf[j] == 60
    }
}

pub open spec fn contents_hex_pred(buf: Seq<u8>) -> spec_fn(int) -> bool {
    |i: int| is_contents_hex_at(buf, i)
}

pub open spec fn byte_pred(buf: Seq<u8>, b: u8) -> spec_fn(int) -> bool {
    |i: int| buf[i] == b
}

/// The `<` opening the `/Contents` hex string of the first `/Contents <` at or after `from`.
pub open spec fn contents_angle_from(buf: Seq<u8>, from: int) -> Option<int> {
    match first_where(buf.len() as int, contents_hex_pred(buf), from) {
        Some(k) => Some(ws_end(buf, k + 9)),
        None => None,
    }
}

/// The first `b` at or after `from`.
pub open spec fn first_byte(buf: Seq<u8>, b: u8, from: int) -> Option<int> {
    first_where(buf.len() as int, byte_pred(buf, b), from)
}

/// `true` when the `/Contents` hex string after `subfilter_base` holds only `0`
/// digits (a signature whose CMS is not written yet).
pub open spec fn is_provisional(buf: Seq<u8>, subfilter_base: int) -> bool {
    match contents_angle_from(buf, subfilter_base) {
        None => false,
        Some(lt) => match first_byte(buf, 62, lt + 1) {
            None => false,
            Some(gt) => forall|k: int| lt + 1 <= k < gt ==> #[trigger] buf[k] == 48,
        },
    }
}

/// The last provisional position of `ps` (searching from the end).
pub open spec fn last_provisional(buf: Seq<u8>, ps: Seq<int>) -> Option<int>
    decreases ps.len(),
{
    if ps.len() == 0 {
        None
    } else if is_provisional(buf, ps.last()) {
        Some(ps.last())
    } else {
        last_provisional(buf, ps.drop_last())
    }
}

/// The signature being completed: the last one whose `/Contents` is still all
/// zeros, else the first signature dictionary, if any.
pub open spec fn active_subfilter(buf: Seq<u8>) -> Option<int> {
    let ps = subfilters_from(buf, 0);
    match last_provisional(buf, ps) {
        Some(p) => Some(p),
        None => if ps.len() > 0 {
            Some(ps[0])
        } else {
            None
        },
    }
}

/// Bytes `p` at `buf[i..]`.
pub fn occurs_exec(buf: &[u8], p: &[u8], i: usize) -> (r: bool)
    ensures
        r == occurs(buf@, p@, i as int),
{
    if i > buf.len() || p.len() > buf.len() - i {
        return false;
    }
    let mut k: usize = 0;
    while k < p.len()
        invariant
            i + p@.len() <= buf@.len(),
            k <= p@.len(),
            forall|j: int| 0 <= j < k ==> buf@[i + j] == p@[j],
        decreases p@.len() - k,
    {
        assert(i + k < buf@.len());
        assert(buf@.len() == buf.len());
        if buf[i + k] != p[k] {
            assert(buf@.subrange(i as int, i + p@.len())[k as int] != p@[k as int]);
            return false;
        }
        k += 1;
    }
    assert(buf@.subrange(i as int, i + p@.len()) =~= p@);
    true
}

/// First occurrence of `needle` at or after `from`.
pub fn find_sub_from(haystack: &[u8], needle: &[u8], from: usize) -> (r: Option<usize>)
    ensures
        as_int(r) == first_where(haystack@.len() as int, occurs_pred(haystack@, needle@), from as int),
{
    let ghost pred = occurs_pred(haystack@, needle@);
    let n = haystack.len();
    let mut i = from;
    while i < n
        invariant
            from <= i,
            n == haystack@.len(),
            pred == occurs_pred(haystack@, needle@),
            first_where(n as int, pred, from as int) == first_where(n as int, pred, i as int),
        decreases n - i,
    {
        if occurs_exec(haystack, needle, i) {
            return Some(i);
        }
        i += 1;
    }
    None
}

/// Position of the first occurrence of `needle` in `haystack` (`windows().position()`);
/// `needle` must not be empty, as `slice::windows` requires.
pub fn find_sub(haystack: &[u8], needle: &[u8]) -> (r: Option<usize>)
    requires
        needle@.len() > 0,
    ensures
        as_int(r) == first_where(haystack@.len() as int, occurs_pred(haystack@, needle@), 0),
{
    find_sub_from(haystack, needle, 0)
}

/// The first index at or after `j` that is not ASCII whitespace.
pub fn ws_end_exec(buf: &[u8], j: usize) -> (r: usize)
    ensures
        r as int == ws_end(buf@, j as int),
        j <= r,
        r <= buf@.len() || r == j,
{
    let mut k = j;
    while k < buf.len() && (buf[k] == 32 || buf[k] == 9 || buf[k] == 10 || buf[k] == 12 || buf[k]
        == 13)
        invariant
            j <= k,
            k <= buf@.len() || k == j,
            ws_end(buf@, j as int) == ws_end(buf@, k as int),
        decreases buf@.len() - k,
    {
        k += 1;
    }
    k
}

fn subfilter_key_bytes() -> (r: Vec<u8>)
    ensures
        r@ == subfilter_key(),
{
    let r = vec![47u8, 83, 117, 98, 70, 105, 108, 116, 101, 114];
    assert(r@ =~= subfilter_key());
    r
}

fn etsi_bytes() -> (r: Vec<u8>)
    ensures
        r@ == etsi_name(),
{
    let r = vec![47u8, 69, 84, 83, 73, 46, 67, 65, 100, 69, 83, 46, 100, 101, 116, 97, 99, 104, 101, 100];
    assert(r@ =~= etsi_name());
    r
}

fn adbe_bytes() -> (r: Vec<u8>)
    ensures
        r@ == adbe_name(),
{
    let r = vec![47u8, 97, 100, 98, 101, 46, 112, 107, 99, 115, 55, 46, 100, 101, 116, 97, 99, 104, 101, 100];
    assert(r@ =~= adbe_name());
    r
}

fn contents_key_bytes() -> (r: Vec<u8>)
    ensures
        r@ == contents_key(),
{
    let r = vec![47u8, 67, 111, 110, 116, 101, 110, 116, 115];
    assert(r@ =~= contents_key());
    r
}

fn byte_range_key_bytes() -> (r: Vec<u8>)
    ensures
        r@ == byte_range_key(),
{
    let r = vec![47u8, 66, 121, 116, 101, 82, 97, 110, 103, 101];
    assert(r@ =~= byte_range_key());
    r
}

/// First `/SubFilter /ETSI.CAdES.detached` or `/SubFilter /adbe.pkcs7.detached`
/// at or after `search_from` (`lopdf` may or may not put a space before the name).
pub fn find_subfilter_pades_from(buf: &[u8], search_from: usize) -> (r: Option<usize>)
    ensures
        as_int(r) == first_subfilter(buf@, search_from as int),
{
    let key = subfilter_key_bytes();
    let etsi = etsi_bytes();
    let adbe = adbe_bytes();
    let ghost pred = subfilter_pred(buf@);
    let ghost keyp = occurs_pred(buf@, subfilter_key());
    let mut from = search_from;
    while from < buf.len()
        invariant
            search_from <= from,
            key@ == subfilter_key(),
            etsi@ == etsi_name(),
            adbe@ == adbe_name(),
            pred == subfilter_pred(buf@),
            keyp == occurs_pred(buf@, subfilter_key()),
            first_subfilter(buf@, search_from as int) == first_subfilter(buf@, from as int),
        decreases buf@.len() - from,
    {
        let found = find_sub_from(buf, key.as_slice(), from);
        let i = match found {
            None => {
                proof {
                    lemma_first_where_none(buf@.len() as int, keyp, from as int);
                    assert forall|j: int| from <= j < buf@.len() && j < buf@.len() implies !#[trigger] pred(j) by {
                        if pred(j) {
                            assert(keyp(j));
                        }
                    }
                    lemma_first_where_skip(buf@.len() as int, pred, from as int, buf@.len() as int);
                }
                return None;
            },
            Some(i) => i,
        };
        proof {
            lemma_first_where_found(buf@.len() as int, keyp, from as int, i as int);
            assert forall|j: int| from <= j < i && j < buf@.len() implies !#[trigger] pred(j) by {
                if pred(j) {
                    assert(keyp(j));
                }
            }
            lemma_first_where_skip(buf@.len() as int, pred, from as int, i as int);
        }
        let j = ws_end_exec(buf, i + 10);
        if occurs_exec(buf, etsi.as_slice(), j) || occurs_exec(buf, adbe.as_slice(), j) {
            assert(pred(i as int));
            return Some(i);
        }
        assert(!pred(i as int));
        from = i + 1;
    }
    proof {
        assert(first_subfilter(buf@, from as int) is None);
    }
    None
}

/// Every signature `/SubFilter` position, in increasing order.
pub fn enumerate_subfilter_pades(buf: &[u8]) -> (r: Vec<usize>)
    ensures
        r@.map_values(|i: usize| i as int) == subfilters_from(buf@, 0),
{
    let mut out: Vec<usize> = Vec::new();
    let mut from: usize = 0;
    loop
        invariant
            subfilters_from(buf@, 0) == out@.map_values(|i: usize| i as int) + subfilters_from(
                buf@,
                from as int,
            ),
        decreases buf@.len() + 1 - from,
    {
        let found = find_subfilter_pades_from(buf, from);
        proof {
            lemma_subfilters_first(buf@, from as int);
        }
        match found {
            None => {
                assert(out@.map_values(|i: usize| i as int) + Seq::<int>::empty() =~= out@.map_values(
                    |i: usize| i as int,
                ));
                return out;
            },
            Some(i) => {
                proof {
                    lemma_first_where_found(buf@.len() as int, subfilter_pred(buf@), from as int, i as int);
                }
                let ghost before = out@.map_values(|i: usize| i as int);
                out.push(i);
                assert(out@.map_values(|i: usize| i as int) =~= before.push(i as int));
                assert(before + (seq![i as int] + subfilters_from(buf@, i + 1)) =~= before.push(
                    i as int,
                ) + subfilters_from(buf@, i + 1));
                assert(i < buf.len());
                from = i + 1;
            },
        }
    }
}

/// Position of the `<` that opens the `/Contents` hex string (searching from `from`).
pub fn find_contents_hex_angle_open(buf: &[u8], from: usize) -> (r: Option<usize>)
    ensures
        as_int(r) == contents_angle_from(buf@, from as int),
        match r {
            Some(lt) => lt < buf@.len() && buf@[lt as int] == 60,
            None => true,
        },
{
    let key = contents_key_bytes();
    let ghost pred = contents_hex_pred(buf@);
    let ghost keyp = occurs_pred(buf@, contents_key());
    let mut search_from = from;
    while search_from < buf.len()
        invariant
            from <= search_from,
            key@ == contents_key(),
            pred == contents_hex_pred(buf@),
            keyp == occurs_pred(buf@, contents_key()),
            first_where(buf@.len() as int, pred, from as int) == first_where(
                buf@.len() as int,
                pred,
                search_from as int,
            ),
        decreases buf@.len() - search_from,
    {
        let found = find_sub_from(buf, key.as_slice(), search_from);
        let key_start = match found {
            None => {
                proof {
                    lemma_first_where_none(buf@.len() as int, keyp, search_from as int);
                    assert forall|j: int| search_from <= j < buf@.len() && j < buf@.len() implies !#[trigger] pred(j) by {
                        if pred(j) {
                            assert(keyp(j));
                        }
                    }
                    lemma_first_where_skip(buf@.len() as int, pred, search_from as int, buf@.len() as int);
                }
                return None;
            },
            Some(k) => k,
        };
        proof {
            lemma_first_where_found(buf@.len() as int, keyp, search_from as int, key_start as int);
            assert forall|j: int| search_from <= j < key_start && j < buf@.len() implies !#[trigger] pred(j) by {
                if pred(j) {
                    assert(keyp(j));
                }
            }
            lemma_first_where_skip(buf@.len() as int, pred, search_from as int, key_start as int);
        }
        let j = ws_end_exec(buf, key_start + 9);
        if j < buf.len() && buf[j] == 60 {
            assert(pred(key_start as int));
            return Some(j);
        }
        assert(!pred(key_start as int));
        assert(key_start < buf.len());
        search_from = key_start + 1;
    }
    None
}

/// First `b` at or after `from`.
pub fn find_byte_from(buf: &[u8], b: u8, from: usize) -> (r: Option<usize>)
    ensures
        as_int(r) == first_byte(buf@, b, from as int),
{
    let ghost pred = byte_pred(buf@, b);
    let mut i = from;
    while i < buf.len()
        invariant
            from <= i,
            pred == byte_pred(buf@, b),
            first_where(buf@.len() as int, pred, from as int) == first_where(
                buf@.len() as int,
                pred,
                i as int,
            ),
        decreases buf@.len() - i,
    {
        if buf[i] == b {
            return Some(i);
        }
        i += 1;
    }
    None
}

/// `true` when the `/Contents` hex after `subfilter_base` is empty or all `0`
/// (a signature added by this run, whose CMS is not written yet).
pub fn contents_hex_is_provisional(buf: &[u8], subfilter_base: usize) -> (r: bool)
    ensures
        r == is_provisional(buf@, subfilter_base as int),
{
    let lt = match find_contents_hex_angle_open(buf, subfilter_base) {
        None => return false,
        Some(lt) => lt,
    };
    assert(lt < buf.len());
    let gt = match find_byte_from(buf, 62, lt + 1) {
        None => return false,
        Some(gt) => gt,
    };
    proof {
        lemma_first_where_found(buf@.len() as int, byte_pred(buf@, 62), lt + 1, gt as int);
    }
    let mut k = lt + 1;
    while k < gt
        invariant
            contents_angle_from(buf@, subfilter_base as int) == Some(lt as int),
            first_byte(buf@, 62, lt + 1) == Some(gt as int),
            lt + 1 <= k <= gt,
            gt < buf@.len(),
            forall|m: int| lt + 1 <= m < k ==> #[trigger] buf@[m] == 48,
        decreases gt - k,
    {
        if buf[k] != 48 {
            return false;
        }
        k += 1;
    }
    true
}

/// Signature dictionary being completed: the provisional one just added (its
/// `/Contents` hex still zeros); in a PDF signed before there are several.
pub fn find_subfilter_pades(buf: &[u8]) -> (r: Option<usize>)
    ensures
        as_int(r) == active_subfilter(buf@),
{
    let all = enumerate_subfilter_pades(buf);
    let ghost ps = subfilters_from(buf@, 0);
    let mut k = all.len();
    assert(all@.map_values(|i: usize| i as int).take(k as int) =~= ps);
    while k > 0
        invariant
            k <= all@.len(),
            ps == subfilters_from(buf@, 0),
            all@.map_values(|i: usize| i as int) == ps,
            last_provisional(buf@, ps) == last_provisional(
                buf@,
                ps.take(k as int),
            ),
        decreases k,
    {
        let base = all[k - 1];
        assert(ps.take(k as int).last() == base as int);
        assert(ps.take(k as int).drop_last() =~= ps.take(k - 1));
        if contents_hex_is_provisional(buf, base) {
            return Some(base);
        }
        k -= 1;
    }
    assert(ps.take(0) =~= Seq::<int>::empty());
    if all.len() > 0 {
        Some(all[0])
    } else {
        None
    }
}

/// The bytes a PAdES signature covers: everything but the `/Contents` hex
/// string delimited by `<` at `lt` and `>` at `gt`.
pub open spec fn signed_region(buf: Seq<u8>, lt: int, gt: int) -> Seq<u8> {
    buf.subrange(0, lt) + buf.subrange(gt + 1, buf.len() as int)
}

/// The error holds exactly the message `m`.
pub open spec fn pades_error(r: SignBatchError, m: Seq<char>) -> bool {
    r matches SignBatchError::Pades(x) && x@ == m
}

fn pades_err(m: &str) -> (e: SignBatchError)
    ensures
        pades_error(e, m@),
{
    SignBatchError::Pades(String::from_str(m))
}

fn concat_bytes(a: &[u8], b: &[u8]) -> (r: Vec<u8>)
    ensures
        r@ == a@ + b@,
{
    let mut r: Vec<u8> = Vec::new();
    let mut i: usize = 0;
    while i < a.len()
        invariant
            i <= a@.len(),
            r@ == a@.subrange(0, i as int),
        decreases a@.len() - i,
    {
        r.push(a[i]);
        i += 1;
        assert(r@ =~= a@.subrange(0, i as int));
    }
    let mut j: usize = 0;
    while j < b.len()
        invariant
            j <= b@.len(),
            r@ == a@ + b@.subrange(0, j as int),
        decreases b@.len() - j,
    {
        r.push(b[j]);
        j += 1;
        assert(r@ =~= a@ + b@.subrange(0, j as int));
    }
    assert(a@.subrange(0, a@.len() as int) =~= a@);
    assert(b@.subrange(0, b@.len() as int) =~= b@);
    r
}

fn slice_bytes(v: &[u8], lo: usize, hi: usize) -> (r: Vec<u8>)
    requires
        lo <= hi <= v@.len(),
    ensures
        r@ == v@.subrange(lo as int, hi as int),
{
    let mut r: Vec<u8> = Vec::new();
    let mut i = lo;
    while i < hi
        invariant
            lo <= i <= hi <= v@.len(),
            r@ == v@.subrange(lo as int, i as int),
        decreases hi - i,
    {
        r.push(v[i]);
        i += 1;
        assert(r@ =~= v@.subrange(lo as int, i as int));
    }
    r
}

/// SHA-256 of the PDF without the hex contents of `/Contents < ... >`.
pub fn digest_pdf_pades(buf: &[u8]) -> (r: Result<Vec<u8>, SignBatchError>)
    ensures
        match active_subfilter(buf@) {
            None => r matches Err(e) && pades_error(
                e,
                "no se encontró el diccionario de firma (/SubFilter ETSI.CAdES.detached o adbe.pkcs7.detached) tras guardar"@,
            ),
            Some(base) => match contents_angle_from(buf@, base) {
                None => r matches Err(e) && pades_error(e, "no se encontró /Contents <hex> para la firma"@),
                Some(lt) => match first_byte(buf@, 62, lt + 1) {
                    None => r matches Err(e) && pades_error(e, "sin '>' de cierre de Contents"@),
                    Some(gt) => r matches Ok(d) && d@ == codec::sha256_of(signed_region(buf@, lt, gt)),
                },
            },
        },
{
    let base = match find_subfilter_pades(buf) {
        None => return Err(pades_err(
            "no se encontró el diccionario de firma (/SubFilter ETSI.CAdES.detached o adbe.pkcs7.detached) tras guardar",
        )),
        Some(b) => b,
    };
    let lt = match find_contents_hex_angle_open(buf, base) {
        None => return Err(pades_err("no se encontró /Contents <hex> para la firma")),
        Some(lt) => lt,
    };
    assert(lt < buf.len());
    let gt = match find_byte_from(buf, 62, lt + 1) {
        None => return Err(pades_err("sin '>' de cierre de Contents")),
        Some(gt) => gt,
    };
    proof {
        lemma_first_where_found(buf@.len() as int, byte_pred(buf@, 62), lt + 1, gt as int);
    }
    let head = slice_bytes(buf, 0, lt);
    let tail = slice_bytes(buf, gt + 1, buf.len());
    let region = concat_bytes(head.as_slice(), tail.as_slice());
    Ok(codec::sha256_digest(region.as_slice()))
}

/// The upper-case hex of `cms` as ASCII bytes.
pub open spec fn hex_upper_bytes(cms: Seq<u8>) -> Seq<u8> {
    codec::hex_of(cms, true).map_values(|c: char| c as u8)
}

/// `n` copies of byte `b`.
pub open spec fn repeat_byte(b: u8, n: nat) -> Seq<u8> {
    Seq::new(n, |i: int| b)
}

/// The error message for a CMS too large for the reserved hole.
pub open spec fn cms_too_large_message(hex_len: nat, hole: nat) -> Seq<char> {
    "tamaño CMS ("@ + text::decimal(hex_len) + ") excede el hueco hex ("@ + text::decimal(hole) + ")"@
}

fn cms_too_large_error(hex_len: usize, hole: usize) -> (e: SignBatchError)
    ensures
        pades_error(e, cms_too_large_message(hex_len as nat, hole as nat)),
{
    let mut v = text::chars_of("tamaño CMS (");
    text::append_chars(&mut v, &text::decimal_chars(hex_len as u64));
    text::append_chars(&mut v, &text::chars_of(") excede el hueco hex ("));
    text::append_chars(&mut v, &text::decimal_chars(hole as u64));
    text::append_chars(&mut v, &text::chars_of(")"));
    SignBatchError::Pades(text::string_of(&v))
}

/// Writes `src` into `buf` from `at`.
fn write_at(buf: &mut Vec<u8>, at: usize, src: &[u8])
    requires
        at + src@.len() <= old(buf)@.len(),
    ensures
        final(buf)@ == old(buf)@.subrange(0, at as int) + src@ + old(buf)@.subrange(
            at + src@.len(),
            old(buf)@.len() as int,
        ),
{
    let ghost start = buf@;
    let mut i: usize = 0;
    while i < src.len()
        invariant
            at + src@.len() <= start.len(),
            buf@.len() == start.len(),
            i <= src@.len(),
            buf@ == start.subrange(0, at as int) + src@.subrange(0, i as int) + start.subrange(
                at + i,
                start.len() as int,
            ),
        decreases src@.len() - i,
    {
        assert(at + i < buf.len());
        buf.set(at + i, src[i]);
        i += 1;
        assert(buf@ =~= start.subrange(0, at as int) + src@.subrange(0, i as int) + start.subrange(
            at + i,
            start.len() as int,
        ));
    }
    assert(src@.subrange(0, src@.len() as int) =~= src@);
}

/// Fills `buf[lo..hi]` with `b`.
fn fill_range(buf: &mut Vec<u8>, lo: usize, hi: usize, b: u8)
    requires
        lo <= hi <= old(buf)@.len(),
    ensures
        final(buf)@ == old(buf)@.subrange(0, lo as int) + repeat_byte(b, (hi - lo) as nat)
            + old(buf)@.subrange(hi as int, old(buf)@.len() as int),
{
    let ghost start = buf@;
    let mut i = lo;
    while i < hi
        invariant
            lo <= i <= hi <= start.len(),
            buf@.len() == start.len(),
            buf@ == start.subrange(0, lo as int) + repeat_byte(b, (i - lo) as nat) + start.subrange(
                i as int,
                start.len() as int,
            ),
        decreases hi - i,
    {
        buf.set(i, b);
        i += 1;
        assert(buf@ =~= start.subrange(0, lo as int) + repeat_byte(b, (i - lo) as nat)
            + start.subrange(i as int, start.len() as int));
    }
}

/// Writes the CMS (upper-case hex) into the `/Contents` hole, padding with `0`.
pub fn patch_pdf_contents_der(buf: &mut Vec<u8>, cms_der: &[u8]) -> (r: Result<(), SignBatchError>)
    ensures
        match active_subfilter(old(buf)@) {
            None => r matches Err(e) && pades_error(e, "marker cms"@) && final(buf)@ == old(buf)@,
            Some(base) => match contents_angle_from(old(buf)@, base) {
                None => r matches Err(e) && pades_error(e, "/Contents"@) && final(buf)@ == old(buf)@,
                Some(lt) => match first_byte(old(buf)@, 62, lt + 1) {
                    None => r matches Err(e) && pades_error(e, "cierre contents"@) && final(buf)@
                        == old(buf)@,
                    Some(gt) => {
                        let hole = gt - (lt + 1);
                        let hex = hex_upper_bytes(cms_der@);
                        if hex.len() > hole {
                            r matches Err(e) && pades_error(
                                e,
                                cms_too_large_message(hex.len(), hole as nat),
                            ) && final(buf)@ == old(buf)@
                        } else {
                            r is Ok && final(buf)@ == old(buf)@.subrange(0, lt + 1) + hex
                                + repeat_byte(48, (hole - hex.len()) as nat) + old(buf)@.subrange(
                                gt as int,
                                old(buf)@.len() as int,
                            )
                        }
                    },
                },
            },
        },
{
    let base = match find_subfilter_pades(buf.as_slice()) {
        None => return Err(pades_err("marker cms")),
        Some(b) => b,
    };
    let lt = match find_contents_hex_angle_open(buf.as_slice(), base) {
        None => return Err(pades_err("/Contents")),
        Some(lt) => lt,
    };
    assert(lt < buf.len());
    let inner_start = lt + 1;
    let inner_end = match find_byte_from(buf.as_slice(), 62, inner_start) {
        None => return Err(pades_err("cierre contents")),
        Some(gt) => gt,
    };
    proof {
        lemma_first_where_found(buf@.len() as int, byte_pred(buf@, 62), lt + 1, inner_end as int);
    }
    let expected_hex_len = inner_end - inner_start;
    let hex = codec::hex_encode_upper(cms_der);
    if hex.len() > expected_hex_len {
        return Err(cms_too_large_error(hex.len(), expected_hex_len));
    }
    let ghost start = buf@;
    write_at(buf, inner_start, hex.as_slice());
    let ghost mid = buf@;
    fill_range(buf, inner_start + hex.len(), inner_end, 48);
    proof {
        assert(buf@ =~= start.subrange(0, lt + 1) + hex@ + repeat_byte(
            48,
            (expected_hex_len - hex@.len()) as nat,
        ) + start.subrange(inner_end as int, start.len() as int));
    }
    Ok(())
}

/// The `/ByteRange` value written for the hole `[lt, gt]` of a buffer of length `n`:
/// `0 lt gt+1 n-gt-1`.
pub open spec fn byte_range_text(lt: nat, gt: nat, n: nat) -> Seq<u8> {
    (seq!['0', ' '] + text::decimal(lt) + seq![' '] + text::decimal(gt + 1) + seq![' ']
        + text::decimal((n - (gt + 1)) as nat)).map_values(|c: char| c as u8)
}

fn chars_to_bytes(v: &[char]) -> (r: Vec<u8>)
    ensures
        r@ == v@.map_values(|c: char| c as u8),
{
    let mut r: Vec<u8> = Vec::new();
    let mut i: usize = 0;
    while i < v.len()
        invariant
            i <= v@.len(),
            r@ == v@.subrange(0, i as int).map_values(|c: char| c as u8),
        decreases v@.len() - i,
    {
        r.push(v[i] as u8);
        i += 1;
        assert(r@ =~= v@.subrange(0, i as int).map_values(|c: char| c as u8));
    }
    assert(v@.subrange(0, v@.len() as int) =~= v@);
    r
}

/// Writes `/ByteRange [0 lt gt+1 len2]` for the signature being completed,
/// padding the array with spaces to its reserved width.
pub fn patch_byte_range(buf: &mut Vec<u8>) -> (r: Result<(), SignBatchError>)
    ensures
        match active_subfilter(old(buf)@) {
            None => r matches Err(e) && pades_error(
                e,
                "no se encontró la firma provisional (/SubFilter) en el PDF incremental"@,
            ) && final(buf)@ == old(buf)@,
            Some(base) => match contents_angle_from(old(buf)@, base) {
                None => r matches Err(e) && pades_error(e, "contents"@) && final(buf)@ == old(buf)@,
                Some(lt) => match first_byte(old(buf)@, 62, lt + 1) {
                    None => r matches Err(e) && pades_error(e, ">"@) && final(buf)@ == old(buf)@,
                    Some(gt) => match first_where(
                        old(buf)@.len() as int,
                        occurs_pred(old(buf)@, byte_range_key()),
                        base,
                    ) {
                        None => r matches Err(e) && pades_error(e, "/ByteRange"@) && final(buf)@
                            == old(buf)@,
                        Some(br) => match first_byte(old(buf)@, 91, br) {
                            None => r matches Err(e) && pades_error(e, "[ br"@) && final(buf)@
                                == old(buf)@,
                            Some(open) => match first_byte(old(buf)@, 93, open) {
                                None => r matches Err(e) && pades_error(e, "] br"@) && final(buf)@
                                    == old(buf)@,
                                Some(close) => {
                                    let text = byte_range_text(
                                        lt as nat,
                                        gt as nat,
                                        old(buf)@.len(),
                                    );
                                    let width = close - (open + 1);
                                    if width < text.len() {
                                        r matches Err(e) && pades_error(
                                            e,
                                            "hueco /ByteRange demasiado pequeño"@,
                                        ) && final(buf)@ == old(buf)@
                                    } else {
                                        r is Ok && final(buf)@ == old(buf)@.subrange(0, open + 1)
                                            + text + repeat_byte(32, (width - text.len()) as nat)
                                            + old(buf)@.subrange(close as int, old(buf)@.len() as int)
                                    }
                                },
                            },
                        },
                    },
                },
            },
        },
{
    let base = match find_subfilter_pades(buf.as_slice()) {
        None => return Err(pades_err(
            "no se encontró la firma provisional (/SubFilter) en el PDF incremental",
        )),
        Some(b) => b,
    };
    let lt = match find_contents_hex_angle_open(buf.as_slice(), base) {
        None => return Err(pades_err("contents")),
        Some(lt) => lt,
    };
    assert(lt < buf.len());
    let gt = match find_byte_from(buf.as_slice(), 62, lt + 1) {
        None => return Err(pades_err(">")),
        Some(gt) => gt,
    };
    proof {
        lemma_first_where_found(buf@.len() as int, byte_pred(buf@, 62), lt + 1, gt as int);
    }
    let start2 = gt + 1;
    let len2 = buf.len() - start2;
    let mut br_chars: Vec<char> = vec!['0', ' '];
    text::append_chars(&mut br_chars, &text::decimal_chars(lt as u64));
    br_chars.push(' ');
    text::append_chars(&mut br_chars, &text::decimal_chars(start2 as u64));
    br_chars.push(' ');
    text::append_chars(&mut br_chars, &text::decimal_chars(len2 as u64));
    let br = chars_to_bytes(&br_chars);
    assert(br@ == byte_range_text(lt as nat, gt as nat, buf@.len())) by {
        assert(br_chars@ =~= seq!['0', ' '] + text::decimal(lt as nat) + seq![' '] + text::decimal(
            (gt + 1) as nat,
        ) + seq![' '] + text::decimal((buf@.len() - (gt + 1)) as nat));
    }
    let key = byte_range_key_bytes();
    let br_pos = match find_sub_from(buf.as_slice(), key.as_slice(), base) {
        None => return Err(pades_err("/ByteRange")),
        Some(p) => p,
    };
    proof {
        lemma_first_where_found(buf@.len() as int, occurs_pred(buf@, byte_range_key()), base as int, br_pos as int);
    }
    let open = match find_byte_from(buf.as_slice(), 91, br_pos) {
        None => return Err(pades_err("[ br")),
        Some(o) => o,
    };
    proof {
        lemma_first_where_found(buf@.len() as int, byte_pred(buf@, 91), br_pos as int, open as int);
    }
    let close = match find_byte_from(buf.as_slice(), 93, open) {
        None => return Err(pades_err("] br")),
        Some(c) => c,
    };
    proof {
        lemma_first_where_found(buf@.len() as int, byte_pred(buf@, 93), open as int, close as int);
    }
    assert(close > open);
    let width = close - (open + 1);
    if width < br.len() {
        return Err(pades_err("hueco /ByteRange demasiado pequeño"));
    }
    let ghost start = buf@;
    write_at(buf, open + 1, br.as_slice());
    fill_range(buf, open + 1 + br.len(), close, 32);
    proof {
        assert(buf@ =~= start.subrange(0, open + 1) + br@ + repeat_byte(32, (width - br@.len()) as nat)
            + start.subrange(close as int, start.len() as int));
    }
    Ok(())
}

/// Writing the CMS into the hole leaves every signed byte as it was: the
/// region outside `[lt, gt]` of the patched buffer equals that of the original.
pub proof fn law_contents_patch_keeps_signed_region(
    old_buf: Seq<u8>,
    lt: int,
    gt: int,
    fill: Seq<u8>,
)
    requires
        0 <= lt < gt < old_buf.len(),
        fill.len() == gt - (lt + 1),
    ensures
        ({
            let new_buf = old_buf.subrange(0, lt + 1) + fill + old_buf.subrange(gt, old_buf.len() as int);
            new_buf.len() == old_buf.len() && signed_region(new_buf, lt, gt) == signed_region(
                old_buf,
                lt,
                gt,
            )
        }),
{
    let new_buf = old_buf.subrange(0, lt + 1) + fill + old_buf.subrange(gt, old_buf.len() as int);
    assert(new_buf.subrange(0, lt) =~= old_buf.subrange(0, lt));
    assert(new_buf.subrange(gt + 1, new_buf.len() as int) =~= old_buf.subrange(gt + 1, old_buf.len() as int));
}

/// The `/ByteRange` that [`patch_byte_range`] writes and the bytes that
/// [`digest_pdf_pades`] hashes describe the same region of the same buffer:
/// `[0, lt)` followed by `[gt + 1, len)`.
pub proof fn law_byte_range_matches_digest(buf: Seq<u8>, lt: int, gt: int)
    requires
        0 <= lt < gt < buf.len(),
    ensures
        signed_region(buf, lt, gt) == buf.subrange(0, lt) + buf.subrange(
            gt + 1,
            gt + 1 + (buf.len() - (gt + 1)),
        ),
        signed_region(buf, lt, gt).len() == lt + (buf.len() - (gt + 1)),
{
}

} // verus!
