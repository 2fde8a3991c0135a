//! Origin comparison and normalisation for the local API's CORS policy.

use vstd::prelude::*;
use crate::text;

verus! {

pub open spec fn null_word() -> Seq<char> {
    seq!['n', 'u', 'l', 'l']
}

pub open spec fn scheme_sep() -> Seq<char> {
    seq![':', '/', '/']
}

pub open spec fn loopback_dot_port() -> Seq<char> {
    seq!['1', '2', '7', '.', '0', '.', '0', '.', '1', '.', ':']
}

pub open spec fn loopback_port() -> Seq<char> {
    seq!['1', '2', '7', '.', '0', '.', '0', '.', '1', ':']
}

/// A character allowed in a URL scheme.
pub open spec fn scheme_char(c: char) -> bool {
    ('a' <= c && c <= 'z') || ('A' <= c && c <= 'Z') || ('0' <= c && c <= '9') || c == '-' || c
        == '+' || c == '.'
}

/// `raw` looks like an origin URL, `scheme://…`.
pub open spec fn well_formed(raw: Seq<char>) -> bool {
    let s = text::trim(raw);
    &&& s.len() > 0
    &&& !text::eq_ignore_case(s, null_word())
    &&& match text::find_from(s, scheme_sep(), 0) {
        Some(k) => {
            &&& k > 0
            &&& k + 3 < s.len()
            &&& forall|j: int| 0 <= j < k ==> scheme_char(#[trigger] s[j])
        },
        None => false,
    }
}

/// The form in which origins are compared: trimmed, without trailing `/`,
/// and with the stray dot in `127.0.0.1.:` removed.
pub open spec fn normalized(raw: Seq<char>) -> Seq<char> {
    text::replace_all(text::strip_trailing(text::trim(raw), '/'), loopback_dot_port(), loopback_port())
}

/// What a browser's `Origin` header gives, if it is an origin.
pub open spec fn origin_of_header(h: Option<Seq<char>>) -> Option<Seq<char>> {
    match h {
        None => None,
        Some(x) => {
            let t = text::trim(x);
            if t.len() > 0 && well_formed(t) {
                Some(normalized(t))
            } else {
                None
            }
        },
    }
}

pub open spec fn is_authority_end(c: char) -> bool {
    c == '/' || c == '?' || c == '#'
}

/// Length of the authority at the start of `rest` (up to `/`, `?` or `#`).
pub open spec fn authority_len(rest: Seq<char>) -> int
    decreases rest.len(),
{
    if rest.len() == 0 || is_authority_end(rest[0]) {
        0
    } else {
        1 + authority_len(rest.drop_first())
    }
}

/// The origin (`scheme://authority`) of a `Referer` URL.
pub open spec fn origin_of_referer(referer: Seq<char>) -> Option<Seq<char>> {
    let r = text::trim(referer);
    if r.len() == 0 {
        None
    } else {
        match text::find_from(r, scheme_sep(), 0) {
            None => None,
            Some(k) => {
                let scheme = r.subrange(0, k);
                let rest = r.skip(k + 3);
                let auth = rest.take(authority_len(rest));
                if auth.len() == 0 {
                    None
                } else {
                    origin_of_header(Some(scheme + scheme_sep() + auth))
                }
            },
        }
    }
}

/// Some entry of `allowed` normalises to the same origin as `origin`.
pub open spec fn allowed_in(origin: Seq<char>, allowed: Seq<Seq<char>>) -> bool {
    exists|i: int| 0 <= i < allowed.len() && normalized(#[trigger] allowed[i]) == normalized(origin)
}

fn scheme_char_exec(c: char) -> (r: bool)
    ensures
        r == scheme_char(c),
{
    ('a' <= c && c <= 'z') || ('A' <= c && c <= 'Z') || ('0' <= c && c <= '9') || c == '-' || c
        == '+' || c == '.'
}

fn well_formed_chars(v: &[char]) -> (r: bool)
    ensures
        r == well_formed(v@),
{
    let s = text::trim_chars(v);
    if s.len() == 0 {
        return false;
    }
    let null = vec!['n', 'u', 'l', 'l'];
    assert(null@ =~= null_word());
    if text::eq_ignore_case_exec(&s, &null) {
        return false;
    }
    let sep = vec![':', '/', '/'];
    assert(sep@ =~= scheme_sep());
    let found = text::find_chars(&s, &sep, 0);
    proof {
        text::lemma_find_from_first(s@, sep@, 0, found);
    }
    match found {
        None => false,
        Some(k) => {
            if k == 0 || k + 3 >= s.len() {
                return false;
            }
            let mut j: usize = 0;
            while j < k
                invariant
                    s@ == text::trim(v@),
                    s@.len() > 0,
                    !text::eq_ignore_case(s@, null_word()),
                    text::find_from(s@, scheme_sep(), 0) == Some(k as int),
                    0 < k,
                    k + 3 < s@.len(),
                    j <= k,
                    forall|i: int| 0 <= i < j ==> scheme_char(#[trigger] s@[i]),
                decreases k - j,
            {
                if !scheme_char_exec(s[j]) {
                    return false;
                }
                j += 1;
            }
            true
        },
    }
}

/// `true` if `raw` looks like an origin URL (`scheme://…`).
pub fn is_well_formed_origin(raw: &str) -> (r: bool)
    ensures
        r == well_formed(raw@),
{
    let v = text::chars_of(raw);
    well_formed_chars(&v)
}

fn normalize_chars(v: &[char]) -> (r: Vec<char>)
    ensures
        r@ == normalized(v@),
{
    let t = text::trim_chars(v);
    let u = text::strip_trailing_chars(&t, '/');
    let from = vec!['1', '2', '7', '.', '0', '.', '0', '.', '1', '.', ':'];
    let to = vec!['1', '2', '7', '.', '0', '.', '0', '.', '1', ':'];
    assert(from@ =~= loopback_dot_port());
    assert(to@ =~= loopback_port());
    text::replace_all_chars(&u, &from, &to)
}

/// Normalises an origin for stable comparison: trimmed, no trailing `/`,
/// and `http://127.0.0.1.:14500` corrected to `http://127.0.0.1:14500`.
pub fn normalize_origin(raw: &str) -> (r: String)
    ensures
        r@ == normalized(raw@),
{
    let v = text::chars_of(raw);
    let n = normalize_chars(&v);
    text::string_of(&n)
}

fn origin_from_header_chars(h: &[char]) -> (r: Option<Vec<char>>)
    ensures
        match r {
            Some(x) => origin_of_header(Some(h@)) == Some(x@),
            None => origin_of_header(Some(h@)) is None,
        },
{
    let t = text::trim_chars(h);
    if t.len() == 0 {
        return None;
    }
    if well_formed_chars(&t) {
        Some(normalize_chars(&t))
    } else {
        None
    }
}

/// Parses a browser's standard `Origin` header.
pub fn origin_from_header(origin_header: Option<&str>) -> (r: Option<String>)
    ensures
        match origin_header {
            Some(h) => match r {
                Some(x) => origin_of_header(Some(h@)) == Some(x@),
                None => origin_of_header(Some(h@)) is None,
            },
            None => r is None,
        },
{
    match origin_header {
        None => None,
        Some(h) => {
            let v = text::chars_of(h);
            match origin_from_header_chars(&v) {
                Some(x) => Some(text::string_of(&x)),
                None => None,
            }
        },
    }
}

fn authority_len_exec(rest: &[char]) -> (n: usize)
    ensures
        n as int == authority_len(rest@),
        n <= rest@.len(),
{
    let mut i: usize = 0;
    assert(rest@.skip(0) =~= rest@);
    while i < rest.len() && !(rest[i] == '/' || rest[i] == '?' || rest[i] == '#')
        invariant
            i <= rest@.len(),
            authority_len(rest@) == i + authority_len(rest@.skip(i as int)),
        decreases rest@.len() - i,
    {
        assert(rest@.skip(i as int).drop_first() =~= rest@.skip(i + 1));
        i += 1;
    }
    proof {
        let tail = rest@.skip(i as int);
        if i < rest@.len() {
            assert(tail[0] == rest@[i as int]);
        }
    }
    i
}

/// The logical origin (`scheme://authority`) of a `Referer`, used when `Origin` is missing.
pub fn origin_from_referer(referer: &str) -> (r: Option<String>)
    ensures
        match r {
            Some(x) => origin_of_referer(referer@) == Some(x@),
            None => origin_of_referer(referer@) is None,
        },
{
    let v = text::chars_of(referer);
    let t = text::trim_chars(&v);
    if t.len() == 0 {
        return None;
    }
    let sep = vec![':', '/', '/'];
    assert(sep@ =~= scheme_sep());
    let found = text::find_chars(&t, &sep, 0);
    proof {
        text::lemma_find_from_first(t@, sep@, 0, found);
    }
    let k = match found {
        None => return None,
        Some(k) => k,
    };
    let rest = text::slice_chars(&t, k + 3, t.len());
    assert(rest@ =~= t@.skip(k + 3));
    let n = authority_len_exec(&rest);
    if n == 0 {
        return None;
    }
    let auth = text::slice_chars(&rest, 0, n);
    assert(auth@ =~= rest@.take(n as int));
    let mut candidate = text::slice_chars(&t, 0, k);
    text::append_chars(&mut candidate, &sep);
    text::append_chars(&mut candidate, &auth);
    match origin_from_header_chars(&candidate) {
        Some(x) => Some(text::string_of(&x)),
        None => None,
    }
}

/// `true` if `origin` is in `allowed`, both sides normalised.
pub fn is_origin_allowed(origin: &str, allowed: &[String]) -> (r: bool)
    ensures
        r == allowed_in(origin@, allowed@.map_values(|a: String| a@)),
{
    let ghost view = allowed@.map_values(|a: String| a@);
    let n = normalize_origin(origin);
    let mut i: usize = 0;
    while i < allowed.len()
        invariant
            i <= allowed@.len(),
            n@ == normalized(origin@),
            view == allowed@.map_values(|a: String| a@),
            forall|j: int| 0 <= j < i ==> normalized(#[trigger] view[j]) != normalized(origin@),
        decreases allowed@.len() - i,
    {
        let a = normalize_origin(allowed[i].as_str());
        if a == n {
            assert(normalized(view[i as int]) == normalized(origin@));
            return true;
        }
        i += 1;
    }
    false
}

proof fn lemma_trim_end_concat(a: Seq<char>, b: Seq<char>)
    requires
        b.len() > 0,
        !text::is_ws(b[0]),
    ensures
        text::trim_end(a + b) == a + text::trim_end(b),
        text::trim_end(b).len() > 0,
        text::trim_end(b)[0] == b[0],
    decreases b.len(),
{
    let ab = a + b;
    assert(ab.last() == b.last());
    if text::is_ws(b.last()) {
        assert(b.len() > 1);
        assert(ab.drop_last() =~= a + b.drop_last());
        assert(b.drop_last()[0] == b[0]);
        lemma_trim_end_concat(a, b.drop_last());
    }
}

proof fn lemma_find_scheme_sep(x: Seq<char>, scheme: Seq<char>, rest: Seq<char>, i: int)
    requires
        x == scheme + scheme_sep() + rest,
        0 <= i <= scheme.len(),
        forall|j: int| 0 <= j < scheme.len() ==> scheme[j] != ':',
    ensures
        text::find_from(x, scheme_sep(), i) == Some(scheme.len() as int),
    decreases scheme.len() - i,
{
    if i == scheme.len() {
        assert(x.subrange(i, i + 3) =~= scheme_sep());
    } else {
        assert(x.subrange(i, i + 3)[0] == scheme[i]);
        assert(!text::occurs_at(x, scheme_sep(), i));
        lemma_find_scheme_sep(x, scheme, rest, i + 1);
    }
}

proof fn lemma_authority_len(a: Seq<char>, q: Seq<char>)
    requires
        forall|j: int| 0 <= j < a.len() ==> !is_authority_end(a[j]),
        q.len() == 0 || is_authority_end(q[0]),
    ensures
        authority_len(a + q) == a.len(),
    decreases a.len(),
{
    if a.len() > 0 {
        assert((a + q)[0] == a[0]);
        assert((a + q).drop_first() =~= a.drop_first() + q);
        lemma_authority_len(a.drop_first(), q);
    } else {
        assert(a + q =~= q);
    }
}

/// The origin of `scheme://auth` followed by `q` (empty, or starting at a
/// path, query or fragment) is the origin of `scheme://auth` as a header.
proof fn lemma_referer_origin(scheme: Seq<char>, auth: Seq<char>, q: Seq<char>)
    requires
        forall|j: int| 0 <= j < scheme.len() ==> scheme[j] != ':' && !text::is_ws(scheme[j]),
        auth.len() > 0,
        forall|j: int| 0 <= j < auth.len() ==> !is_authority_end(auth[j]) && !text::is_ws(auth[j]),
        q.len() == 0 || is_authority_end(q[0]),
        text::trim(scheme + scheme_sep() + auth + q) == scheme + scheme_sep() + auth + q,
    ensures
        origin_of_referer(scheme + scheme_sep() + auth + q) == origin_of_header(
            Some(scheme + scheme_sep() + auth),
        ),
{
    let r = scheme + scheme_sep() + auth + q;
    let k = scheme.len() as int;
    assert(r =~= scheme + scheme_sep() + (auth + q));
    lemma_find_scheme_sep(r, scheme, auth + q, 0);
    assert(r.subrange(0, k) =~= scheme);
    assert(r.skip(k + 3) =~= auth + q);
    lemma_authority_len(auth, q);
    assert((auth + q).take(auth.len() as int) =~= auth);
}

/// The path, query and fragment of a `Referer` never change its origin: for
/// a scheme without `:` or whitespace and a non-empty authority without `/`,
/// `?`, `#` or whitespace, `scheme://auth` followed by anything that starts
/// with `/`, `?` or `#` has the origin of `scheme://auth`, which is what the
/// `Origin` header rule gives for `scheme://auth`.
pub proof fn law_referer_path_does_not_matter(scheme: Seq<char>, auth: Seq<char>, p: Seq<char>)
    requires
        forall|j: int| 0 <= j < scheme.len() ==> scheme[j] != ':' && !text::is_ws(#[trigger] scheme[j]),
        auth.len() > 0,
        forall|j: int| 0 <= j < auth.len() ==> !is_authority_end(auth[j]) && !text::is_ws(#[trigger] auth[j]),
        p.len() > 0,
        is_authority_end(p[0]),
    ensures
        origin_of_referer(scheme + scheme_sep() + auth + p) == origin_of_referer(scheme + scheme_sep() + auth),
        origin_of_referer(scheme + scheme_sep() + auth) == origin_of_header(Some(scheme + scheme_sep() + auth)),
{
    let base = scheme + scheme_sep() + auth;
    let full = base + p;
    // Neither string starts with whitespace.
    if scheme.len() > 0 {
        assert(base[0] == scheme[0]);
        assert(full[0] == scheme[0]);
    } else {
        assert(base[0] == ':');
        assert(full[0] == ':');
    }
    assert(text::trim_start(base) == base);
    assert(text::trim_start(full) == full);
    // `base` ends with the authority, which is not whitespace.
    assert(base.last() == auth.last());
    assert(text::trim_end(base) == base);
    assert(text::trim(base) == base);
    assert(base + Seq::<char>::empty() =~= base);
    lemma_referer_origin(scheme, auth, Seq::<char>::empty());
    // `full` keeps its path start after trimming.
    lemma_trim_end_concat(base, p);
    let q = text::trim_end(p);
    assert(text::trim(full) == base + q);
    assert(q.len() > 0 && q[0] == p[0]);
    assert(!text::is_ws(q[0]));
    assert((base + q)[0] == base[0]);
    assert(text::trim_start(base + q) == base + q);
    lemma_trim_end_concat(base, q);
    lemma_trim_end_idem(p);
    assert(text::trim_end(q) == q);
    assert(text::trim_end(base + q) == base + q);
    assert(text::trim(base + q) == base + q);
    lemma_referer_origin(scheme, auth, q);
    assert(origin_of_referer(full) == origin_of_referer(base + q));
}

proof fn lemma_trim_end_idem(s: Seq<char>)
    ensures
        text::trim_end(text::trim_end(s)) == text::trim_end(s),
    decreases s.len(),
{
    if s.len() > 0 && text::is_ws(s.last()) {
        lemma_trim_end_idem(s.drop_last());
    }
}

proof fn lemma_trim_start_head(s: Seq<char>)
    ensures
        text::trim_start(s).len() == 0 || !text::is_ws(text::trim_start(s)[0]),
    decreases s.len(),
{
    if s.len() > 0 && text::is_ws(s[0]) {
        lemma_trim_start_head(s.drop_first());
    }
}

proof fn lemma_trim_end_prefix(s: Seq<char>)
    ensures
        text::trim_end(s).len() <= s.len(),
        forall|j: int| 0 <= j < text::trim_end(s).len() ==> #[trigger] text::trim_end(s)[j] == s[j],
    decreases s.len(),
{
    if s.len() > 0 && text::is_ws(s.last()) {
        lemma_trim_end_prefix(s.drop_last());
    }
}

proof fn lemma_strip_trailing_shape(s: Seq<char>, c: char)
    ensures
        text::strip_trailing(s, c).len() <= s.len(),
        forall|j: int| 0 <= j < text::strip_trailing(s, c).len() ==> #[trigger] text::strip_trailing(s, c)[j]
            == s[j],
        text::strip_trailing(s, c).len() == 0 || text::strip_trailing(s, c).last() != c,
    decreases s.len(),
{
    if s.len() > 0 && s.last() == c {
        lemma_strip_trailing_shape(s.drop_last(), c);
    }
}

proof fn lemma_loopback_chars()
    ensures
        loopback_dot_port().len() == 11,
        loopback_port().len() == 10,
        forall|j: int| 0 <= j < 10 ==> #[trigger] loopback_dot_port()[j] != ':',
        loopback_dot_port()[10] == ':',
        loopback_port()[0] == '1',
        loopback_port()[1] == '2',
        loopback_port()[9] == ':',
        loopback_dot_port()[0] == '1',
{
    let f = loopback_dot_port();
    assert forall|j: int| 0 <= j < 10 implies #[trigger] f[j] != ':' by {
        if j == 0 {} else if j == 1 {} else if j == 2 {} else if j == 3 {} else if j == 4 {} else if j == 5 {
        } else if j == 6 {} else if j == 7 {} else if j == 8 {} else {
            assert(j == 9);
        }
    }
}

/// A suffix `F[k+1..]` of `127.0.0.1.:` that starts the replaced text starts
/// the text itself: the replacement `127.0.0.1:` never fits there.
proof fn lemma_suffix_start_comes_from_text(y: Seq<char>, k: int)
    requires
        0 <= k <= 10,
        text::starts_with(
            text::replace_all(y, loopback_dot_port(), loopback_port()),
            loopback_dot_port().skip(k + 1),
        ),
    ensures
        text::starts_with(y, loopback_dot_port().skip(k + 1)),
    decreases 10 - k,
{
    let f = loopback_dot_port();
    let t = loopback_port();
    let w = f.skip(k + 1);
    let r = text::replace_all(y, f, t);
    lemma_loopback_chars();
    if k == 10 {
        assert(y.subrange(0, 0) =~= w);
    } else {
        assert(w.len() == 10 - k);
        assert(r.subrange(0, w.len() as int)[0] == w[0]);
        if y.len() == 0 {
            assert(r.len() == 0);
        } else if text::starts_with(y, f) {
            assert(r == t + text::replace_all(y.skip(11), f, t));
            assert(r[0] == '1');
            assert(w[0] == f[k + 1]);
            if k == 7 {
                assert(r.subrange(0, w.len() as int)[1] == w[1]);
                assert(r[1] == '2');
                assert(w[1] == f[9]);
            } else {
                if k == 0 {} else if k == 1 {} else if k == 2 {} else if k == 3 {} else if k == 4 {
                } else if k == 5 {} else if k == 6 {} else if k == 8 {} else {
                    assert(k == 9);
                }
            }
        } else {
            let r1 = text::replace_all(y.drop_first(), f, t);
            assert(r == seq![y[0]] + r1);
            assert(r[0] == y[0]);
            let w1 = f.skip(k + 2);
            assert(w.drop_first() =~= w1);
            assert(r1.subrange(0, w1.len() as int) =~= r.subrange(0, w.len() as int).drop_first());
            lemma_suffix_start_comes_from_text(y.drop_first(), k + 1);
            assert(y.subrange(0, w.len() as int) =~= seq![y[0]] + y.drop_first().subrange(0, w1.len() as int));
            assert(y.subrange(0, w.len() as int) =~= w);
        }
    }
}

/// After the replacement, `127.0.0.1.:` occurs nowhere.
proof fn lemma_replaced_has_no_dot_port(x: Seq<char>)
    ensures
        forall|i: int| !text::occurs_at(text::replace_all(x, loopback_dot_port(), loopback_port()), loopback_dot_port(), i),
    decreases x.len(),
{
    let f = loopback_dot_port();
    let t = loopback_port();
    let r = text::replace_all(x, f, t);
    lemma_loopback_chars();
    if x.len() == 0 {
        assert(r.len() == 0);
    } else if text::starts_with(x, f) {
        let r1 = text::replace_all(x.skip(11), f, t);
        lemma_replaced_has_no_dot_port(x.skip(11));
        assert(r == t + r1);
        assert forall|i: int| !text::occurs_at(r, f, i) by {
            if text::occurs_at(r, f, i) {
                if i >= 10 {
                    assert(r1.subrange(i - 10, i + 1) =~= r.subrange(i, i + 11));
                    assert(text::occurs_at(r1, f, i - 10));
                } else {
                    assert(r.subrange(i, i + 11)[9 - i] == r[9]);
                    assert(r[9] == ':');
                    assert(f[9 - i] != ':');
                }
            }
        }
    } else {
        let r1 = text::replace_all(x.drop_first(), f, t);
        lemma_replaced_has_no_dot_port(x.drop_first());
        assert(r == seq![x[0]] + r1);
        assert forall|i: int| !text::occurs_at(r, f, i) by {
            if text::occurs_at(r, f, i) {
                if i >= 1 {
                    assert(r1.subrange(i - 1, i + 10) =~= r.subrange(i, i + 11));
                    assert(text::occurs_at(r1, f, i - 1));
                } else {
                    assert(r1.subrange(0, 10) =~= r.subrange(0, 11).drop_first());
                    assert(f.skip(1) =~= f.drop_first());
                    lemma_suffix_start_comes_from_text(x.drop_first(), 0);
                    assert(x.subrange(0, 11) =~= seq![x[0]] + x.drop_first().subrange(0, 10));
                    assert(x[0] == r[0]);
                    assert(x.subrange(0, 11) =~= f);
                }
            }
        }
    }
}

proof fn lemma_replace_without_occurrence(x: Seq<char>)
    requires
        forall|i: int| !text::occurs_at(x, loopback_dot_port(), i),
    ensures
        text::replace_all(x, loopback_dot_port(), loopback_port()) == x,
    decreases x.len(),
{
    let f = loopback_dot_port();
    if x.len() > 0 {
        assert(!text::occurs_at(x, f, 0));
        let d = x.drop_first();
        assert forall|i: int| !text::occurs_at(d, f, i) by {
            if text::occurs_at(d, f, i) {
                assert(x.subrange(i + 1, i + 12) =~= d.subrange(i, i + 11));
                assert(text::occurs_at(x, f, i + 1));
            }
        }
        lemma_replace_without_occurrence(d);
        assert(seq![x[0]] + d =~= x);
    }
}

proof fn lemma_replace_ends(x: Seq<char>)
    requires
        x.len() > 0,
        x.last() != '/',
    ensures
        text::replace_all(x, loopback_dot_port(), loopback_port()).len() > 0,
        text::replace_all(x, loopback_dot_port(), loopback_port()).last() != '/',
    decreases x.len(),
{
    let f = loopback_dot_port();
    let t = loopback_port();
    lemma_loopback_chars();
    if text::starts_with(x, f) {
        let rest = x.skip(11);
        if rest.len() > 0 {
            assert(rest.last() == x.last());
            lemma_replace_ends(rest);
        } else {
            assert(text::replace_all(rest, f, t).len() == 0);
            assert(t + text::replace_all(rest, f, t) =~= t);
        }
    } else if x.len() > 1 {
        assert(x.drop_first().last() == x.last());
        lemma_replace_ends(x.drop_first());
    } else {
        assert(text::replace_all(x.drop_first(), f, t).len() == 0);
        assert(seq![x[0]] + text::replace_all(x.drop_first(), f, t) =~= seq![x[0]]);
    }
}

proof fn lemma_replace_head(x: Seq<char>)
    requires
        x.len() > 0,
        !text::is_ws(x[0]),
    ensures
        text::replace_all(x, loopback_dot_port(), loopback_port()).len() > 0,
        !text::is_ws(text::replace_all(x, loopback_dot_port(), loopback_port())[0]),
{
    lemma_loopback_chars();
}

/// Normalising an origin twice changes nothing, for every normalised origin
/// that does not end in whitespace (`"http://x /"` normalises to
/// `"http://x "`, which normalises again to `"http://x"`).
pub proof fn law_normalize_idempotent(raw: Seq<char>)
    requires
        text::trim_end(normalized(raw)) == normalized(raw),
    ensures
        normalized(normalized(raw)) == normalized(raw),
{
    let t = text::trim(raw);
    let u = text::strip_trailing(t, '/');
    let n = normalized(raw);
    lemma_trim_start_head(raw);
    lemma_trim_end_prefix(text::trim_start(raw));
    lemma_strip_trailing_shape(t, '/');
    lemma_replaced_has_no_dot_port(u);
    if u.len() > 0 {
        assert(u[0] == t[0]);
        assert(t[0] == text::trim_start(raw)[0]);
        lemma_replace_head(u);
        lemma_replace_ends(u);
        assert(text::trim_start(n) == n);
        assert(text::strip_trailing(n, '/') == n);
    } else {
        assert(n.len() == 0);
    }
    assert(text::trim(n) == n);
    lemma_replace_without_occurrence(n);
}

} // verus!
