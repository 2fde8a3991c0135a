//! The list of origins allowed to drive the local signing API.

use vstd::prelude::*;
use crate::origin_policy;
use crate::origin_policy::{normalized, allowed_in, normalize_origin};
use crate::text;

verus! {

/// Origins (`Origin` header values) that the batch routes accept.
#[derive(Debug, Clone)]
pub struct AllowedOrigins {
    origins: Vec<String>,
}

impl View for AllowedOrigins {
    type V = Seq<Seq<char>>;

    closed spec fn view(&self) -> Seq<Seq<char>> {
        self.origins@.map_values(|s: String| s@)
    }
}

/// The development origins (Vite/Tauri dev servers on ports 1420 and 5173).
pub open spec fn default_origins() -> Seq<Seq<char>> {
    seq![
        "http://localhost:1420"@,
        "http://127.0.0.1:1420"@,
        "http://localhost:5173"@,
        "http://127.0.0.1:5173"@,
    ]
}

/// The pieces of `s` between commas (`str::split(',')`).
pub open spec fn split_commas(s: Seq<char>) -> Seq<Seq<char>>
    decreases s.len(),
{
    if s.len() == 0 {
        seq![seq![]]
    } else {
        let rest = split_commas(s.drop_first());
        if s[0] == ',' {
            seq![seq![]] + rest
        } else {
            rest.update(0, seq![s[0]] + rest[0])
        }
    }
}

/// `list` with `n` appended unless some entry equals it.
pub open spec fn push_unique(list: Seq<Seq<char>>, n: Seq<char>) -> Seq<Seq<char>> {
    if list.contains(n) {
        list
    } else {
        list.push(n)
    }
}

/// The environment's comma-separated entries folded into `list`: each
/// non-blank entry is normalised and appended if not already present.
pub open spec fn add_env_parts(list: Seq<Seq<char>>, parts: Seq<Seq<char>>) -> Seq<Seq<char>>
    decreases parts.len(),
{
    if parts.len() == 0 {
        list
    } else {
        let prev = add_env_parts(list, parts.drop_last());
        let t = text::trim(parts.last());
        if t.len() == 0 {
            prev
        } else {
            push_unique(prev, normalized(t))
        }
    }
}

/// `list` with `raw` added by [`AllowedOrigins::add_if_absent`].
pub open spec fn with_added(list: Seq<Seq<char>>, raw: Seq<char>) -> Seq<Seq<char>> {
    let n = normalized(raw);
    if n.len() == 0 || exists|i: int| 0 <= i < list.len() && normalized(#[trigger] list[i]) == n {
        list
    } else {
        list.push(n)
    }
}

/// `list` without the entries that normalise to `n`.
pub open spec fn without_normalized(list: Seq<Seq<char>>, n: Seq<char>) -> Seq<Seq<char>>
    decreases list.len(),
{
    if list.len() == 0 {
        seq![]
    } else {
        let prev = without_normalized(list.drop_last(), n);
        if normalized(list.last()) == n {
            prev
        } else {
            prev.push(list.last())
        }
    }
}

proof fn lemma_without_normalized_members(list: Seq<Seq<char>>, n: Seq<char>)
    ensures
        forall|i: int|
            0 <= i < without_normalized(list, n).len() ==> normalized(
                #[trigger] without_normalized(list, n)[i],
            ) != n,
        forall|x: Seq<char>|
            list.contains(x) && normalized(x) != n ==> #[trigger] without_normalized(
                list,
                n,
            ).contains(x),
    decreases list.len(),
{
    if list.len() > 0 {
        lemma_without_normalized_members(list.drop_last(), n);
        let prev = without_normalized(list.drop_last(), n);
        assert forall|x: Seq<char>|
            list.contains(x) && normalized(x) != n implies #[trigger] without_normalized(
            list,
            n,
        ).contains(x) by {
            let i = choose|i: int| 0 <= i < list.len() && list[i] == x;
            if i < list.len() - 1 {
                assert(list.drop_last()[i] == x);
                assert(list.drop_last().contains(x));
                assert(without_normalized(list.drop_last(), n).contains(x));
                let k = choose|k: int| 0 <= k < prev.len() && prev[k] == x;
                if normalized(list.last()) != n {
                    assert(prev.push(list.last())[k] == x);
                }
            } else {
                assert(prev.push(list.last())[prev.len() as int] == x);
            }
        }
    }
}

pub fn split_on_commas(s: &[char]) -> (r: Vec<Vec<char>>)
    ensures
        r@.map_values(|v: Vec<char>| v@) == split_commas(s@),
    decreases s@.len(),
{
    let mut parts: Vec<Vec<char>> = Vec::new();
    let mut cur: Vec<char> = Vec::new();
    let mut i: usize = s.len();
    // Walk from the end, so that each step mirrors `split_commas` on a suffix.
    let ghost mut acc: Seq<Seq<char>> = seq![seq![]];
    assert(s@.skip(s@.len() as int) =~= Seq::<char>::empty());
    while i > 0
        invariant
            i <= s@.len(),
            acc.len() >= 1,
            split_commas(s@.skip(i as int)) == acc,
            acc == seq![cur@] + parts@.map_values(|v: Vec<char>| v@).reverse(),
        decreases i,
    {
        let ghost suffix = s@.skip(i - 1);
        assert(suffix.drop_first() =~= s@.skip(i as int));
        assert(suffix[0] == s@[i - 1]);
        let c = s[i - 1];
        if c == ',' {
            let done = cur;
            parts.push(done);
            cur = Vec::new();
            proof {
                acc = seq![seq![]] + acc;
                assert(parts@.map_values(|v: Vec<char>| v@).reverse() =~= seq![done@]
                    + parts@.drop_last().map_values(|v: Vec<char>| v@).reverse());
                assert(acc =~= seq![cur@] + parts@.map_values(|v: Vec<char>| v@).reverse());
            }
        } else {
            let mut next: Vec<char> = Vec::new();
            next.push(c);
            text::append_chars(&mut next, &cur);
            cur = next;
            proof {
                acc = acc.update(0, seq![c] + acc[0]);
                assert(acc =~= seq![cur@] + parts@.map_values(|v: Vec<char>| v@).reverse());
            }
        }
        i -= 1;
    }
    assert(s@.skip(0) =~= s@);
    // Emit in order: `cur`, then `parts` reversed.
    let mut r: Vec<Vec<char>> = Vec::new();
    r.push(cur);
    let mut k: usize = parts.len();
    while k > 0
        invariant
            k <= parts@.len(),
            r@.len() >= 1,
            r@.map_values(|v: Vec<char>| v@) + parts@.take(k as int).map_values(
                |v: Vec<char>| v@,
            ).reverse() == split_commas(s@),
        decreases k,
    {
        let ghost before = r@.map_values(|v: Vec<char>| v@);
        let x = parts[k - 1].clone();
        r.push(x);
        proof {
            assert(parts@.take(k as int).map_values(|v: Vec<char>| v@).reverse() =~= seq![
                parts@[k - 1]@,
            ] + parts@.take(k - 1).map_values(|v: Vec<char>| v@).reverse());
            assert(r@.map_values(|v: Vec<char>| v@) =~= before.push(parts@[k - 1]@));
        }
        k -= 1;
        proof {
            assert(r@.map_values(|v: Vec<char>| v@) + parts@.take(k as int).map_values(
                |v: Vec<char>| v@,
            ).reverse() =~= before + parts@.take(k + 1).map_values(|v: Vec<char>| v@).reverse());
        }
    }
    assert(parts@.take(0).map_values(|v: Vec<char>| v@).reverse() =~= Seq::<Seq<char>>::empty());
    assert(r@.map_values(|v: Vec<char>| v@) =~= r@.map_values(|v: Vec<char>| v@) + Seq::<
        Seq<char>,
    >::empty());
    r
}

impl AllowedOrigins {
    /// Defaults for development (Vite/Tauri on port 1420, and 5173).
    pub fn development_defaults() -> (r: Self)
        ensures
            r@ == default_origins(),
    {
        let mut origins: Vec<String> = Vec::new();
        origins.push(String::from_str("http://localhost:1420"));
        origins.push(String::from_str("http://127.0.0.1:1420"));
        origins.push(String::from_str("http://localhost:5173"));
        origins.push(String::from_str("http://127.0.0.1:5173"));
        let r = Self { origins };
        assert(r@ =~= default_origins());
        r
    }

    /// The defaults plus the entries of `NEXOSIGN_ALLOWED_ORIGINS` (comma separated),
    /// given here as `extra`, the variable's value when it is set.
    pub fn from_env_value(extra: Option<&str>) -> (r: Self)
        ensures
            r@ == match extra {
                None => default_origins(),
                Some(e) => add_env_parts(default_origins(), split_commas(e@)),
            },
    {
        let mut s = Self::development_defaults();
        match extra {
            None => s,
            Some(e) => {
                let chars = text::chars_of(e);
                let parts = split_on_commas(&chars);
                let ghost pv = parts@.map_values(|v: Vec<char>| v@);
                let mut i: usize = 0;
                assert(pv.take(0) =~= Seq::<Seq<char>>::empty());
                while i < parts.len()
                    invariant
                        i <= parts@.len(),
                        pv == parts@.map_values(|v: Vec<char>| v@),
                        s@ == add_env_parts(default_origins(), pv.take(i as int)),
                    decreases parts@.len() - i,
                {
                    assert(pv.take(i + 1).drop_last() =~= pv.take(i as int));
                    assert(pv.take(i + 1).last() == parts@[i as int]@);
                    let t = text::trim_chars(&parts[i]);
                    if t.len() > 0 {
                        let n = normalize_origin(text::string_of(&t).as_str());
                        assert(n@ == normalized(text::trim(pv[i as int])));
                        s.push_if_missing(n);
                    }
                    i += 1;
                }
                assert(pv.take(parts@.len() as int) =~= pv);
                s
            },
        }
    }

    fn push_if_missing(&mut self, n: String)
        ensures
            final(self)@ == push_unique(old(self)@, n@),
    {
        let mut i: usize = 0;
        while i < self.origins.len()
            invariant
                i <= self.origins@.len(),
                self@ == old(self)@,
                forall|j: int| 0 <= j < i ==> #[trigger] self@[j] != n@,
            decreases self.origins@.len() - i,
        {
            if self.origins[i] == n {
                assert(self@[i as int] == n@);
                assert(self@.contains(n@));
                return;
            }
            i += 1;
        }
        assert(!self@.contains(n@));
        self.origins.push(n);
        assert(self@ =~= old(self)@.push(n@));
    }

    /// The allowed origins, in order.
    pub fn origins(&self) -> (r: &[String])
        ensures
            r@.map_values(|s: String| s@) == self@,
    {
        self.origins.as_slice()
    }

    /// Replaces the whole list.
    pub fn replace_all(&mut self, origins: Vec<String>)
        ensures
            final(self)@ == origins@.map_values(|s: String| s@),
    {
        self.origins = origins;
    }

    /// `true` if `origin_header` is in the list, both sides normalised.
    pub fn is_allowed_origin(&self, origin_header: &str) -> (r: bool)
        ensures
            r == allowed_in(origin_header@, self@),
    {
        origin_policy::is_origin_allowed(origin_header, self.origins.as_slice())
    }

    /// Adds the normalised form of `raw` unless it is blank or an entry already normalises to it.
    pub fn add_if_absent(&mut self, raw: &str)
        ensures
            final(self)@ == with_added(old(self)@, raw@),
    {
        let n = normalize_origin(raw);
        if n.as_str().is_empty() {
            return;
        }
        let mut i: usize = 0;
        while i < self.origins.len()
            invariant
                i <= self.origins@.len(),
                self@ == old(self)@,
                n@ == normalized(raw@),
                forall|j: int| 0 <= j < i ==> normalized(#[trigger] self@[j]) != n@,
            decreases self.origins@.len() - i,
        {
            let x = normalize_origin(self.origins[i].as_str());
            if x == n {
                assert(normalized(self@[i as int]) == n@);
                return;
            }
            i += 1;
        }
        assert(n@.len() > 0);
        self.origins.push(n);
        assert(self@ =~= old(self)@.push(normalized(raw@)));
    }

    /// Removes every entry that normalises to the same origin as `raw`.
    pub fn remove_matching(&mut self, raw: &str)
        ensures
            final(self)@ == without_normalized(old(self)@, normalized(raw@)),
    {
        let n = normalize_origin(raw);
        let ghost start = self@;
        let mut kept: Vec<String> = Vec::new();
        let mut i: usize = 0;
        assert(start.take(0) =~= Seq::<Seq<char>>::empty());
        while i < self.origins.len()
            invariant
                i <= self.origins@.len(),
                self@ == start,
                n@ == normalized(raw@),
                kept@.map_values(|s: String| s@) == without_normalized(start.take(i as int), n@),
            decreases self.origins@.len() - i,
        {
            assert(start.take(i + 1).drop_last() =~= start.take(i as int));
            assert(start.take(i + 1).last() == self.origins@[i as int]@);
            let x = normalize_origin(self.origins[i].as_str());
            if x != n {
                let ghost before = kept@.map_values(|s: String| s@);
                kept.push(self.origins[i].clone());
                assert(kept@.map_values(|s: String| s@) =~= before.push(start[i as int]));
            }
            i += 1;
        }
        assert(start.take(start.len() as int) =~= start);
        self.origins = kept;
    }
}

/// After `replace_all(list)`, an origin is allowed exactly when some entry of
/// `list` normalises to the same origin.
pub proof fn law_replace_all_decides(list: Seq<Seq<char>>, origin: Seq<char>)
    ensures
        allowed_in(origin, list) <==> exists|i: int|
            0 <= i < list.len() && normalized(#[trigger] list[i]) == normalized(origin),
{
}

/// Adding an origin makes it allowed, when its normalised form is non-blank and
/// does not end in whitespace (the stored entry is the normalised form).
pub proof fn law_add_then_allowed(list: Seq<Seq<char>>, raw: Seq<char>)
    requires
        normalized(raw).len() > 0,
        crate::text::trim_end(normalized(raw)) == normalized(raw),
    ensures
        allowed_in(raw, with_added(list, raw)),
{
    crate::origin_policy::law_normalize_idempotent(raw);
    let n = normalized(raw);
    if exists|i: int| 0 <= i < list.len() && normalized(#[trigger] list[i]) == n {
        let i = choose|i: int| 0 <= i < list.len() && normalized(#[trigger] list[i]) == n;
        assert(with_added(list, raw)[i] == list[i]);
    } else {
        assert(with_added(list, raw)[list.len() as int] == n);
    }
}

/// Adding never takes an allowed origin away.
pub proof fn law_add_keeps_allowed(list: Seq<Seq<char>>, raw: Seq<char>, other: Seq<char>)
    requires
        allowed_in(other, list),
    ensures
        allowed_in(other, with_added(list, raw)),
{
    let i = choose|i: int| 0 <= i < list.len() && normalized(#[trigger] list[i]) == normalized(other);
    let l2 = with_added(list, raw);
    assert(l2[i] == list[i]);
}

/// Adding the same origin twice leaves the list as adding it once.
pub proof fn law_add_idempotent(list: Seq<Seq<char>>, raw: Seq<char>)
    requires
        normalized(normalized(raw)) == normalized(raw),
    ensures
        with_added(with_added(list, raw), raw) == with_added(list, raw),
{
    let n = normalized(raw);
    let l1 = with_added(list, raw);
    if n.len() > 0 && !(exists|i: int| 0 <= i < list.len() && normalized(#[trigger] list[i]) == n) {
        assert(normalized(l1[list.len() as int]) == n);
    }
}

/// After removing an origin it is no longer allowed, and every origin that
/// normalises differently stays in the list.
pub proof fn law_remove_then_not_allowed(list: Seq<Seq<char>>, raw: Seq<char>)
    ensures
        !allowed_in(raw, without_normalized(list, normalized(raw))),
        forall|x: Seq<char>|
            list.contains(x) && normalized(x) != normalized(raw) ==> #[trigger] without_normalized(
                list,
                normalized(raw),
            ).contains(x),
{
    lemma_without_normalized_members(list, normalized(raw));
}

proof fn lemma_without_absent(list: Seq<Seq<char>>, n: Seq<char>)
    requires
        forall|i: int| 0 <= i < list.len() ==> normalized(#[trigger] list[i]) != n,
    ensures
        without_normalized(list, n) == list,
    decreases list.len(),
{
    if list.len() > 0 {
        let d = list.drop_last();
        assert forall|i: int| 0 <= i < d.len() implies normalized(#[trigger] d[i]) != n by {
            assert(d[i] == list[i]);
        }
        lemma_without_absent(d, n);
        assert(normalized(list.last()) != n);
        assert(d.push(list.last()) =~= list);
    }
}

/// Removing an origin undoes adding it: for an origin that was not allowed,
/// whose normalised form does not end in whitespace, adding it and then
/// removing it gives back the list as it was.
pub proof fn law_remove_undoes_add(list: Seq<Seq<char>>, raw: Seq<char>)
    requires
        !allowed_in(raw, list),
        crate::text::trim_end(normalized(raw)) == normalized(raw),
    ensures
        without_normalized(with_added(list, raw), normalized(raw)) == list,
{
    let n = normalized(raw);
    crate::origin_policy::law_normalize_idempotent(raw);
    assert forall|i: int| 0 <= i < list.len() implies normalized(#[trigger] list[i]) != n by {
        if normalized(list[i]) == n {
            assert(allowed_in(raw, list));
        }
    }
    lemma_without_absent(list, n);
    if n.len() > 0 {
        let l1 = list.push(n);
        assert(with_added(list, raw) == l1);
        assert(l1.drop_last() =~= list);
        assert(normalized(l1.last()) == n);
    }
}

} // verus!
