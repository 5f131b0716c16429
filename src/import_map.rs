//! The import map: exact and prefix aliasing of specifiers.
use crate::text::{chars_of, has_prefix, push_all, same_chars};
use vstd::prelude::*;

verus! {

/// One mapping: a specifier (or a prefix ending in `/`) and its candidate targets, in order.
pub struct ImportMapEntry {
    pub key: String,
    pub targets: Vec<String>,
}

/// A table of import-map entries, consulted in order. Keys need not be unique: where
/// two entries have the same key, the first one wins.
pub struct ImportMap {
    pub imports: Vec<ImportMapEntry>,
}

/// The views of a sequence of strings.
pub open spec fn str_views(s: Seq<String>) -> Seq<Seq<char>> {
    s.map_values(|x: String| x@)
}

impl View for ImportMapEntry {
    type V = (Seq<char>, Seq<Seq<char>>);

    open spec fn view(&self) -> (Seq<char>, Seq<Seq<char>>) {
        (self.key@, str_views(self.targets@))
    }
}

impl View for ImportMap {
    type V = Seq<(Seq<char>, Seq<Seq<char>>)>;

    open spec fn view(&self) -> Seq<(Seq<char>, Seq<Seq<char>>)> {
        self.imports@.map_values(|e: ImportMapEntry| e@)
    }
}

/// The first non-empty candidate at or after position `i`.
pub open spec fn first_usable(c: Seq<Seq<char>>, i: int) -> Option<Seq<char>>
    decreases c.len() - i,
{
    if i < 0 || i >= c.len() {
        None
    } else if c[i].len() > 0 {
        Some(c[i])
    } else {
        first_usable(c, i + 1)
    }
}

/// The target of the first entry at or after `i` whose key is `s` and which has a usable candidate.
pub open spec fn exact_target(es: Seq<(Seq<char>, Seq<Seq<char>>)>, s: Seq<char>, i: int) -> Option<
    Seq<char>,
>
    decreases es.len() - i,
{
    if i < 0 || i >= es.len() {
        None
    } else if es[i].0 == s && first_usable(es[i].1, 0) is Some {
        first_usable(es[i].1, 0)
    } else {
        exact_target(es, s, i + 1)
    }
}

/// Whether entry `e` can serve as a prefix alias for `s`.
pub open spec fn prefix_applies(e: (Seq<char>, Seq<Seq<char>>), s: Seq<char>) -> bool {
    e.0.len() > 0 && e.0.last() == '/' && e.0.is_prefix_of(s) && first_usable(e.1, 0) is Some
}

/// Among the first `n` entries, the index of the applicable prefix entry with the
/// longest key (the earliest one among equally long keys).
pub open spec fn best_prefix(es: Seq<(Seq<char>, Seq<Seq<char>>)>, s: Seq<char>, n: int) -> Option<
    int,
>
    decreases n,
{
    if n <= 0 {
        None
    } else {
        let b = best_prefix(es, s, n - 1);
        if prefix_applies(es[n - 1], s) && (b is None || es[b->0].0.len() < es[n - 1].0.len()) {
            Some(n - 1)
        } else {
            b
        }
    }
}

/// The specifier after the import map: an exact match first, then the longest prefix,
/// otherwise `s` unchanged.
pub open spec fn apply_map(es: Seq<(Seq<char>, Seq<Seq<char>>)>, s: Seq<char>) -> Seq<char> {
    match exact_target(es, s, 0) {
        Some(t) => t,
        None => match best_prefix(es, s, es.len() as int) {
            Some(k) => first_usable(es[k].1, 0)->0 + s.skip(es[k].0.len() as int),
            None => s,
        },
    }
}

fn first_usable_target(c: &Vec<String>) -> (r: Option<Vec<char>>)
    ensures
        match r {
            Some(v) => first_usable(str_views(c@), 0) == Some(v@),
            None => first_usable(str_views(c@), 0) is None,
        },
{
    let ghost cv = str_views(c@);
    let mut i: usize = 0;
    while i < c.len()
        invariant
            i <= c@.len(),
            cv == str_views(c@),
            first_usable(cv, 0) == first_usable(cv, i as int),
        decreases c@.len() - i,
    {
        let t = chars_of(c[i].as_str());
        if t.len() > 0 {
            return Some(t);
        }
        i = i + 1;
    }
    None
}

proof fn lemma_best_prefix_range(es: Seq<(Seq<char>, Seq<Seq<char>>)>, s: Seq<char>, n: int)
    ensures
        match best_prefix(es, s, n) {
            Some(k) => 0 <= k < n && prefix_applies(es[k], s),
            None => true,
        },
    decreases n,
{
    if n > 0 {
        lemma_best_prefix_range(es, s, n - 1);
    }
}

impl ImportMap {
    /// An empty import map.
    pub fn new() -> (r: ImportMap)
        ensures
            r@.len() == 0,
    {
        ImportMap { imports: Vec::new() }
    }

    /// Rewrites `s` through the map.
    pub fn apply(&self, s: &Vec<char>) -> (r: Vec<char>)
        ensures
            r@ == apply_map(self@, s@),
    {
        let ghost es = self@;
        let mut best: Option<usize> = None;
        let mut best_len: usize = 0;
        let mut i: usize = 0;
        while i < self.imports.len()
            invariant
                es == self@,
                es.len() == self.imports@.len(),
                i <= es.len(),
                exact_target(es, s@, 0) == exact_target(es, s@, i as int),
                match best {
                    Some(k) => best_prefix(es, s@, i as int) == Some(k as int) && best_len
                        == es[k as int].0.len(),
                    None => best_prefix(es, s@, i as int) is None,
                },
            decreases es.len() - i,
        {
            let e = &self.imports[i];
            assert(es[i as int] == e@);
            let key = chars_of(e.key.as_str());
            if same_chars(&key, s) {
                let t = first_usable_target(&e.targets);
                if let Some(t) = t {
                    return t;
                }
            }
            proof {
                lemma_best_prefix_range(es, s@, i as int);
            }
            let applies = key.len() > 0 && key[key.len() - 1] == '/' && has_prefix(s, &key);
            if applies && (best.is_none() || best_len < key.len()) {
                let t = first_usable_target(&e.targets);
                if t.is_some() {
                    best = Some(i);
                    best_len = key.len();
                }
            }
            i = i + 1;
        }
        match best {
            Some(k) => {
                proof {
                    lemma_best_prefix_range(es, s@, es.len() as int);
                }
                let e = &self.imports[k];
                assert(es[k as int] == e@);
                let key = chars_of(e.key.as_str());
                let t = first_usable_target(&e.targets);
                let mut out = t.unwrap();
                let mut j: usize = key.len();
                let ghost base = out@;
                while j < s.len()
                    invariant
                        key@.len() <= j <= s@.len(),
                        out@ == base + s@.subrange(key@.len() as int, j as int),
                    decreases s@.len() - j,
                {
                    out.push(s[j]);
                    j = j + 1;
                    assert(out@ =~= base + s@.subrange(key@.len() as int, j as int));
                }
                assert(s@.subrange(key@.len() as int, s@.len() as int) =~= s@.skip(
                    key@.len() as int,
                ));
                out
            },
            None => {
                let mut out: Vec<char> = Vec::new();
                push_all(&mut out, s);
                assert(out@ =~= s@);
                out
            },
        }
    }
}

} // verus!
