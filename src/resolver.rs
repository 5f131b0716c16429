//! The specifier resolver: import-map application, classification, versioning
//! and extension normalization, plus the dependency list it fills.
use crate::import_map::{apply_map, str_views, ImportMap};
use crate::path::{dir, dir_of, normalize, normalize_path};
use crate::text::{chars_of, has_prefix, has_suffix, push_all, same_chars, string_of};
use vstd::prelude::*;

verus! {

/// One outgoing edge of the module: a canonical specifier and whether it is a dynamic import.
#[derive(Debug, PartialEq, Clone)]
pub struct DependencyDescriptor {
    pub specifier: String,
    pub is_dynamic: bool,
}

impl View for DependencyDescriptor {
    type V = (Seq<char>, bool);

    open spec fn view(&self) -> (Seq<char>, bool) {
        (self.specifier@, self.is_dynamic)
    }
}

/// The views of a dependency list.
pub open spec fn dep_views(s: Seq<DependencyDescriptor>) -> Seq<(Seq<char>, bool)> {
    s.map_values(|d: DependencyDescriptor| d@)
}

/// The views of a version table.
pub open spec fn pair_views(s: Seq<(String, String)>) -> Seq<(Seq<char>, Seq<char>)> {
    s.map_values(|p: (String, String)| (p.0@, p.1@))
}

pub open spec fn https_prefix() -> Seq<char> {
    seq!['h', 't', 't', 'p', 's', ':', '/', '/']
}

pub open spec fn http_prefix() -> Seq<char> {
    seq!['h', 't', 't', 'p', ':', '/', '/']
}

/// The length of the network scheme (`https://` or `http://`) that `s` starts with; 0 if none.
pub open spec fn scheme_len(s: Seq<char>) -> int {
    if https_prefix().is_prefix_of(s) {
        8
    } else if http_prefix().is_prefix_of(s) {
        7
    } else {
        0
    }
}

/// Whether `s` is an absolute network URL.
pub open spec fn is_url(s: Seq<char>) -> bool {
    scheme_len(s) > 0
}

/// Whether `s` lies under the framework package root `root`.
pub open spec fn is_framework(root: Seq<char>, s: Seq<char>) -> bool {
    root.len() > 0 && root.is_prefix_of(s)
}

/// Whether `s` is resolved as a remote module (a URL or framework-internal).
pub open spec fn is_remote(root: Seq<char>, s: Seq<char>) -> bool {
    is_url(s) || is_framework(root, s)
}

/// The position of the first `/` of `s` at or after `i`, or the length of `s`.
pub open spec fn first_slash_from(s: Seq<char>, i: int) -> int
    decreases s.len() - i,
{
    if i < 0 || i >= s.len() {
        s.len() as int
    } else if s[i] == '/' {
        i
    } else {
        first_slash_from(s, i + 1)
    }
}

/// The length of the scheme-and-host part of a URL; 0 for a path.
pub open spec fn origin_len(s: Seq<char>) -> int {
    if is_url(s) {
        first_slash_from(s, scheme_len(s))
    } else {
        0
    }
}

/// A local specifier resolved against the directory of the current module `cur`.
pub open spec fn local_key(cur: Seq<char>, s: Seq<char>) -> Seq<char> {
    let o = origin_len(cur);
    let joined = if s.len() > 0 && s[0] == '/' {
        s
    } else {
        dir_of(cur.skip(o)) + seq!['/'] + s
    };
    cur.take(o) + normalize_path(joined)
}

/// The canonical key of `raw` imported from module `cur`.
pub open spec fn canonical_key(
    root: Seq<char>,
    map: Seq<(Seq<char>, Seq<Seq<char>>)>,
    cur: Seq<char>,
    raw: Seq<char>,
) -> Seq<char> {
    let m = apply_map(map, raw);
    if is_remote(root, m) {
        m
    } else {
        local_key(cur, m)
    }
}

/// `s` without its scheme, or without one leading `/`.
pub open spec fn strip_lead(s: Seq<char>) -> Seq<char> {
    if scheme_len(s) > 0 {
        s.skip(scheme_len(s))
    } else if s.len() > 0 && s[0] == '/' {
        s.skip(1)
    } else {
        s
    }
}

/// The local proxy path of a remote module.
pub open spec fn proxy_path(s: Seq<char>) -> Seq<char> {
    seq!['/', '-', '/'] + strip_lead(s)
}

pub open spec fn js_ext() -> Seq<char> {
    seq!['.', 'j', 's']
}

/// Script extensions: `.ts`, `.tsx` and `.jsx` become `.js`; `.js` and `.mjs` stay;
/// any other ending gets `.js` appended.
pub open spec fn normalize_ext(p: Seq<char>) -> Seq<char> {
    if seq!['.', 't', 's', 'x'].is_suffix_of(p) || seq!['.', 'j', 's', 'x'].is_suffix_of(p) {
        p.take(p.len() - 4) + js_ext()
    } else if seq!['.', 't', 's'].is_suffix_of(p) {
        p.take(p.len() - 3) + js_ext()
    } else if js_ext().is_suffix_of(p) || seq!['.', 'm', 'j', 's'].is_suffix_of(p) {
        p
    } else {
        p + js_ext()
    }
}

/// The version tag of the first entry of the table whose key is `key` (so a later
/// entry with the same key is never read).
pub open spec fn version_of(table: Seq<(Seq<char>, Seq<char>)>, key: Seq<char>) -> Option<Seq<char>>
    decreases table.len(),
{
    if table.len() == 0 {
        None
    } else if table[0].0 == key {
        Some(table[0].1)
    } else {
        version_of(table.drop_first(), key)
    }
}

/// The path written into the output for `raw`, whose canonical key is `c`.
pub open spec fn emitted_path(
    root: Seq<char>,
    versions: Seq<(Seq<char>, Seq<char>)>,
    bundle_mode: bool,
    raw: Seq<char>,
    c: Seq<char>,
    is_dynamic: bool,
) -> Seq<char> {
    let base = normalize_ext(
        if is_remote(root, c) {
            proxy_path(c)
        } else {
            c
        },
    );
    let versioned = match version_of(versions, c) {
        Some(v) => base + seq!['?', 'v', '='] + v,
        None => base,
    };
    if is_dynamic && !bundle_mode {
        versioned + seq!['#'] + raw + seq!['@'] + c
    } else {
        versioned
    }
}

/// The resolution context of one module, and what resolving fills in.
pub struct Resolver {
    /// The current module's specifier.
    pub specifier: String,
    /// The framework package root.
    pub aleph_pkg_uri: String,
    pub import_map: ImportMap,
    /// Canonical URL to version tag; where a key occurs twice, the first entry wins.
    pub versions: Vec<(String, String)>,
    pub bundle_mode: bool,
    /// Canonical keys read from the shared registry in bundle mode.
    pub bundle_external: Vec<String>,
    pub is_dev: bool,
    /// Outgoing edges, in first-use order.
    pub deps: Vec<DependencyDescriptor>,
    /// Canonical keys of the bundled `export *` items, in order.
    pub star_exports: Vec<String>,
    pub jsx_static_class_names: Vec<String>,
}

/// What resolution reads of a context.
pub struct ResolveConfig {
    pub specifier: Seq<char>,
    pub root: Seq<char>,
    pub import_map: Seq<(Seq<char>, Seq<Seq<char>>)>,
    pub versions: Seq<(Seq<char>, Seq<char>)>,
    pub bundle_mode: bool,
    pub external: Seq<Seq<char>>,
}

impl ResolveConfig {
    /// The canonical key of `raw` in this context.
    pub open spec fn canonical_of(&self, raw: Seq<char>) -> Seq<char> {
        canonical_key(self.root, self.import_map, self.specifier, raw)
    }

    /// The emitted path of `raw` in this context.
    pub open spec fn emitted_of(&self, raw: Seq<char>, is_dynamic: bool) -> Seq<char> {
        emitted_path(
            self.root,
            self.versions,
            self.bundle_mode,
            raw,
            self.canonical_of(raw),
            is_dynamic,
        )
    }

    /// Whether an import of canonical key `key` is read from the shared registry.
    pub open spec fn reads_pack(&self, key: Seq<char>) -> bool {
        self.bundle_mode && self.external.contains(key)
    }
}

impl Resolver {
    /// The context as resolution reads it.
    pub open spec fn config(&self) -> ResolveConfig {
        ResolveConfig {
            specifier: self.specifier@,
            root: self.aleph_pkg_uri@,
            import_map: self.import_map@,
            versions: pair_views(self.versions@),
            bundle_mode: self.bundle_mode,
            external: str_views(self.bundle_external@),
        }
    }

    /// The canonical key of `raw` in this context.
    pub open spec fn canonical_of(&self, raw: Seq<char>) -> Seq<char> {
        self.config().canonical_of(raw)
    }

    /// The emitted path of `raw` in this context.
    pub open spec fn emitted_of(&self, raw: Seq<char>, is_dynamic: bool) -> Seq<char> {
        self.config().emitted_of(raw, is_dynamic)
    }

    /// All of the context but the accumulators is the same in `self` and `o`.
    pub open spec fn same_config(&self, o: &Resolver) -> bool {
        &&& self.specifier == o.specifier
        &&& self.aleph_pkg_uri == o.aleph_pkg_uri
        &&& self.import_map == o.import_map
        &&& self.versions == o.versions
        &&& self.bundle_mode == o.bundle_mode
        &&& self.bundle_external == o.bundle_external
        &&& self.is_dev == o.is_dev
        &&& self.jsx_static_class_names == o.jsx_static_class_names
    }

    /// A context for module `specifier`, with empty accumulators.
    pub fn new(
        specifier: &str,
        aleph_pkg_uri: &str,
        import_map: ImportMap,
        versions: Vec<(String, String)>,
        bundle_mode: bool,
        bundle_external: Vec<String>,
        is_dev: bool,
    ) -> (r: Resolver)
        ensures
            r.specifier@ == specifier@,
            r.aleph_pkg_uri@ == aleph_pkg_uri@,
            r.import_map == import_map,
            r.versions == versions,
            r.bundle_mode == bundle_mode,
            r.bundle_external == bundle_external,
            r.is_dev == is_dev,
            r.deps@.len() == 0,
            r.star_exports@.len() == 0,
            r.jsx_static_class_names@.len() == 0,
    {
        Resolver {
            specifier: specifier.to_owned(),
            aleph_pkg_uri: aleph_pkg_uri.to_owned(),
            import_map,
            versions,
            bundle_mode,
            bundle_external,
            is_dev,
            deps: Vec::new(),
            star_exports: Vec::new(),
            jsx_static_class_names: Vec::new(),
        }
    }
}

fn exec_scheme_len(s: &Vec<char>) -> (r: usize)
    ensures
        r == scheme_len(s@),
{
    let https = vec!['h', 't', 't', 'p', 's', ':', '/', '/'];
    let http = vec!['h', 't', 't', 'p', ':', '/', '/'];
    assert(https@ =~= https_prefix());
    assert(http@ =~= http_prefix());
    if has_prefix(s, &https) {
        8
    } else if has_prefix(s, &http) {
        7
    } else {
        0
    }
}

fn exec_origin_len(s: &Vec<char>) -> (r: usize)
    ensures
        r == origin_len(s@),
        r <= s@.len(),
{
    let k = exec_scheme_len(s);
    if k == 0 {
        return 0;
    }
    let mut i: usize = k;
    while i < s.len() && s[i] != '/'
        invariant
            k <= i <= s@.len(),
            k == scheme_len(s@),
            first_slash_from(s@, k as int) == first_slash_from(s@, i as int),
        decreases s@.len() - i,
    {
        i = i + 1;
    }
    i
}

fn skip_chars(s: &Vec<char>, k: usize) -> (r: Vec<char>)
    requires
        k <= s@.len(),
    ensures
        r@ == s@.skip(k as int),
{
    let mut out: Vec<char> = Vec::new();
    let mut j: usize = k;
    while j < s.len()
        invariant
            k <= j <= s@.len(),
            out@ == s@.subrange(k as int, j as int),
        decreases s@.len() - j,
    {
        out.push(s[j]);
        j = j + 1;
        assert(out@ =~= s@.subrange(k as int, j as int));
    }
    assert(out@ =~= s@.skip(k as int));
    out
}

fn take_chars(s: &Vec<char>, k: usize) -> (r: Vec<char>)
    requires
        k <= s@.len(),
    ensures
        r@ == s@.take(k as int),
{
    let mut out: Vec<char> = Vec::new();
    let mut j: usize = 0;
    while j < k
        invariant
            j <= k <= s@.len(),
            out@ == s@.take(j as int),
        decreases k - j,
    {
        out.push(s[j]);
        j = j + 1;
        assert(out@ =~= s@.take(j as int));
    }
    out
}

fn copy_chars(s: &Vec<char>) -> (r: Vec<char>)
    ensures
        r@ == s@,
{
    let mut out: Vec<char> = Vec::new();
    push_all(&mut out, s);
    assert(out@ =~= s@);
    out
}

fn exec_local_key(cur: &Vec<char>, s: &Vec<char>) -> (r: Vec<char>)
    ensures
        r@ == local_key(cur@, s@),
{
    let o = exec_origin_len(cur);
    let joined = if s.len() > 0 && s[0] == '/' {
        copy_chars(s)
    } else {
        let rest = skip_chars(cur, o);
        let mut j = dir(&rest);
        j.push('/');
        push_all(&mut j, s);
        assert(j@ =~= dir_of(cur@.skip(o as int)) + seq!['/'] + s@);
        j
    };
    let mut out = take_chars(cur, o);
    let n = normalize(&joined);
    push_all(&mut out, &n);
    out
}

fn exec_is_remote(root: &Vec<char>, s: &Vec<char>) -> (r: bool)
    ensures
        r == is_remote(root@, s@),
{
    exec_scheme_len(s) > 0 || (root.len() > 0 && has_prefix(s, root))
}

fn exec_proxy_path(s: &Vec<char>) -> (r: Vec<char>)
    ensures
        r@ == proxy_path(s@),
{
    let k = exec_scheme_len(s);
    let rest = if k > 0 {
        skip_chars(s, k)
    } else if s.len() > 0 && s[0] == '/' {
        skip_chars(s, 1)
    } else {
        copy_chars(s)
    };
    let mut out = vec!['/', '-', '/'];
    push_all(&mut out, &rest);
    out
}

fn exec_normalize_ext(p: &Vec<char>) -> (r: Vec<char>)
    ensures
        r@ == normalize_ext(p@),
{
    let tsx = vec!['.', 't', 's', 'x'];
    let jsx = vec!['.', 'j', 's', 'x'];
    let ts = vec!['.', 't', 's'];
    let js = vec!['.', 'j', 's'];
    let mjs = vec!['.', 'm', 'j', 's'];
    assert(tsx@ =~= seq!['.', 't', 's', 'x']);
    assert(jsx@ =~= seq!['.', 'j', 's', 'x']);
    assert(ts@ =~= seq!['.', 't', 's']);
    assert(js@ =~= js_ext());
    assert(mjs@ =~= seq!['.', 'm', 'j', 's']);
    if has_suffix(p, &tsx) || has_suffix(p, &jsx) {
        let mut out = take_chars(p, p.len() - 4);
        push_all(&mut out, &js);
        out
    } else if has_suffix(p, &ts) {
        let mut out = take_chars(p, p.len() - 3);
        push_all(&mut out, &js);
        out
    } else if has_suffix(p, &js) || has_suffix(p, &mjs) {
        copy_chars(p)
    } else {
        let mut out = copy_chars(p);
        push_all(&mut out, &js);
        out
    }
}

fn lookup_version(table: &Vec<(String, String)>, key: &Vec<char>) -> (r: Option<Vec<char>>)
    ensures
        match r {
            Some(v) => version_of(pair_views(table@), key@) == Some(v@),
            None => version_of(pair_views(table@), key@) is None,
        },
{
    let ghost t = pair_views(table@);
    let mut i: usize = 0;
    assert(t.skip(0) =~= t);
    while i < table.len()
        invariant
            i <= table@.len(),
            t == pair_views(table@),
            version_of(t, key@) == version_of(t.skip(i as int), key@),
        decreases table@.len() - i,
    {
        assert(t.skip(i as int).drop_first() =~= t.skip(i + 1));
        let k = chars_of(table[i].0.as_str());
        if same_chars(&k, key) {
            return Some(chars_of(table[i].1.as_str()));
        }
        i = i + 1;
    }
    None
}

impl Resolver {
    /// Whether `key` is in the external-bundle set.
    pub fn exec_is_external(&self, key: &Vec<char>) -> (r: bool)
        ensures
            r == self.config().external.contains(key@),
    {
        let mut i: usize = 0;
        while i < self.bundle_external.len()
            invariant
                i <= self.bundle_external@.len(),
                forall|j: int| 0 <= j < i ==> self.bundle_external@[j]@ != key@,
                self.config().external.len() == self.bundle_external@.len(),
            decreases self.bundle_external@.len() - i,
        {
            let e = chars_of(self.bundle_external[i].as_str());
            if same_chars(&e, key) {
                assert(self.config().external[i as int] == key@);
                return true;
            }
            i = i + 1;
        }
        assert forall|j: int| 0 <= j < self.config().external.len() implies self.config().external[j]
            != key@ by {
            assert(self.config().external[j] == self.bundle_external@[j]@);
        }
        false
    }

    /// Resolves `raw`: returns the emitted path and the canonical key, and records
    /// the edge (canonical key, `is_dynamic`).
    pub fn resolve(&mut self, raw: &str, is_dynamic: bool) -> (r: (String, String))
        ensures
            r.1@ == old(self).canonical_of(raw@),
            r.0@ == old(self).emitted_of(raw@, is_dynamic),
            final(self).same_config(old(self)),
            final(self).star_exports == old(self).star_exports,
            dep_views(final(self).deps@) == dep_views(old(self).deps@).push(
                (old(self).canonical_of(raw@), is_dynamic),
            ),
    {
        let raw_chars = chars_of(raw);
        let root = chars_of(self.aleph_pkg_uri.as_str());
        let cur = chars_of(self.specifier.as_str());
        let mapped = self.import_map.apply(&raw_chars);
        let canonical = if exec_is_remote(&root, &mapped) {
            mapped
        } else {
            exec_local_key(&cur, &mapped)
        };
        let out = exec_emitted(&root, &self.versions, self.bundle_mode, &raw_chars, &canonical, is_dynamic);
        let key = string_of(&canonical);
        let ghost old_deps = dep_views(self.deps@);
        self.deps.push(DependencyDescriptor { specifier: string_of(&canonical), is_dynamic });
        assert(dep_views(self.deps@) =~= old_deps.push((canonical@, is_dynamic)));
        (string_of(&out), key)
    }
}

fn exec_emitted(
    root: &Vec<char>,
    versions: &Vec<(String, String)>,
    bundle_mode: bool,
    raw: &Vec<char>,
    canonical: &Vec<char>,
    is_dynamic: bool,
) -> (r: Vec<char>)
    ensures
        r@ == emitted_path(root@, pair_views(versions@), bundle_mode, raw@, canonical@, is_dynamic),
{
    let base = if exec_is_remote(root, canonical) {
        exec_proxy_path(canonical)
    } else {
        copy_chars(canonical)
    };
    let mut out = exec_normalize_ext(&base);
    let ghost b = out@;
    match lookup_version(versions, canonical) {
        Some(v) => {
            out.push('?');
            out.push('v');
            out.push('=');
            push_all(&mut out, &v);
            assert(out@ =~= b + seq!['?', 'v', '='] + v@);
        },
        None => {},
    }
    let ghost w = out@;
    if is_dynamic && !bundle_mode {
        out.push('#');
        push_all(&mut out, raw);
        out.push('@');
        push_all(&mut out, canonical);
        assert(out@ =~= w + seq!['#'] + raw@ + seq!['@'] + canonical@);
    }
    out
}

} // verus!
