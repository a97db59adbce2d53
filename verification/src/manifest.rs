//! The mapping from routes to the bundled files that a page needs, built
//! from the bundler's manifest, and the lookup of a request path in it.
use vstd::prelude::*;
use crate::strmap::{StrMap, lookup, insert_entry, keys_distinct, has_key, key_index, lemma_insert_lookup, lemma_lookup_at, keys_of};
use crate::text::{has_char, lemma_drop_pattern, lemma_replace_all_leading, lemma_replace_all_free_prefix, lemma_replace_all_absent};
use crate::text::{views, replace_all, contains_seq, has_prefix, join_with, segments, replace_str, str_eq, owned, clone_strings, split_segments, starts_with, join_strings, concat_str, contains_str, extend_strings, occurs_at};

verus! {

broadcast use vstd::string::group_string_axioms;

/// The bundle information of one entry of the bundler's manifest.
pub struct BundleInfo {
    pub file: String,
    pub css: Vec<String>,
    pub imports: Vec<String>,
}

/// A manifest entry as plain sequences.
pub struct BundleSpec {
    pub file: Seq<char>,
    pub css: Seq<Seq<char>>,
    pub imports: Seq<Seq<char>>,
}

impl View for BundleInfo {
    type V = BundleSpec;

    open spec fn view(&self) -> BundleSpec {
        BundleSpec { file: self.file@, css: views(self.css@), imports: views(self.imports@) }
    }
}

/// The style sheets and scripts that a route needs.
#[derive(Debug)]
pub struct RouteBundle {
    pub css_files: Vec<String>,
    pub js_files: Vec<String>,
}

/// A route bundle as plain sequences.
pub struct RouteBundleSpec {
    pub css: Seq<Seq<char>>,
    pub js: Seq<Seq<char>>,
}

impl View for RouteBundle {
    type V = RouteBundleSpec;

    open spec fn view(&self) -> RouteBundleSpec {
        RouteBundleSpec { css: views(self.css_files@), js: views(self.js_files@) }
    }
}

/// The bundler's manifest: source entry name to bundle information.
pub type ViteManifest = StrMap<BundleInfo>;

/// The route bundles of an application.
pub struct Manifest {
    bundles: StrMap<RouteBundle>,
}

impl View for Manifest {
    type V = Seq<(Seq<char>, RouteBundleSpec)>;

    closed spec fn view(&self) -> Seq<(Seq<char>, RouteBundleSpec)> {
        self.bundles.entries()
    }
}

// ---------------------------------------------------------------------------
// Specifications
// ---------------------------------------------------------------------------

/// The entry point of the client bundle, as named in the bundler's manifest.
pub open spec fn client_entry() -> Seq<char> {
    "client-main.tsx"@
}

/// The key under which the client bundle is stored.
pub open spec fn client_key() -> Seq<char> {
    "client-main"@
}

/// A route path from a manifest entry name: the routes folder prefix, the
/// page extensions and the `index` suffix removed.
pub open spec fn spec_clean_route_path(path: Seq<char>) -> Seq<char> {
    let p = replace_all(
        replace_all(
            replace_all(
                replace_all(replace_all(path, "../src/routes"@, Seq::empty()), ".tsx"@, Seq::empty()),
                ".mdx"@,
                Seq::empty(),
            ),
            ".md"@,
            Seq::empty(),
        ),
        ".jsx"@,
        Seq::empty(),
    );
    if p == "/index"@ {
        "/"@
    } else {
        replace_all(p, "/index"@, Seq::empty())
    }
}

/// A path holds a dynamic segment: a `[` later followed by a `]` on the same line.
pub open spec fn is_dynamic_path(s: Seq<char>) -> bool {
    exists|i: int, j: int|
        0 <= i < j < s.len() && s[i] == '[' && s[j] == ']' && (forall|k: int|
            i < k < j ==> s[k] != '\n')
}

/// The script files of the imported entries (other than the client entry)
/// that the manifest holds.
pub open spec fn import_files(vm: Seq<(Seq<char>, BundleSpec)>, imports: Seq<Seq<char>>) -> Seq<
    Seq<char>,
>
    decreases imports.len(),
{
    if imports.len() == 0 {
        Seq::empty()
    } else {
        let rest = import_files(vm, imports.drop_last());
        let imp = imports.last();
        if imp == client_entry() {
            rest
        } else {
            match lookup(vm, imp) {
                Some(b) => rest.push(b.file),
                None => rest,
            }
        }
    }
}

/// The style sheets of the imported entries (other than the client entry)
/// that the manifest holds.
pub open spec fn import_css(vm: Seq<(Seq<char>, BundleSpec)>, imports: Seq<Seq<char>>) -> Seq<
    Seq<char>,
>
    decreases imports.len(),
{
    if imports.len() == 0 {
        Seq::empty()
    } else {
        let rest = import_css(vm, imports.drop_last());
        let imp = imports.last();
        if imp == client_entry() {
            rest
        } else {
            match lookup(vm, imp) {
                Some(b) => rest + b.css,
                None => rest,
            }
        }
    }
}

/// The bundle of a page route: its own files, then the client entry's, then
/// those of its imports when it imports more than the client entry.
pub open spec fn page_bundle(
    vm: Seq<(Seq<char>, BundleSpec)>,
    b: BundleSpec,
    cm: BundleSpec,
) -> RouteBundleSpec {
    if b.imports.len() > 1 {
        RouteBundleSpec {
            css: b.css + cm.css + import_css(vm, b.imports),
            js: seq![b.file, cm.file] + import_files(vm, b.imports),
        }
    } else {
        RouteBundleSpec { css: b.css + cm.css, js: seq![b.file, cm.file] }
    }
}

/// The route bundles after the first `n` manifest entries: layouts are
/// skipped, the client entry is stored under its own key, and every other
/// entry whose cleaned path is a route is stored under that route.
pub open spec fn route_bundles(vm: Seq<(Seq<char>, BundleSpec)>, n: int) -> Seq<
    (Seq<char>, RouteBundleSpec),
>
    decreases n,
{
    if n <= 0 {
        Seq::empty()
    } else {
        let acc = route_bundles(vm, n - 1);
        let key = vm[n - 1].0;
        let b = vm[n - 1].1;
        if contains_seq(key, "__layout"@) {
            acc
        } else if key == client_entry() {
            insert_entry(acc, client_key(), RouteBundleSpec { css: b.css, js: seq![b.file] })
        } else {
            let route = spec_clean_route_path(key);
            if !has_prefix(route, "/"@) {
                acc
            } else {
                insert_entry(acc, route, page_bundle(vm, b, lookup(vm, client_entry()).unwrap()))
            }
        }
    }
}

/// A route bundle with a layout's files appended.
pub open spec fn with_layout(
    rb: RouteBundleSpec,
    vm: Seq<(Seq<char>, BundleSpec)>,
    layout: BundleSpec,
) -> RouteBundleSpec {
    RouteBundleSpec {
        css: rb.css + layout.css + import_css(vm, layout.imports),
        js: rb.js.push(layout.file) + import_files(vm, layout.imports),
    }
}

/// Every route under `prefix` takes the layout's files.
pub open spec fn apply_layout(
    bs: Seq<(Seq<char>, RouteBundleSpec)>,
    prefix: Seq<char>,
    vm: Seq<(Seq<char>, BundleSpec)>,
    layout: BundleSpec,
) -> Seq<(Seq<char>, RouteBundleSpec)> {
    bs.map_values(
        |e: (Seq<char>, RouteBundleSpec)|
            if has_prefix(e.0, prefix) {
                (e.0, with_layout(e.1, vm, layout))
            } else {
                e
            },
    )
}

/// The route bundles after the layouts among the first `n` manifest entries
/// were applied, in manifest order.
pub open spec fn layouts_applied(
    vm: Seq<(Seq<char>, BundleSpec)>,
    bs: Seq<(Seq<char>, RouteBundleSpec)>,
    n: int,
) -> Seq<(Seq<char>, RouteBundleSpec)>
    decreases n,
{
    if n <= 0 {
        bs
    } else {
        let acc = layouts_applied(vm, bs, n - 1);
        let route = spec_clean_route_path(vm[n - 1].0);
        if contains_seq(route, "__layout"@) {
            apply_layout(acc, replace_all(route, "__layout"@, Seq::empty()), vm, vm[n - 1].1)
        } else {
            acc
        }
    }
}

/// The route bundles built from a bundler manifest.
pub open spec fn spec_manifest_from(vm: Seq<(Seq<char>, BundleSpec)>) -> Seq<
    (Seq<char>, RouteBundleSpec),
> {
    layouts_applied(vm, route_bundles(vm, vm.len() as int), vm.len() as int)
}

/// A segment that catches the rest of a path.
pub open spec fn is_catch_all(seg: Seq<char>) -> bool {
    has_prefix(seg, "[..."@)
}

/// How far the segments of a dynamic route match the path segments from
/// position `i`: the number of route segments taken, and whether the last
/// one taken catches the rest of the path.
pub open spec fn scan_segments(segs: Seq<Seq<char>>, psegs: Seq<Seq<char>>, i: int) -> (int, bool)
    decreases segs.len() - i,
{
    if i < 0 || i >= segs.len() {
        (i, false)
    } else if is_catch_all(segs[i]) {
        (i + 1, true)
    } else if psegs.len() <= i {
        (i, false)
    } else if segs[i] == psegs[i] || is_dynamic_path(segs[i]) {
        scan_segments(segs, psegs, i + 1)
    } else {
        (i, false)
    }
}

/// What a dynamic route answers for a path.
pub enum DynOutcome {
    /// The route matched and its bundle was found.
    Found(RouteBundleSpec),
    /// The route matched but no bundle is stored under it: the search ends.
    Stop,
    /// The route does not match.
    NoMatch,
}

/// The manifest key of the first `m` segments.
pub open spec fn segments_key(segs: Seq<Seq<char>>, m: int) -> Seq<char> {
    "/"@ + join_with(segs.take(m), "/"@)
}

/// The outcome of matching the dynamic route `route` against the path segments.
pub open spec fn dyn_outcome(
    bs: Seq<(Seq<char>, RouteBundleSpec)>,
    route: Seq<char>,
    psegs: Seq<Seq<char>>,
) -> DynOutcome {
    let segs = segments(route, '/');
    let (m, catch_all) = scan_segments(segs, psegs, 0);
    if catch_all || m == psegs.len() {
        match lookup(bs, segments_key(segs, m)) {
            Some(b) => DynOutcome::Found(b),
            None => DynOutcome::Stop,
        }
    } else {
        DynOutcome::NoMatch
    }
}

/// The first outcome other than `NoMatch` of the dynamic routes from entry `i` on.
pub open spec fn dynamic_search(
    bs: Seq<(Seq<char>, RouteBundleSpec)>,
    psegs: Seq<Seq<char>>,
    i: int,
) -> DynOutcome
    decreases bs.len() - i,
{
    if i < 0 || i >= bs.len() {
        DynOutcome::NoMatch
    } else if is_dynamic_path(bs[i].0) {
        let o = dyn_outcome(bs, bs[i].0, psegs);
        if o is NoMatch {
            dynamic_search(bs, psegs, i + 1)
        } else {
            o
        }
    } else {
        dynamic_search(bs, psegs, i + 1)
    }
}

/// The client bundle, or an empty bundle when there is none.
pub open spec fn fallback_bundle(bs: Seq<(Seq<char>, RouteBundleSpec)>) -> RouteBundleSpec {
    match lookup(bs, client_key()) {
        Some(b) => b,
        None => RouteBundleSpec { css: Seq::empty(), js: Seq::empty() },
    }
}

/// The bundle served for a request path: the exact route, else the first
/// matching dynamic route, else the client bundle.
pub open spec fn spec_bundle_for_path(
    bs: Seq<(Seq<char>, RouteBundleSpec)>,
    pathname: Seq<char>,
) -> RouteBundleSpec {
    match lookup(bs, pathname) {
        Some(b) => b,
        None => match dynamic_search(bs, segments(pathname, '/'), 0) {
            DynOutcome::Found(b) => b,
            _ => fallback_bundle(bs),
        },
    }
}


/// A name for what `regex::Regex::is_match` answers when the regex compiled
/// from `pattern` searches `haystack`.
pub uninterp spec fn regex_is_match(pattern: Seq<char>, haystack: Seq<char>) -> bool;

/// `regex::Regex::new(pattern)` followed by `is_match(haystack)`.
///
/// `None` when the pattern does not compile.  Otherwise the answer is the
/// crate's match of the pattern anywhere in the haystack; for the dynamic
/// segment pattern `\[(.*?)\]` (a `[`, any characters but a line feed, then
/// a `]`) the crate's syntax documentation gives that answer exactly.
#[verifier::external_body]
fn regex_match(pattern: &str, haystack: &str) -> (res: Option<bool>)
    ensures
        res matches Some(b) ==> b == regex_is_match(pattern@, haystack@),
        pattern@ == r"\[(.*?)\]"@ ==> res == Some(is_dynamic_path(haystack@)),
{
    regex::Regex::new(pattern).ok().map(|re| re.is_match(haystack))
}

/// The value of a missing list in the bundler's manifest: no entries.
pub fn empty_vector() -> (res: Vec<String>)
    ensures
        res@.len() == 0,
{
    Vec::new()
}

/// Whether a route path holds a dynamic segment such as `[id]`.
pub fn has_dynamic_path(pathname: &str) -> (res: bool)
    ensures
        res == is_dynamic_path(pathname@),
{
    match regex_match(r"\[(.*?)\]", pathname) {
        Some(b) => b,
        None => false,
    }
}

/// Removes the routes folder prefix, the page extensions and the `index`
/// suffix from a manifest entry name.
pub fn clean_route_path(path: String) -> (res: String)
    ensures
        res@ == spec_clean_route_path(path@),
{
    proof {
        reveal_strlit("../src/routes");
        reveal_strlit(".tsx");
        reveal_strlit(".mdx");
        reveal_strlit(".md");
        reveal_strlit(".jsx");
        reveal_strlit("/index");
        reveal_strlit("");
        assert(""@ =~= Seq::<char>::empty());
    }
    let p = replace_str(path.as_str(), "../src/routes", "");
    let p = replace_str(p.as_str(), ".tsx", "");
    let p = replace_str(p.as_str(), ".mdx", "");
    let p = replace_str(p.as_str(), ".md", "");
    let p = replace_str(p.as_str(), ".jsx", "");
    if str_eq(p.as_str(), "/index") {
        return owned("/");
    }
    replace_str(p.as_str(), "/index", "")
}

/// A copy of a route bundle.
fn copy_bundle(b: &RouteBundle) -> (res: RouteBundle)
    ensures
        res@ == b@,
{
    RouteBundle { css_files: clone_strings(&b.css_files), js_files: clone_strings(&b.js_files) }
}

/// How far the route segments match the path segments (see `scan_segments`).
fn scan_route_segments(segs: &Vec<String>, psegs: &Vec<String>) -> (res: (usize, bool))
    ensures
        (res.0 as int, res.1) == scan_segments(views(segs@), views(psegs@), 0),
        res.0 <= segs@.len(),
{
    proof {
        reveal_strlit("[...");
    }
    let ghost s = views(segs@);
    let ghost ps = views(psegs@);
    let mut i: usize = 0;
    while i < segs.len()
        invariant
            i <= segs@.len(),
            s == views(segs@),
            ps == views(psegs@),
            scan_segments(s, ps, 0) == scan_segments(s, ps, i as int),
        decreases segs.len() - i,
    {
        assert(s[i as int] == segs@[i as int]@);
        if starts_with(segs[i].as_str(), "[...") {
            return (i + 1, true);
        }
        if psegs.len() <= i {
            return (i, false);
        }
        assert(ps[i as int] == psegs@[i as int]@);
        if segs[i] == psegs[i] || has_dynamic_path(segs[i].as_str()) {
            i = i + 1;
        } else {
            return (i, false);
        }
    }
    (i, false)
}

impl Manifest {
    /// The route bundles, by route.
    pub fn bundles(&self) -> (res: &StrMap<RouteBundle>)
        ensures
            res.entries() == self@,
    {
        &self.bundles
    }

    /// The outcome of one dynamic route for the path segments:
    /// `None` when it does not match, `Some(None)` when it matches but no
    /// bundle is stored under the matched key, and the bundle otherwise.
    fn dynamic_route_bundle(&self, route: &str, psegs: &Vec<String>) -> (res: Option<
        Option<RouteBundle>,
    >)
        ensures
            match dyn_outcome(self@, route@, views(psegs@)) {
                DynOutcome::Found(b) => res matches Some(Some(r)) && r@ == b,
                DynOutcome::Stop => res matches Some(None),
                DynOutcome::NoMatch => res is None,
            },
    {
        let segs = split_segments(route, '/');
        let (m, catch_all) = scan_route_segments(&segs, psegs);
        if catch_all || m == psegs.len() {
            let joined = join_strings(&segs, m, "/");
            let key = concat_str("/", joined.as_str());
            match self.bundles.get(key.as_str()) {
                Some(b) => Some(Some(copy_bundle(b))),
                None => Some(None),
            }
        } else {
            None
        }
    }

    /// The bundle of a request path: the route stored under the exact path;
    /// else the first dynamic route, in route order, whose segments match the
    /// path (a `[...rest]` segment takes the rest of the path); else the
    /// client bundle, or an empty bundle when there is none.
    pub fn get_bundle_from_pathname(&self, pathname: &str) -> (res: RouteBundle)
        ensures
            res@ == spec_bundle_for_path(self@, pathname@),
    {
        proof {
            reveal_strlit("client-main");
        }
        if let Some(b) = self.bundles.get(pathname) {
            return copy_bundle(b);
        }
        let psegs = split_segments(pathname, '/');
        let n = self.bundles.len();
        let mut i: usize = 0;
        while i < n
            invariant
                n == self@.len(),
                i <= n,
                lookup(self@, pathname@) is None,
                views(psegs@) == segments(pathname@, '/'),
                dynamic_search(self@, views(psegs@), 0) == dynamic_search(
                    self@,
                    views(psegs@),
                    i as int,
                ),
            decreases n - i,
        {
            let key = self.bundles.key_at(i);
            assert(key@ == self@[i as int].0);
            if has_dynamic_path(key.as_str()) {
                match self.dynamic_route_bundle(key.as_str(), &psegs) {
                    Some(Some(b)) => {
                        return b;
                    },
                    Some(None) => {
                        return self.fallback();
                    },
                    None => {},
                }
            }
            i = i + 1;
        }
        self.fallback()
    }

    /// The client bundle, or an empty bundle when there is none.
    fn fallback(&self) -> (res: RouteBundle)
        ensures
            res@ == fallback_bundle(self@),
    {
        match self.bundles.get("client-main") {
            Some(b) => copy_bundle(b),
            None => {
                let res = RouteBundle { css_files: Vec::new(), js_files: Vec::new() };
                assert(res@.css =~= Seq::<Seq<char>>::empty());
                assert(res@.js =~= Seq::<Seq<char>>::empty());
                res
            },
        }
    }
}


/// The script files of the imports, as `import_files` gives them.
fn import_files_exec(manifest: &ViteManifest, imports: &Vec<String>) -> (res: Vec<String>)
    ensures
        views(res@) == import_files(manifest.entries(), views(imports@)),
{
    proof {
        reveal_strlit("client-main.tsx");
    }
    let ghost vm = manifest.entries();
    let ghost imps = views(imports@);
    let mut res: Vec<String> = Vec::new();
    assert(imps.take(0) =~= Seq::<Seq<char>>::empty());
    for k in 0..imports.len()
        invariant
            imps == views(imports@),
            vm == manifest.entries(),
            views(res@) == import_files(vm, imps.take(k as int)),
    {
        assert(imps.take(k + 1).drop_last() =~= imps.take(k as int));
        assert(imps.take(k + 1).last() == imports@[k as int]@);
        if !str_eq(imports[k].as_str(), "client-main.tsx") {
            match manifest.get(imports[k].as_str()) {
                Some(b) => {
                    let f = b.file.clone();
                    let ghost before = res@;
                    res.push(f);
                    assert(views(res@) =~= views(before).push(f@));
                },
                None => {},
            }
        }
    }
    assert(imps.take(imports@.len() as int) =~= imps);
    res
}

/// The style sheets of the imports, as `import_css` gives them.
fn import_css_exec(manifest: &ViteManifest, imports: &Vec<String>) -> (res: Vec<String>)
    ensures
        views(res@) == import_css(manifest.entries(), views(imports@)),
{
    proof {
        reveal_strlit("client-main.tsx");
    }
    let ghost vm = manifest.entries();
    let ghost imps = views(imports@);
    let mut res: Vec<String> = Vec::new();
    assert(imps.take(0) =~= Seq::<Seq<char>>::empty());
    for k in 0..imports.len()
        invariant
            imps == views(imports@),
            vm == manifest.entries(),
            views(res@) == import_css(vm, imps.take(k as int)),
    {
        assert(imps.take(k + 1).drop_last() =~= imps.take(k as int));
        assert(imps.take(k + 1).last() == imports@[k as int]@);
        if !str_eq(imports[k].as_str(), "client-main.tsx") {
            match manifest.get(imports[k].as_str()) {
                Some(b) => {
                    extend_strings(&mut res, &b.css);
                },
                None => {},
            }
        }
    }
    assert(imps.take(imports@.len() as int) =~= imps);
    res
}

/// The bundle of a page route (see `page_bundle`).
fn page_bundle_exec(manifest: &ViteManifest, b: &BundleInfo, cm: &BundleInfo) -> (res: RouteBundle)
    ensures
        res@ == page_bundle(manifest.entries(), b@, cm@),
{
    let mut css_files = clone_strings(&b.css);
    extend_strings(&mut css_files, &cm.css);
    let mut js_files: Vec<String> = Vec::new();
    js_files.push(b.file.clone());
    js_files.push(cm.file.clone());
    assert(views(js_files@) =~= seq![b.file@, cm.file@]);
    if b.imports.len() > 1 {
        let more_js = import_files_exec(manifest, &b.imports);
        let more_css = import_css_exec(manifest, &b.imports);
        extend_strings(&mut js_files, &more_js);
        extend_strings(&mut css_files, &more_css);
    }
    RouteBundle { css_files, js_files }
}

/// A route bundle with a layout's files appended (see `with_layout`).
fn with_layout_exec(
    rb: &RouteBundle,
    layout: &BundleInfo,
    layout_js: &Vec<String>,
    layout_css: &Vec<String>,
    vm: Ghost<Seq<(Seq<char>, BundleSpec)>>,
) -> (res: RouteBundle)
    requires
        views(layout_js@) == import_files(vm@, layout@.imports),
        views(layout_css@) == import_css(vm@, layout@.imports),
    ensures
        res@ == with_layout(rb@, vm@, layout@),
{
    let mut out = copy_bundle(rb);
    let f = layout.file.clone();
    let ghost before = out.js_files@;
    out.js_files.push(f);
    assert(views(out.js_files@) =~= views(before).push(f@));
    extend_strings(&mut out.css_files, &layout.css);
    extend_strings(&mut out.js_files, layout_js);
    extend_strings(&mut out.css_files, layout_css);
    out
}

impl Manifest {
    /// The route bundles of a bundler manifest, which must hold the client
    /// entry `client-main.tsx`.
    ///
    /// The client entry is stored under `client-main` with its own files.
    /// Every other entry that is not a layout and whose cleaned path starts
    /// with `/` is stored under that route with its files, the client
    /// entry's files, and (when it imports more than the client entry) its
    /// imports' files.  Then, in manifest order, each layout appends its
    /// files and its imports' files to every route under the layout's folder.
    pub fn from(manifest: ViteManifest) -> (res: Manifest)
        requires
            has_key(manifest.entries(), client_entry()),
        ensures
            res@ == spec_manifest_from(manifest.entries()),
    {
        proof {
            reveal_strlit("client-main.tsx");
            reveal_strlit("client-main");
            reveal_strlit("__layout");
            reveal_strlit("/");
            reveal_strlit("");
            assert(""@ =~= Seq::<char>::empty());
        }
        let ghost vm = manifest.entries();
        let cm = match manifest.get("client-main.tsx") {
            Some(b) => b,
            None => {
                assert(false);
                return Manifest { bundles: StrMap::new() };
            },
        };
        let n = manifest.len();
        let mut bundles: StrMap<RouteBundle> = StrMap::new();
        for i in 0..n
            invariant
                n == vm.len(),
                vm == manifest.entries(),
                lookup(vm, client_entry()) == Some(cm@),
                bundles.entries() == route_bundles(vm, i as int),
        {
            let key = manifest.key_at(i);
            let bundle = manifest.value_at(i);
            if contains_str(key.as_str(), "__layout") {
            } else if str_eq(key.as_str(), "client-main.tsx") {
                let mut js_files: Vec<String> = Vec::new();
                js_files.push(bundle.file.clone());
                let rb = RouteBundle { css_files: clone_strings(&bundle.css), js_files };
                assert(rb@.js =~= seq![bundle@.file]);
                bundles.insert(owned("client-main"), rb);
            } else {
                let route = clean_route_path(key.clone());
                if starts_with(route.as_str(), "/") {
                    let rb = page_bundle_exec(&manifest, bundle, cm);
                    bundles.insert(route, rb);
                }
            }
        }
        let ghost base = bundles.entries();
        for i in 0..n
            invariant
                n == vm.len(),
                vm == manifest.entries(),
                base == route_bundles(vm, n as int),
                bundles.entries() == layouts_applied(vm, base, i as int),
        {
            let key = manifest.key_at(i);
            let layout = manifest.value_at(i);
            proof {
                reveal_strlit("__layout");
                reveal_strlit("");
                assert(""@ =~= Seq::<char>::empty());
            }
            let route = clean_route_path(key.clone());
            if contains_str(route.as_str(), "__layout") {
                let prefix = replace_str(route.as_str(), "__layout", "");
                let layout_js = import_files_exec(&manifest, &layout.imports);
                let layout_css = import_css_exec(&manifest, &layout.imports);
                let ghost old_bs = bundles.entries();
                let ghost target = apply_layout(old_bs, prefix@, vm, layout@);
                let m = bundles.len();
                for j in 0..m
                    invariant
                        m == old_bs.len(),
                        target == apply_layout(old_bs, prefix@, vm, layout@),
                        views(layout_js@) == import_files(vm, layout@.imports),
                        views(layout_css@) == import_css(vm, layout@.imports),
                        bundles.entries().len() == m,
                        forall|k: int| 0 <= k < j ==> bundles.entries()[k] == target[k],
                        forall|k: int| j <= k < m ==> bundles.entries()[k] == old_bs[k],
                {
                    let k = bundles.key_at(j);
                    if starts_with(k.as_str(), prefix.as_str()) {
                        let rb = with_layout_exec(
                            bundles.value_at(j),
                            layout,
                            &layout_js,
                            &layout_css,
                            Ghost(vm),
                        );
                        bundles.set_value_at(j, rb);
                    }
                }
                assert(bundles.entries() =~= target);
            }
        }
        Manifest { bundles }
    }
}


/// Storing under a key never removes another key.
proof fn lemma_insert_keeps_keys<T>(s: Seq<(Seq<char>, T)>, k: Seq<char>, v: T, q: Seq<char>)
    requires
        has_key(s, q),
    ensures
        has_key(insert_entry(s, k, v), q),
{
    let t = insert_entry(s, k, v);
    let j = key_index(s, q);
    if has_key(s, k) {
        let i = key_index(s, k);
        if i == j {
            assert(t[i].0 == q);
        } else {
            assert(t[j] == s[j]);
        }
    } else {
        assert(t[j] == s[j]);
    }
}

/// A stored key is present afterwards.
proof fn lemma_insert_has_key<T>(s: Seq<(Seq<char>, T)>, k: Seq<char>, v: T)
    ensures
        has_key(insert_entry(s, k, v), k),
{
    let t = insert_entry(s, k, v);
    if has_key(s, k) {
        assert(t[key_index(s, k)].0 == k);
    } else {
        assert(t[s.len() as int].0 == k);
    }
}

/// Building route bundles never drops a route once stored.
proof fn lemma_route_bundles_keep_keys(vm: Seq<(Seq<char>, BundleSpec)>, a: int, b: int, q: Seq<char>)
    requires
        0 <= a <= b,
        has_key(route_bundles(vm, a), q),
    ensures
        has_key(route_bundles(vm, b), q),
    decreases b - a,
{
    if a < b {
        lemma_route_bundles_keep_keys(vm, a, b - 1, q);
        let acc = route_bundles(vm, b - 1);
        let key = vm[b - 1].0;
        let bi = vm[b - 1].1;
        if contains_seq(key, "__layout"@) {
        } else if key == client_entry() {
            lemma_insert_keeps_keys(acc, client_key(), RouteBundleSpec { css: bi.css, js: seq![bi.file] }, q);
        } else {
            let route = spec_clean_route_path(key);
            if has_prefix(route, "/"@) {
                lemma_insert_keeps_keys(
                    acc,
                    route,
                    page_bundle(vm, bi, lookup(vm, client_entry()).unwrap()),
                    q,
                );
            }
        }
    }
}

/// Applying layouts keeps every route key in its place.
proof fn lemma_layouts_keep_keys(
    vm: Seq<(Seq<char>, BundleSpec)>,
    bs: Seq<(Seq<char>, RouteBundleSpec)>,
    n: int,
)
    ensures
        keys_of(layouts_applied(vm, bs, n)) == keys_of(bs),
    decreases n,
{
    if n > 0 {
        lemma_layouts_keep_keys(vm, bs, n - 1);
        let acc = layouts_applied(vm, bs, n - 1);
        let route = spec_clean_route_path(vm[n - 1].0);
        if contains_seq(route, "__layout"@) {
            let out = apply_layout(acc, replace_all(route, "__layout"@, Seq::empty()), vm, vm[n - 1].1);
            assert(keys_of(out) =~= keys_of(acc));
        }
    }
}

/// The route bundles built from a bundler manifest that holds the
/// client entry always hold the client bundle under `client-main`, so a
/// request path that matches no route is answered with it.
pub proof fn law_client_bundle_always_present(vm: Seq<(Seq<char>, BundleSpec)>)
    requires
        has_key(vm, client_entry()),
    ensures
        has_key(spec_manifest_from(vm), client_key()),
{
    reveal_strlit("client-main.tsx");
    reveal_strlit("__layout");
    let c = key_index(vm, client_entry());
    let key = vm[c].0;
    assert(!contains_seq(key, "__layout"@)) by {
        if contains_seq(key, "__layout"@) {
            let i = choose|i: int| occurs_at(key, "__layout"@, i);
            assert(key.subrange(i, i + 8)[0] == '_');
            assert(key[i] == '_');
        }
    }
    let bi = vm[c].1;
    let acc = route_bundles(vm, c);
    let t = route_bundles(vm, c + 1);
    assert(t == insert_entry(acc, client_key(), RouteBundleSpec { css: bi.css, js: seq![bi.file] }));
    lemma_insert_has_key(acc, client_key(), RouteBundleSpec { css: bi.css, js: seq![bi.file] });
    lemma_route_bundles_keep_keys(vm, c + 1, vm.len() as int, client_key());
    let bs = route_bundles(vm, vm.len() as int);
    let out = spec_manifest_from(vm);
    lemma_layouts_keep_keys(vm, bs, vm.len() as int);
    let j = key_index(bs, client_key());
    assert(0 <= j < bs.len() && bs[j].0 == client_key());
    assert(keys_of(bs).len() == bs.len());
    assert(keys_of(out).len() == out.len());
    assert(keys_of(out)[j] == keys_of(bs)[j]);
    assert(keys_of(bs)[j] == bs[j].0);
    assert(keys_of(out)[j] == out[j].0);
    assert(out[j].0 == client_key());
}

/// A page of the routes folder, `p.tsx`, `p.mdx`, `p.md` or `p.jsx`, is the
/// route `/p`, and the page `index` is the route `/`. (The name `p` holds
/// no `.`, and `/p` holds no `/index` other than being it.)
pub proof fn law_page_route_path(p: Seq<char>, ext: Seq<char>)
    requires
        ext == "tsx"@ || ext == "mdx"@ || ext == "md"@ || ext == "jsx"@,
        !has_char(p, '.'),
        "/"@ + p == "/index"@ || !contains_seq("/"@ + p, "/index"@),
    ensures
        spec_clean_route_path("../src/routes"@ + "/"@ + p + "."@ + ext) == (if "/"@ + p == "/index"@ {
            "/"@
        } else {
            "/"@ + p
        }),
{
    reveal_strlit("../src/routes");
    reveal_strlit("/");
    reveal_strlit(".");
    reveal_strlit("tsx");
    reveal_strlit("mdx");
    reveal_strlit("md");
    reveal_strlit("jsx");
    reveal_strlit(".tsx");
    reveal_strlit(".mdx");
    reveal_strlit(".md");
    reveal_strlit(".jsx");
    reveal_strlit("/index");
    let pre = "../src/routes"@;
    let x = "/"@ + p;
    let d = "."@ + ext;
    let path = "../src/routes"@ + "/"@ + p + "."@ + ext;
    assert(path =~= pre + (x + d));
    assert(!has_char("/"@, '.'));
    crate::text::lemma_no_char_concat("/"@, p, '.');
    assert(!has_char(x, '.'));
    assert(!has_char(ext, '.'));
    assert(d.skip(1) =~= ext);
    // The routes folder goes.
    lemma_replace_all_leading(pre, x + d, Seq::empty());
    assert(pre[0] == '.');
    lemma_replace_all_free_prefix(x, d, pre, Seq::empty());
    assert(d.len() < pre.len());
    assert(replace_all(d, pre, Seq::empty()) == d);
    assert(Seq::<char>::empty() + (x + d) =~= x + d);
    let s1 = replace_all(path, pre, Seq::empty());
    assert(s1 == x + d);
    let s2 = replace_all(s1, ".tsx"@, Seq::empty());
    let s3 = replace_all(s2, ".mdx"@, Seq::empty());
    let s4 = replace_all(s3, ".md"@, Seq::empty());
    let s5 = replace_all(s4, ".jsx"@, Seq::empty());
    assert(x + Seq::<char>::empty() =~= x);
    if ext == "tsx"@ {
        assert(d =~= ".tsx"@);
        lemma_drop_pattern(x, d, ".tsx"@);
        lemma_drop_pattern(x, Seq::empty(), ".mdx"@);
        lemma_drop_pattern(x, Seq::empty(), ".md"@);
        lemma_drop_pattern(x, Seq::empty(), ".jsx"@);
    } else if ext == "mdx"@ {
        assert(d =~= ".mdx"@);
        assert(d != ".tsx"@ && !has_prefix(d, ".tsx"@)) by {
            assert(d[1] != ".tsx"@[1]);
            assert(d.take(4)[1] != ".tsx"@[1]);
        }
        lemma_drop_pattern(x, d, ".tsx"@);
        assert(s2 == x + d);
        lemma_drop_pattern(x, d, ".mdx"@);
        assert(s3 == x);
        lemma_drop_pattern(x, Seq::empty(), ".md"@);
        lemma_drop_pattern(x, Seq::empty(), ".jsx"@);
    } else if ext == "md"@ {
        assert(d =~= ".md"@);
        lemma_drop_pattern(x, d, ".tsx"@);
        assert(s2 == x + d);
        lemma_drop_pattern(x, d, ".mdx"@);
        assert(s3 == x + d);
        lemma_drop_pattern(x, d, ".md"@);
        assert(s4 == x);
        lemma_drop_pattern(x, Seq::empty(), ".jsx"@);
    } else {
        assert(d =~= ".jsx"@);
        assert(d != ".tsx"@ && !has_prefix(d, ".tsx"@)) by {
            assert(d[1] != ".tsx"@[1]);
            assert(d.take(4)[1] != ".tsx"@[1]);
        }
        assert(d != ".mdx"@ && !has_prefix(d, ".mdx"@)) by {
            assert(d[1] != ".mdx"@[1]);
            assert(d.take(4)[1] != ".mdx"@[1]);
        }
        assert(!has_prefix(d, ".md"@)) by {
            assert(d.take(3)[1] != ".md"@[1]);
        }
        lemma_drop_pattern(x, d, ".tsx"@);
        assert(s2 == x + d);
        lemma_drop_pattern(x, d, ".mdx"@);
        assert(s3 == x + d);
        lemma_drop_pattern(x, d, ".md"@);
        assert(s4 == x + d);
        lemma_drop_pattern(x, d, ".jsx"@);
    }
    assert(s5 == x);
    if x != "/index"@ {
        lemma_replace_all_absent(x, "/index"@, Seq::empty());
    }
}

/// An imported entry other than the client entry that the manifest holds
/// has its script among the imports' scripts and its style sheets among
/// the imports' style sheets.
proof fn lemma_import_reaches(
    vm: Seq<(Seq<char>, BundleSpec)>,
    imports: Seq<Seq<char>>,
    e: Seq<char>,
    c: Seq<char>,
)
    requires
        imports.contains(e),
        e != client_entry(),
        has_key(vm, e),
    ensures
        import_files(vm, imports).contains(lookup(vm, e).unwrap().file),
        lookup(vm, e).unwrap().css.contains(c) ==> import_css(vm, imports).contains(c),
    decreases imports.len(),
{
    let b = lookup(vm, e).unwrap();
    let rest_js = import_files(vm, imports.drop_last());
    let rest_css = import_css(vm, imports.drop_last());
    if imports.last() == e {
        assert(import_files(vm, imports) == rest_js.push(b.file));
        assert(import_files(vm, imports)[rest_js.len() as int] == b.file);
        assert(import_css(vm, imports) == rest_css + b.css);
        if b.css.contains(c) {
            let k = choose|k: int| 0 <= k < b.css.len() && b.css[k] == c;
            assert(import_css(vm, imports)[rest_css.len() + k] == c);
        }
    } else {
        let i = choose|i: int| 0 <= i < imports.len() && imports[i] == e;
        assert(i < imports.len() - 1);
        assert(imports.drop_last()[i] == e);
        lemma_import_reaches(vm, imports.drop_last(), e, c);
        let f = b.file;
        let k = choose|k: int| 0 <= k < rest_js.len() && rest_js[k] == f;
        let imp = imports.last();
        if imp != client_entry() {
            match lookup(vm, imp) {
                Some(o) => {
                    assert(import_files(vm, imports) == rest_js.push(o.file));
                    assert(import_files(vm, imports)[k] == f);
                    if b.css.contains(c) {
                        let m = choose|m: int| 0 <= m < rest_css.len() && rest_css[m] == c;
                        assert(import_css(vm, imports) == rest_css + o.css);
                        assert(import_css(vm, imports)[m] == c);
                    }
                },
                None => {},
            }
        }
    }
}

/// Applying layouts only appends files to a route's bundle: a script or
/// style sheet that a route has after some layouts stays after the later
/// ones.
proof fn lemma_layouts_keep_files(
    vm: Seq<(Seq<char>, BundleSpec)>,
    bs: Seq<(Seq<char>, RouteBundleSpec)>,
    a: int,
    b: int,
    j: int,
    x: Seq<char>,
    c: Seq<char>,
)
    requires
        0 <= a <= b,
        0 <= j < bs.len(),
    ensures
        layouts_applied(vm, bs, b).len() == bs.len(),
        layouts_applied(vm, bs, a)[j].1.js.contains(x) ==> layouts_applied(vm, bs, b)[j].1.js.contains(x),
        layouts_applied(vm, bs, a)[j].1.css.contains(c) ==> layouts_applied(vm, bs, b)[j].1.css.contains(c),
    decreases b - a,
{
    lemma_layouts_keep_keys(vm, bs, b);
    assert(keys_of(layouts_applied(vm, bs, b)).len() == keys_of(bs).len());
    if a < b {
        lemma_layouts_keep_files(vm, bs, a, b - 1, j, x, c);
        let acc = layouts_applied(vm, bs, b - 1);
        let route = spec_clean_route_path(vm[b - 1].0);
        if contains_seq(route, "__layout"@) {
            let prefix = replace_all(route, "__layout"@, Seq::empty());
            let layout = vm[b - 1].1;
            let out = apply_layout(acc, prefix, vm, layout);
            assert(layouts_applied(vm, bs, b) == out);
            if has_prefix(acc[j].0, prefix) {
                let w = with_layout(acc[j].1, vm, layout);
                assert(out[j].1 == w);
                if acc[j].1.js.contains(x) {
                    let k = choose|k: int| 0 <= k < acc[j].1.js.len() && acc[j].1.js[k] == x;
                    assert(w.js[k] == x);
                }
                if acc[j].1.css.contains(c) {
                    let k = choose|k: int| 0 <= k < acc[j].1.css.len() && acc[j].1.css[k] == c;
                    assert(w.css[k] == c);
                }
            } else {
                assert(out[j] == acc[j]);
            }
        }
    }
}

/// A layout's imported components travel with every page under it: when
/// a layout entry of the bundler's manifest imports an entry other than
/// the client entry that the manifest holds, every route under the
/// layout's folder lists that entry's script among its scripts and each of
/// its style sheets among its style sheets.
pub proof fn law_layout_imports_reach_its_routes(
    vm: Seq<(Seq<char>, BundleSpec)>,
    l: int,
    e: Seq<char>,
    j: int,
    c: Seq<char>,
)
    requires
        0 <= l < vm.len(),
        contains_seq(spec_clean_route_path(vm[l].0), "__layout"@),
        vm[l].1.imports.contains(e),
        e != client_entry(),
        has_key(vm, e),
        0 <= j < spec_manifest_from(vm).len(),
        has_prefix(
            spec_manifest_from(vm)[j].0,
            replace_all(spec_clean_route_path(vm[l].0), "__layout"@, Seq::empty()),
        ),
    ensures
        spec_manifest_from(vm)[j].1.js.contains(lookup(vm, e).unwrap().file),
        lookup(vm, e).unwrap().css.contains(c) ==> spec_manifest_from(vm)[j].1.css.contains(c),
{
    let bs = route_bundles(vm, vm.len() as int);
    let out = spec_manifest_from(vm);
    let b = lookup(vm, e).unwrap();
    let layout = vm[l].1;
    let prefix = replace_all(spec_clean_route_path(vm[l].0), "__layout"@, Seq::empty());
    lemma_layouts_keep_keys(vm, bs, vm.len() as int);
    lemma_layouts_keep_keys(vm, bs, l);
    let acc = layouts_applied(vm, bs, l);
    assert(keys_of(out).len() == keys_of(bs).len());
    assert(keys_of(acc).len() == keys_of(bs).len());
    assert(keys_of(acc)[j] == keys_of(out)[j]);
    assert(acc[j].0 == out[j].0);
    let step = apply_layout(acc, prefix, vm, layout);
    assert(layouts_applied(vm, bs, l + 1) == step);
    let w = with_layout(acc[j].1, vm, layout);
    assert(step[j].1 == w);
    lemma_import_reaches(vm, layout.imports, e, c);
    let rj = acc[j].1.js.push(layout.file);
    let k = choose|k: int| 0 <= k < import_files(vm, layout.imports).len()
        && import_files(vm, layout.imports)[k] == b.file;
    assert(w.js[rj.len() + k] == b.file);
    if b.css.contains(c) {
        let m = choose|m: int| 0 <= m < import_css(vm, layout.imports).len()
            && import_css(vm, layout.imports)[m] == c;
        let pre = acc[j].1.css + layout.css;
        assert(w.css[pre.len() + m] == c);
    }
    lemma_layouts_keep_files(vm, bs, l + 1, vm.len() as int, j, b.file, c);
}

/// A layout's own script and style sheets are served with every page
/// under it: every route under the folder of a layout entry of the
/// bundler's manifest lists the layout's script among its scripts and each
/// of the layout's style sheets among its style sheets.
pub proof fn law_layout_files_reach_its_routes(vm: Seq<(Seq<char>, BundleSpec)>, l: int, j: int, c: Seq<char>)
    requires
        0 <= l < vm.len(),
        contains_seq(spec_clean_route_path(vm[l].0), "__layout"@),
        0 <= j < spec_manifest_from(vm).len(),
        has_prefix(
            spec_manifest_from(vm)[j].0,
            replace_all(spec_clean_route_path(vm[l].0), "__layout"@, Seq::empty()),
        ),
    ensures
        spec_manifest_from(vm)[j].1.js.contains(vm[l].1.file),
        vm[l].1.css.contains(c) ==> spec_manifest_from(vm)[j].1.css.contains(c),
{
    let bs = route_bundles(vm, vm.len() as int);
    let out = spec_manifest_from(vm);
    let layout = vm[l].1;
    let prefix = replace_all(spec_clean_route_path(vm[l].0), "__layout"@, Seq::empty());
    lemma_layouts_keep_keys(vm, bs, vm.len() as int);
    lemma_layouts_keep_keys(vm, bs, l);
    let acc = layouts_applied(vm, bs, l);
    assert(keys_of(out).len() == keys_of(bs).len());
    assert(keys_of(acc).len() == keys_of(bs).len());
    assert(keys_of(acc)[j] == keys_of(out)[j]);
    assert(acc[j].0 == out[j].0);
    let step = apply_layout(acc, prefix, vm, layout);
    assert(layouts_applied(vm, bs, l + 1) == step);
    let w = with_layout(acc[j].1, vm, layout);
    assert(step[j].1 == w);
    assert(w.js[acc[j].1.js.len() as int] == layout.file);
    if layout.css.contains(c) {
        let m = choose|m: int| 0 <= m < layout.css.len() && layout.css[m] == c;
        assert(w.css[acc[j].1.css.len() + m] == c);
    }
    lemma_layouts_keep_files(vm, bs, l + 1, vm.len() as int, j, layout.file, c);
}

/// A request path stored as a route is answered with that route's
/// bundle, whatever dynamic routes also match it.
pub proof fn law_exact_route_wins(bs: Seq<(Seq<char>, RouteBundleSpec)>, pathname: Seq<char>)
    requires
        has_key(bs, pathname),
    ensures
        spec_bundle_for_path(bs, pathname) == bs[key_index(bs, pathname)].1,
{
}

} // verus!
