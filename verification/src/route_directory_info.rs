//! The tree of the routes folder: its routes and its middlewares, directory
//! by directory.
use vstd::prelude::*;
use crate::route::{Route, RouteSpec, AxumInfo, new_route};
use crate::strmap::{StrMap, lookup, has_key, insert_entry, keys_distinct, lemma_insert_lookup};
use crate::syntax::{AttrModel, ItemModel, parse_source_items, source_items};
use crate::text::{views, owned, str_eq, replace_str, replace_first_str, replace_all, replace_first, concat_str, clone_strings};
use crate::text::{has_char, has_prefix, contains_seq, lemma_replace_all_absent, lemma_replace_all_free_prefix, lemma_replace_all_leading};
use crate::text::{lemma_no_char_concat, lemma_drop_pattern};
use crate::typescript::{lower_text, to_lowercase};

verus! {

broadcast use vstd::string::group_string_axioms;

/// The stem of the file that declares a directory's middlewares.
pub const MIDDLEWARE_FILENAME: &'static str = "middlewares";

/// The routes folder, relative to the project's base path.
pub const ROUTES_FOLDER_PATH: &'static str = "/src/routes";

/// Style sheets are no routes.
pub open spec fn ignored_extension(ext: Seq<char>) -> bool {
    ext == "css"@ || ext == "scss"@ || ext == "sass"@
}

/// Layouts are no routes.
pub open spec fn ignored_stem(stem: Seq<char>) -> bool {
    stem == "__layout"@
}

/// The name of the module that imports a directory's middlewares: the
/// directory path below the routes folder, with `/`, `.` and `-` spelled
/// out, in lower case, followed by `_middlewares` (or `middlewares` alone
/// for the routes folder itself).
pub open spec fn middleware_module_import(path: Seq<char>, base_path: Seq<char>) -> Seq<char> {
    let s = replace_all(path, base_path + ROUTES_FOLDER_PATH@, Seq::empty());
    let s = replace_first(s, "/"@, Seq::empty());
    let s = replace_all(s, "/"@, "_"@);
    let s = replace_all(s, "."@, "_dot_"@);
    let s = replace_all(s, "-"@, "_hyphen_"@);
    let s = lower_text(s);
    if s.len() > 0 {
        s + "_"@ + MIDDLEWARE_FILENAME@
    } else {
        MIDDLEWARE_FILENAME@
    }
}

/// The key of the route that a file stands for: its path below the routes
/// folder, with `/` separators and without the `.rs`, `.mdx` and `.tsx`
/// extensions.
pub open spec fn route_key(entry: Seq<char>, base_path: Seq<char>) -> Seq<char> {
    let s = replace_all(entry, base_path + ROUTES_FOLDER_PATH@, Seq::empty());
    let s = replace_all(s, "\\"@, "/"@);
    let s = replace_all(s, ".rs"@, Seq::empty());
    let s = replace_all(s, ".mdx"@, Seq::empty());
    replace_all(s, ".tsx"@, Seq::empty())
}

/// The route, marked as handled by a Rust file.
pub open spec fn with_handler(r: RouteSpec) -> RouteSpec {
    RouteSpec { path: r.path, rust_handler: true, axum_info: r.axum_info, api_methods: r.api_methods }
}

/// The routes after collecting the file at `entry`: a Rust file adds its
/// route or marks the present one as handled by Rust; any other file adds
/// its route when it is not there yet.
pub open spec fn collected(
    routes: Seq<(Seq<char>, RouteSpec)>,
    entry: Seq<char>,
    ext: Seq<char>,
    base_path: Seq<char>,
) -> Seq<(Seq<char>, RouteSpec)> {
    let key = route_key(entry, base_path);
    if ext == "rs"@ {
        match lookup(routes, key) {
            Some(r) => insert_entry(routes, key, with_handler(r)),
            None => insert_entry(routes, key, with_handler(new_route(key))),
        }
    } else if has_key(routes, key) {
        routes
    } else {
        insert_entry(routes, key, new_route(key))
    }
}

/// The attribute is `#[tuono_lib::middleware]`.
pub open spec fn is_middleware_attr(a: AttrModel) -> bool {
    views(a.path_segments@) == seq!["tuono_lib"@, "middleware"@]
}

/// Some attribute is `#[tuono_lib::middleware]`.
pub open spec fn has_middleware(attrs: Seq<AttrModel>) -> bool {
    exists|i: int| 0 <= i < attrs.len() && is_middleware_attr(#[trigger] attrs[i])
}

/// The names of the functions marked as middlewares, in file order.
pub open spec fn middleware_fns(items: Seq<ItemModel>) -> Seq<Seq<char>>
    decreases items.len(),
{
    if items.len() == 0 {
        Seq::empty()
    } else {
        let rest = middleware_fns(items.drop_last());
        match items.last() {
            ItemModel::Fn(f) => if has_middleware(f.attrs@) {
                rest.push(f.ident@)
            } else {
                rest
            },
            _ => rest,
        }
    }
}

/// Whether a file is a route, by its extension and its stem.
pub open spec fn collects(ext: Seq<char>, stem: Seq<char>) -> bool {
    !ignored_extension(ext) && !ignored_stem(stem)
}

proof fn lemma_insert_present(s: Seq<(Seq<char>, RouteSpec)>, k: Seq<char>, v: RouteSpec)
    requires
        lookup(s, k) == Some(v),
    ensures
        insert_entry(s, k, v) == s,
{
    let i = crate::strmap::key_index(s, k);
    assert(s[i] == (k, v));
    assert(s.update(i, (k, v)) =~= s);
}

/// Collecting the same file a second time changes nothing.
pub proof fn law_collect_idempotent(
    routes: Seq<(Seq<char>, RouteSpec)>,
    entry: Seq<char>,
    ext: Seq<char>,
    base_path: Seq<char>,
)
    requires
        keys_distinct(routes),
    ensures
        collected(collected(routes, entry, ext, base_path), entry, ext, base_path) == collected(
            routes,
            entry,
            ext,
            base_path,
        ),
{
    let k = route_key(entry, base_path);
    let once = collected(routes, entry, ext, base_path);
    if ext == "rs"@ {
        let v = match lookup(routes, k) {
            Some(r) => with_handler(r),
            None => with_handler(new_route(k)),
        };
        lemma_insert_lookup(routes, k, v, k);
        assert(with_handler(v) == v);
        lemma_insert_present(once, k, v);
    } else if !has_key(routes, k) {
        lemma_insert_lookup(routes, k, new_route(k), k);
    }
}

/// A page or its handler, `p.rs`, `p.mdx` or `p.tsx` in the routes folder,
/// is collected under the key `/p`, whatever its extension and whether the
/// path is written with `/` or a backslash after the routes folder: a page and the
/// Rust file that serves its data share one route. (The name `p` holds no
/// `.` and no backslash, and the routes folder's path does not occur again
/// after its start.)
pub proof fn law_route_key_drops_extension(base_path: Seq<char>, sep: Seq<char>, p: Seq<char>, ext: Seq<char>)
    requires
        sep == "/"@ || sep == "\\"@,
        ext == "rs"@ || ext == "mdx"@ || ext == "tsx"@,
        !has_char(p, '.'),
        !has_char(p, '\\'),
        !contains_seq(sep + p + "."@ + ext, base_path + ROUTES_FOLDER_PATH@),
    ensures
        route_key(base_path + ROUTES_FOLDER_PATH@ + sep + p + "."@ + ext, base_path) == "/"@ + p,
{
    reveal_strlit("/src/routes");
    reveal_strlit("/");
    reveal_strlit(".");
    reveal_strlit("\\");
    reveal_strlit("rs");
    reveal_strlit("mdx");
    reveal_strlit("tsx");
    reveal_strlit(".rs");
    reveal_strlit(".mdx");
    reveal_strlit(".tsx");
    let b = base_path + ROUTES_FOLDER_PATH@;
    let x = "/"@ + p;
    let d = "."@ + ext;
    let t = sep + p + "."@ + ext;
    let e = base_path + ROUTES_FOLDER_PATH@ + sep + p + "."@ + ext;
    assert(e =~= b + t);
    // The routes folder's path goes.
    lemma_replace_all_leading(b, t, Seq::empty());
    lemma_replace_all_absent(t, b, Seq::empty());
    assert(Seq::<char>::empty() + t =~= t);
    let s1 = replace_all(e, b, Seq::empty());
    assert(s1 == t);
    // A backslash after the routes folder turns into `/`, and no other is
    // there.
    let rest = p + "."@ + ext;
    assert(!has_char("."@, '\\'));
    assert(!has_char(ext, '\\'));
    lemma_no_char_concat(p, "."@, '\\');
    lemma_no_char_concat(p + "."@, ext, '\\');
    lemma_replace_all_free_prefix(rest, Seq::empty(), "\\"@, "/"@);
    assert(rest + Seq::<char>::empty() =~= rest);
    assert(t =~= sep + rest);
    assert(x + d =~= "/"@ + rest);
    if sep == "/"@ {
        assert(!has_char("/"@, '\\'));
        lemma_replace_all_free_prefix("/"@, rest, "\\"@, "/"@);
    } else {
        lemma_replace_all_leading("\\"@, rest, "/"@);
    }
    let s2 = replace_all(s1, "\\"@, "/"@);
    assert(s2 == x + d);
    // The extensions go.
    assert(!has_char("/"@, '.'));
    lemma_no_char_concat("/"@, p, '.');
    assert(!has_char(ext, '.'));
    assert(d.skip(1) =~= ext);
    assert(".rs"@[0] == '.' && ".mdx"@[0] == '.' && ".tsx"@[0] == '.');
    let s3 = replace_all(s2, ".rs"@, Seq::empty());
    let s4 = replace_all(s3, ".mdx"@, Seq::empty());
    let s5 = replace_all(s4, ".tsx"@, Seq::empty());
    assert(route_key(e, base_path) == s5);
    if ext == "rs"@ {
        assert(d =~= ".rs"@);
        lemma_drop_pattern(x, d, ".rs"@);
        assert(x + Seq::<char>::empty() =~= x);
        assert(s3 == x);
        lemma_drop_pattern(x, Seq::empty(), ".mdx"@);
        assert(s4 == x);
        lemma_drop_pattern(x, Seq::empty(), ".tsx"@);
        assert(s5 == x);
    } else if ext == "mdx"@ {
        assert(d =~= ".mdx"@);
        assert(!has_prefix(d, ".rs"@)) by {
            assert(d.take(3)[1] != ".rs"@[1]);
        }
        assert(d != ".rs"@);
        lemma_drop_pattern(x, d, ".rs"@);
        assert(s3 == x + d);
        lemma_drop_pattern(x, d, ".mdx"@);
        assert(x + Seq::<char>::empty() =~= x);
        assert(s4 == x);
        lemma_drop_pattern(x, Seq::empty(), ".tsx"@);
        assert(s5 == x);
    } else {
        assert(d =~= ".tsx"@);
        assert(!has_prefix(d, ".rs"@)) by {
            assert(d.take(3)[1] != ".rs"@[1]);
        }
        assert(!has_prefix(d, ".mdx"@)) by {
            assert(d.take(4)[1] != ".mdx"@[1]);
        }
        assert(d != ".rs"@);
        assert(d != ".mdx"@) by {
            assert(d[1] != ".mdx"@[1]);
        }
        lemma_drop_pattern(x, d, ".rs"@);
        assert(s3 == x + d);
        lemma_drop_pattern(x, d, ".mdx"@);
        assert(s4 == x + d);
        lemma_drop_pattern(x, d, ".tsx"@);
        assert(x + Seq::<char>::empty() =~= x);
        assert(s5 == x);
    }
}

/// Collecting a page (`p.mdx` or `p.tsx`) and then its Rust handler
/// (`p.rs`) into no routes gives one route, under the key `/p`, with the
/// path `/p`, marked as handled by Rust.
pub proof fn law_page_and_handler_share_a_route(
    base_path: Seq<char>,
    sep: Seq<char>,
    p: Seq<char>,
    page_ext: Seq<char>,
)
    requires
        sep == "/"@ || sep == "\\"@,
        page_ext == "mdx"@ || page_ext == "tsx"@,
        !has_char(p, '.'),
        !has_char(p, '\\'),
        !contains_seq(sep + p + "."@ + page_ext, base_path + ROUTES_FOLDER_PATH@),
        !contains_seq(sep + p + "."@ + "rs"@, base_path + ROUTES_FOLDER_PATH@),
    ensures
        collected(
            collected(
                Seq::empty(),
                base_path + ROUTES_FOLDER_PATH@ + sep + p + "."@ + page_ext,
                page_ext,
                base_path,
            ),
            base_path + ROUTES_FOLDER_PATH@ + sep + p + "."@ + "rs"@,
            "rs"@,
            base_path,
        ) == seq![("/"@ + p, RouteSpec { path: "/"@ + p, rust_handler: true, axum_info: None, api_methods: None })],
{
    reveal_strlit("rs");
    reveal_strlit("mdx");
    reveal_strlit("tsx");
    let k = "/"@ + p;
    law_route_key_drops_extension(base_path, sep, p, page_ext);
    law_route_key_drops_extension(base_path, sep, p, "rs"@);
    assert(page_ext != "rs"@);
    let none = Seq::<(Seq<char>, RouteSpec)>::empty();
    assert(!has_key(none, k));
    let once = collected(
        none,
        base_path + ROUTES_FOLDER_PATH@ + sep + p + "."@ + page_ext,
        page_ext,
        base_path,
    );
    assert(once == seq![(k, new_route(k))]);
    crate::strmap::lemma_lookup_at(once, 0);
    assert(lookup(once, k) == Some(new_route(k)));
    assert(once.update(0, (k, with_handler(new_route(k)))) =~= seq![(k, with_handler(new_route(k)))]);
}

/// Field by field copy of a route.
pub fn copy_route(r: &Route) -> (res: Route)
    ensures
        res@ == r@,
{
    Route {
        path: r.path.clone(),
        rust_handler: r.rust_handler,
        axum_info: match &r.axum_info {
            Some(a) => Some(AxumInfo { axum_route: a.axum_route.clone(), module_import: a.module_import.clone() }),
            None => None,
        },
        api_methods: match &r.api_methods {
            Some(m) => Some(clone_strings(m)),
            None => None,
        },
    }
}

/// The middlewares that a `middlewares.rs` file declares.
#[derive(Debug)]
pub struct MiddlewareData {
    pub middlewares: Vec<String>,
}

impl MiddlewareData {
    /// Whether some attribute is `#[tuono_lib::middleware]`.
    #[verifier::spinoff_prover]
    pub fn has_middleware_attr(attrs: &Vec<AttrModel>) -> (res: bool)
        ensures
            res == has_middleware(attrs@),
    {
        proof {
            reveal_strlit("tuono_lib");
            reveal_strlit("middleware");
        }
        for i in 0..attrs.len()
            invariant
                forall|j: int| 0 <= j < i ==> !is_middleware_attr(#[trigger] attrs@[j]),
        {
            let segs = &attrs[i].path_segments;
            if segs.len() == 2 && str_eq(segs[0].as_str(), "tuono_lib") && str_eq(segs[1].as_str(), "middleware") {
                assert(views(segs@) =~= seq!["tuono_lib"@, "middleware"@]);
                assert(is_middleware_attr(attrs@[i as int]));
                return true;
            }
            assert(!is_middleware_attr(attrs@[i as int])) by {
                if views(segs@) == seq!["tuono_lib"@, "middleware"@] {
                    assert(views(segs@)[0] == segs@[0]@);
                    assert(views(segs@)[1] == segs@[1]@);
                }
            }
        }
        false
    }

    /// The names of the functions among `items` marked as middlewares, in
    /// file order.
    pub fn middleware_methods(items: &Vec<ItemModel>) -> (res: Vec<String>)
        ensures
            views(res@) == middleware_fns(items@),
    {
        let mut res: Vec<String> = Vec::new();
        assert(items@.take(0) =~= Seq::<ItemModel>::empty());
        for i in 0..items.len()
            invariant
                views(res@) == middleware_fns(items@.take(i as int)),
        {
            assert(items@.take(i + 1).drop_last() =~= items@.take(i as int));
            assert(items@.take(i + 1).last() == items@[i as int]);
            match &items[i] {
                ItemModel::Fn(f) => {
                    if MiddlewareData::has_middleware_attr(&f.attrs) {
                        let ghost before = res@;
                        res.push(f.ident.clone());
                        assert(views(res@) =~= views(before).push(f.ident@));
                    }
                },
                _ => {},
            }
        }
        assert(items@.take(items@.len() as int) =~= items@);
        res
    }

    /// The middlewares declared in `source`, the contents of a
    /// `middlewares.rs` file; `None` when it is not valid Rust.
    pub fn read_middleware_methods_from_source(source: &str) -> (res: Option<Vec<String>>)
        ensures
            match source_items(source@) {
                Some(items) => res matches Some(names) && views(names@) == middleware_fns(items),
                None => res is None,
            },
    {
        match parse_source_items(source) {
            Some(items) => Some(MiddlewareData::middleware_methods(&items)),
            None => None,
        }
    }
}

/// A file found in a routes directory, with what the collection reads of it.
pub struct RouteFile {
    /// The file's full path.
    pub path: String,
    /// The file's name.
    pub name: String,
    /// The file's extension.
    pub extension: String,
    /// The file's name without the extension.
    pub stem: String,
    /// For the `middlewares.rs` file: the middlewares it declares, when it
    /// could be read.
    pub middlewares: Option<Vec<String>>,
}

/// A directory of the routes folder.
#[derive(Debug)]
pub struct RouteDirectoryInfo {
    pub path: String,
    pub directories: Vec<RouteDirectoryInfo>,
    pub routes: StrMap<Route>,
    pub middlewares: Vec<String>,
}

/// The name of the middlewares file.
pub open spec fn middleware_file_name() -> Seq<char> {
    MIDDLEWARE_FILENAME@ + ".rs"@
}

/// The routes after collecting, in order, those of the files that are
/// routes.
pub open spec fn collect_files(
    routes: Seq<(Seq<char>, RouteSpec)>,
    files: Seq<RouteFile>,
    base_path: Seq<char>,
) -> Seq<(Seq<char>, RouteSpec)>
    decreases files.len(),
{
    if files.len() == 0 {
        routes
    } else {
        let before = collect_files(routes, files.drop_last(), base_path);
        let f = files.last();
        if f.name@ == middleware_file_name() || !collects(f.extension@, f.stem@) {
            before
        } else {
            collected(before, f.path@, f.extension@, base_path)
        }
    }
}

/// The middlewares of a directory: those of its last `middlewares.rs`
/// file, none when it has none or it could not be read.
pub open spec fn dir_middlewares(files: Seq<RouteFile>) -> Seq<Seq<char>>
    decreases files.len(),
{
    if files.len() == 0 {
        Seq::empty()
    } else if files.last().name@ == middleware_file_name() {
        match files.last().middlewares {
            Some(m) => views(m@),
            None => Seq::empty(),
        }
    } else {
        dir_middlewares(files.drop_last())
    }
}

/// The routes after inserting `rs` in order.
pub open spec fn insert_routes(
    acc: Seq<(Seq<char>, RouteSpec)>,
    rs: Seq<(Seq<char>, RouteSpec)>,
) -> Seq<(Seq<char>, RouteSpec)>
    decreases rs.len(),
{
    if rs.len() == 0 {
        acc
    } else {
        insert_entry(insert_routes(acc, rs.drop_last()), rs.last().0, rs.last().1)
    }
}

/// The routes after inserting those of the directory and then, depth
/// first, those of its subdirectories in order.
pub open spec fn tree_routes(acc: Seq<(Seq<char>, RouteSpec)>, d: RouteDirectoryInfo) -> Seq<
    (Seq<char>, RouteSpec),
>
    decreases d, d.directories@.len() + 1,
{
    subtree_routes(insert_routes(acc, d.routes.entries()), d, d.directories@.len() as int)
}

/// The routes after inserting, depth first, those of the first `n`
/// subdirectories of `d`.
pub open spec fn subtree_routes(
    acc: Seq<(Seq<char>, RouteSpec)>,
    d: RouteDirectoryInfo,
    n: int,
) -> Seq<(Seq<char>, RouteSpec)>
    decreases d, n,
{
    if n <= 0 || n > d.directories@.len() {
        acc
    } else {
        proof {
            assert(decreases_to!(d => d.directories));
            assert(decreases_to!(d.directories => d.directories@));
            assert(decreases_to!(d.directories@ => d.directories@[n - 1]));
        }
        tree_routes(subtree_routes(acc, d, n - 1), d.directories@[n - 1])
    }
}

impl RouteDirectoryInfo {
    /// An empty directory at the empty path.
    pub fn default() -> (res: Self)
        ensures
            res.path@ == Seq::<char>::empty(),
            res.directories@.len() == 0,
            res.routes.entries().len() == 0,
            res.middlewares@.len() == 0,
    {
        RouteDirectoryInfo {
            path: String::new(),
            directories: Vec::new(),
            routes: StrMap::new(),
            middlewares: Vec::new(),
        }
    }

    /// The directory at `path`, with its subdirectories (already read) and
    /// the files found in it, in the order they were listed.
    pub fn new(path: String, directories: Vec<RouteDirectoryInfo>, files: &Vec<RouteFile>, base_path: &str) -> (res: Self)
        ensures
            res.path@ == path@,
            res.directories@ == directories@,
            res.routes.entries() == collect_files(Seq::empty(), files@, base_path@),
            views(res.middlewares@) == dir_middlewares(files@),
    {
        let mut routes: StrMap<Route> = StrMap::new();
        let mut middlewares: Vec<String> = Vec::new();
        let name = concat_str(MIDDLEWARE_FILENAME, ".rs");
        assert(files@.take(0) =~= Seq::<RouteFile>::empty());
        for i in 0..files.len()
            invariant
                name@ == middleware_file_name(),
                routes.entries() == collect_files(Seq::empty(), files@.take(i as int), base_path@),
                views(middlewares@) == dir_middlewares(files@.take(i as int)),
        {
            assert(files@.take(i + 1).drop_last() =~= files@.take(i as int));
            assert(files@.take(i + 1).last() == files@[i as int]);
            let f = &files[i];
            if str_eq(f.name.as_str(), name.as_str()) {
                middlewares = match &f.middlewares {
                    Some(m) => clone_strings(m),
                    None => Vec::new(),
                };
                assert(views(middlewares@) =~= dir_middlewares(files@.take(i + 1)));
            } else {
                if RouteDirectoryInfo::should_collect_route(f.extension.as_str(), f.stem.as_str()) {
                    routes = RouteDirectoryInfo::collect_route(f.path.as_str(), f.extension.as_str(), routes, base_path);
                }
            }
        }
        assert(files@.take(files@.len() as int) =~= files@);
        RouteDirectoryInfo { path, directories, routes, middlewares }
    }

    /// Whether the directory has middlewares.
    pub fn has_middlewares(&self) -> (res: bool)
        ensures
            res == (self.middlewares@.len() > 0),
    {
        self.middlewares.len() > 0
    }

    /// The name of the module that imports the directory's middlewares, for
    /// a project at `base_path`.
    pub fn get_middleware_module_import(&self, base_path: &str) -> (res: String)
        ensures
            res@ == middleware_module_import(self.path@, base_path@),
    {
        proof {
            reveal_strlit("/src/routes");
            reveal_strlit("/");
            reveal_strlit(".");
            reveal_strlit("-");
            reveal_strlit("");
            assert(""@ =~= Seq::<char>::empty());
        }
        let routes_path = concat_str(base_path, ROUTES_FOLDER_PATH);
        let s = replace_str(self.path.as_str(), routes_path.as_str(), "");
        let s = replace_first_str(s.as_str(), "/", "");
        let s = replace_str(s.as_str(), "/", "_");
        let s = replace_str(s.as_str(), ".", "_dot_");
        let s = replace_str(s.as_str(), "-", "_hyphen_");
        let mut module_import = to_lowercase(s.as_str());
        if !module_import.as_str().is_empty() {
            module_import.append("_");
        }
        module_import.append(MIDDLEWARE_FILENAME);
        module_import
    }

    /// Whether a file with this extension and stem is a route: style sheets
    /// and layouts are not.
    pub fn should_collect_route(extension: &str, stem: &str) -> (res: bool)
        ensures
            res == collects(extension@, stem@),
    {
        !(str_eq(extension, "css") || str_eq(extension, "scss") || str_eq(extension, "sass"))
            && !str_eq(stem, "__layout")
    }

    /// The routes after collecting the file at `entry`, whose extension is
    /// `extension`, for a project at `base_path`.
    pub fn collect_route(entry: &str, extension: &str, routes: StrMap<Route>, base_path: &str) -> (res: StrMap<Route>)
        ensures
            res.entries() == collected(routes.entries(), entry@, extension@, base_path@),
    {
        proof {
            reveal_strlit("/src/routes");
            reveal_strlit("\\");
            reveal_strlit(".rs");
            reveal_strlit(".mdx");
            reveal_strlit(".tsx");
            reveal_strlit("");
            assert(""@ =~= Seq::<char>::empty());
        }
        let mut routes = routes;
        let routes_path = concat_str(base_path, ROUTES_FOLDER_PATH);
        let path = replace_str(entry, routes_path.as_str(), "");
        let path = replace_str(path.as_str(), "\\", "/");
        let path = replace_str(path.as_str(), ".rs", "");
        let path = replace_str(path.as_str(), ".mdx", "");
        let path = replace_str(path.as_str(), ".tsx", "");
        let ghost key = path@;
        assert(key == route_key(entry@, base_path@));
        if str_eq(extension, "rs") {
            match routes.find(path.as_str()) {
                Some(i) => {
                    let mut route = copy_route(routes.value_at(i));
                    route.rust_handler = true;
                    routes.note_distinct();
                    proof {
                        crate::strmap::lemma_lookup_at(routes.entries(), i as int);
                    }
                    routes.set_value_at(i, route);
                },
                None => {
                    let mut route = Route::new(path.clone());
                    route.rust_handler = true;
                    routes.insert(path, route);
                },
            }
        } else {
            if !routes.contains_key(path.as_str()) {
                let route = Route::new(path.clone());
                routes.insert(path, route);
            }
        }
        routes
    }

    /// Inserts the routes of the directory and then, depth first, those of
    /// its subdirectories in order into `routes`.
    pub fn collect_routes_into(&self, routes: &mut StrMap<Route>)
        ensures
            final(routes).entries() == tree_routes(old(routes).entries(), *self),
        decreases self,
    {
        let ghost start = routes.entries();
        let own = &self.routes;
        let ghost es = own.entries();
        let n = own.len();
        assert(es.take(0) =~= Seq::<(Seq<char>, RouteSpec)>::empty());
        for i in 0..n
            invariant
                n == es.len(),
                es == own.entries(),
                routes.entries() == insert_routes(start, es.take(i as int)),
        {
            let key = own.key_at(i).clone();
            let route = copy_route(own.value_at(i));
            assert(es.take(i + 1).drop_last() =~= es.take(i as int));
            assert(es.take(i + 1).last() == (key@, route@));
            routes.insert(key, route);
        }
        assert(es.take(es.len() as int) =~= es);
        let ghost mid = routes.entries();
        let m = self.directories.len();
        for k in 0..m
            invariant
                m == self.directories@.len(),
                mid == insert_routes(start, self.routes.entries()),
                routes.entries() == subtree_routes(mid, *self, k as int),
        {
            proof {
                assert(decreases_to!(*self => self.directories));
                assert(decreases_to!(self.directories => self.directories@));
                assert(decreases_to!(self.directories@ => self.directories@[k as int]));
            }
            self.directories[k].collect_routes_into(routes);
        }
    }
}

} // verus!
