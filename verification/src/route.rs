//! A route of the application, as the source generators read it.
use vstd::prelude::*;
use crate::text::{views, owned, str_eq, replace_all, replace_first, replace_str, replace_first_str, occurs_at, occurs_at_exec, chars_of, string_from_chars, trim, trim_str};
use crate::typescript::{lower_text, upper_text, to_lowercase, to_uppercase};

verus! {

/// Where the server mounts a route's handler.
#[derive(Debug)]
pub struct AxumInfo {
    /// The path the router answers on.
    pub axum_route: String,
    /// The name of the module that holds the handler.
    pub module_import: String,
}

/// A route: a file under the routes folder.
#[derive(Debug)]
pub struct Route {
    /// The route path, relative to the routes folder, without extension.
    pub path: String,
    /// A Rust file handles the route on the server.
    pub rust_handler: bool,
    /// Where the server mounts the handler, once known.
    pub axum_info: Option<AxumInfo>,
    /// For an API route, the HTTP methods it answers (upper case, as
    /// `GET`).
    pub api_methods: Option<Vec<String>>,
}

/// A route as plain values.
pub struct RouteSpec {
    pub path: Seq<char>,
    pub rust_handler: bool,
    pub axum_info: Option<(Seq<char>, Seq<char>)>,
    pub api_methods: Option<Seq<Seq<char>>>,
}

impl View for Route {
    type V = RouteSpec;

    open spec fn view(&self) -> RouteSpec {
        RouteSpec {
            path: self.path@,
            rust_handler: self.rust_handler,
            axum_info: match self.axum_info {
                Some(a) => Some((a.axum_route@, a.module_import@)),
                None => None,
            },
            api_methods: match self.api_methods {
                Some(m) => Some(views(m@)),
                None => None,
            },
        }
    }
}

/// A route freshly found at `path`: no handler, no mount, no API methods.
pub open spec fn new_route(path: Seq<char>) -> RouteSpec {
    RouteSpec { path, rust_handler: false, axum_info: None, api_methods: None }
}

impl Route {
    /// A route freshly found at `path`.
    pub fn new(path: String) -> (res: Route)
        ensures
            res@ == new_route(path@),
    {
        Route { path, rust_handler: false, axum_info: None, api_methods: None }
    }

    /// Whether the route answers API methods.
    pub fn is_api(&self) -> (res: bool)
        ensures
            res == self@.api_methods is Some,
    {
        self.api_methods.is_some()
    }
}

/// What opens the declaration of an API handler: `#[tuono_lib::api(METHOD)]`.
pub const API_ATTRIBUTE_PREFIX: &'static str = "#[tuono_lib::api(";

/// The path the router answers a route on: `/index` is the root and an
/// `/index` segment is dropped; `[...name]` catches the rest of the path
/// (`{*name}`) and `[name]` is a parameter (`{name}`).
pub open spec fn axum_route_of(path: Seq<char>) -> Seq<char> {
    let p = if path == "/index"@ {
        "/"@
    } else {
        replace_all(path, "/index"@, Seq::empty())
    };
    let p = replace_all(p, "[..."@, "{*"@);
    let p = replace_all(p, "["@, "{"@);
    replace_all(p, "]"@, "}"@)
}

/// The name of the module of a route's handler: the path without its
/// leading `/`, `/` as `_`, `[...` as `dyn_catch_all_`, `[` as `dyn_`,
/// without `]`, `.` and `-` spelled out, in lower case.
pub open spec fn module_import_of(path: Seq<char>) -> Seq<char> {
    let s = replace_first(path, "/"@, Seq::empty());
    let s = replace_all(s, "/"@, "_"@);
    let s = replace_all(s, "[..."@, "dyn_catch_all_"@);
    let s = replace_all(s, "["@, "dyn_"@);
    let s = replace_all(s, "]"@, Seq::empty());
    let s = replace_all(s, "."@, "_dot_"@);
    let s = replace_all(s, "-"@, "_hyphen_"@);
    lower_text(s)
}

/// The first position from `j` on that holds `c`, or -1.
pub open spec fn index_from(s: Seq<char>, c: char, j: int) -> int
    decreases s.len() - j,
{
    if j < 0 || j >= s.len() {
        -1
    } else if s[j] == c {
        j
    } else {
        index_from(s, c, j + 1)
    }
}

pub proof fn lemma_index_from(s: Seq<char>, c: char, j: int)
    ensures
        index_from(s, c, j) == -1 || (0 <= j <= index_from(s, c, j) < s.len() && s[index_from(s, c, j)] == c),
        index_from(s, c, j) >= 0 ==> forall|k: int| j <= k < index_from(s, c, j) ==> s[k] != c,
        index_from(s, c, j) == -1 ==> forall|k: int| 0 <= j <= k < s.len() ==> s[k] != c,
    decreases s.len() - j,
{
    if 0 <= j < s.len() && s[j] != c {
        lemma_index_from(s, c, j + 1);
    }
}

/// The methods named by the API handler declarations from position `i` on,
/// in order: the text between `#[tuono_lib::api(` and the next `)`, trimmed.
pub open spec fn api_names_from(s: Seq<char>, i: int) -> Seq<Seq<char>>
    decreases s.len() - i,
{
    if i < 0 || i >= s.len() {
        Seq::empty()
    } else if occurs_at(s, API_ATTRIBUTE_PREFIX@, i) {
        let start = i + API_ATTRIBUTE_PREFIX@.len();
        let close = index_from(s, ')', start);
        if close < 0 {
            Seq::empty()
        } else {
            proof {
                lemma_index_from(s, ')', start);
            }
            seq![trim(s.subrange(start, close))] + api_names_from(s, close + 1)
        }
    } else {
        api_names_from(s, i + 1)
    }
}

/// The upper-case names, each once, in order of first appearance.
pub open spec fn unique_upper(names: Seq<Seq<char>>) -> Seq<Seq<char>>
    decreases names.len(),
{
    if names.len() == 0 {
        Seq::empty()
    } else {
        let a = unique_upper(names.drop_last());
        let m = upper_text(names.last());
        if a.contains(m) {
            a
        } else {
            a.push(m)
        }
    }
}

/// The HTTP methods that a handler file declares, in upper case, each once.
pub open spec fn api_methods_of(source: Seq<char>) -> Seq<Seq<char>> {
    unique_upper(api_names_from(source, 0))
}

/// A route once its handler is known: mounted at its axum route under its
/// module's name, an API when its file declares methods.
pub open spec fn mounted(r: RouteSpec, source: Option<Seq<char>>) -> RouteSpec {
    RouteSpec {
        path: r.path,
        rust_handler: r.rust_handler,
        axum_info: Some((axum_route_of(r.path), module_import_of(r.path))),
        api_methods: match source {
            Some(src) => if api_methods_of(src).len() > 0 {
                Some(api_methods_of(src))
            } else {
                None
            },
            None => None,
        },
    }
}

/// Where the router mounts the route at `path`.
pub fn axum_info_of(path: &str) -> (res: AxumInfo)
    ensures
        res.axum_route@ == axum_route_of(path@),
        res.module_import@ == module_import_of(path@),
{
    proof {
        reveal_strlit("/index");
        reveal_strlit("[...");
        reveal_strlit("[");
        reveal_strlit("]");
        reveal_strlit("/");
        reveal_strlit(".");
        reveal_strlit("-");
        reveal_strlit("");
        assert(""@ =~= Seq::<char>::empty());
    }
    let p = if str_eq(path, "/index") {
        owned("/")
    } else {
        replace_str(path, "/index", "")
    };
    let p = replace_str(p.as_str(), "[...", "{*");
    let p = replace_str(p.as_str(), "[", "{");
    let axum_route = replace_str(p.as_str(), "]", "}");
    let m = replace_first_str(path, "/", "");
    let m = replace_str(m.as_str(), "/", "_");
    let m = replace_str(m.as_str(), "[...", "dyn_catch_all_");
    let m = replace_str(m.as_str(), "[", "dyn_");
    let m = replace_str(m.as_str(), "]", "");
    let m = replace_str(m.as_str(), ".", "_dot_");
    let m = replace_str(m.as_str(), "-", "_hyphen_");
    let module_import = to_lowercase(m.as_str());
    AxumInfo { axum_route, module_import }
}

/// The HTTP methods that a handler file declares with
/// `#[tuono_lib::api(METHOD)]`, in upper case, each once, in order.
pub fn api_methods(source: &str) -> (res: Vec<String>)
    ensures
        views(res@) == api_methods_of(source@),
{
    proof {
        reveal_strlit("#[tuono_lib::api(");
    }
    let s = chars_of(source);
    let p = chars_of(API_ATTRIBUTE_PREFIX);
    let plen = p.len();
    let n = s.len();
    let mut res: Vec<String> = Vec::new();
    let ghost mut found: Seq<Seq<char>> = Seq::empty();
    let mut i: usize = 0;
    while i < n
        invariant
            n == s@.len(),
            s@ == source@,
            p@ == API_ATTRIBUTE_PREFIX@,
            plen == p@.len(),
            plen == 17,
            i <= n,
            api_names_from(s@, 0) == found + api_names_from(s@, i as int),
            views(res@) == unique_upper(found),
        ensures
            api_names_from(s@, 0) == found,
            views(res@) == unique_upper(found),
        decreases n - i,
    {
        if occurs_at_exec(&s, &p, i) {
            let start = i + plen;
            let mut j = start;
            while j < n && s[j] != ')'
                invariant
                    start <= j <= n,
                    n == s@.len(),
                    forall|k: int| start <= k < j ==> s@[k] != ')',
                decreases n - j,
            {
                j = j + 1;
            }
            proof {
                lemma_index_from(s@, ')', start as int);
                if j < n {
                    assert(index_from(s@, ')', start as int) == j) by {
                        let r = index_from(s@, ')', start as int);
                        if r != j as int {
                            assert(r == -1 || r < j);
                        }
                    }
                } else {
                    assert(index_from(s@, ')', start as int) == -1) by {
                        let r = index_from(s@, ')', start as int);
                        if r >= 0 {
                            assert(s@[r] == ')');
                        }
                    }
                }
            }
            if j >= n {
                assert(api_names_from(s@, i as int) =~= Seq::<Seq<char>>::empty());
                assert(found + api_names_from(s@, i as int) =~= found);
                break;
            }
            let mut inner: Vec<char> = Vec::new();
            let mut k = start;
            while k < j
                invariant
                    start <= k <= j,
                    j < n,
                    n == s@.len(),
                    inner@ == s@.subrange(start as int, k as int),
                decreases j - k,
            {
                inner.push(s[k]);
                assert(inner@ =~= s@.subrange(start as int, k + 1));
                k = k + 1;
            }
            let raw = string_from_chars(inner.as_slice());
            let name = trim_str(raw.as_str());
            let upper = to_uppercase(name.as_str());
            let ghost before = found;
            proof {
                found = found.push(name@);
                assert(api_names_from(s@, i as int) == seq![name@] + api_names_from(s@, j + 1));
                assert(before + api_names_from(s@, i as int) =~= found + api_names_from(s@, j + 1));
                assert(found.drop_last() =~= before);
            }
            if !crate::env::contains_name(&res, upper.as_str()) {
                let ghost rv = views(res@);
                let ghost uv = upper@;
                res.push(upper);
                assert(views(res@) =~= rv.push(uv));
            }
            i = j + 1;
        } else {
            i = i + 1;
        }
        proof {
            if i >= n {
                assert(api_names_from(s@, i as int) =~= Seq::<Seq<char>>::empty());
                assert(found + api_names_from(s@, i as int) =~= found);
            }
        }
    }
    res
}

impl Route {
    /// Mounts the route: at its axum route under its module's name, with
    /// the API methods that its handler file (`source`, when it was read)
    /// declares.
    pub fn update_axum_info(&mut self, source: Option<&str>)
        ensures
            final(self)@ == mounted(old(self)@, match source {
                Some(s) => Some(s@),
                None => None,
            }),
    {
        self.axum_info = Some(axum_info_of(self.path.as_str()));
        self.api_methods = match source {
            Some(src) => {
                let m = api_methods(src);
                if m.len() > 0 {
                    Some(m)
                } else {
                    None
                }
            },
            None => None,
        };
    }
}

} // verus!
