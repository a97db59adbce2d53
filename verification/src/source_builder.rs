//! The sources that the development and build commands generate: the Axum
//! router and entry point, the entry scripts, the TypeScript types and the
//! fallback page of the development server.
use vstd::prelude::*;
use crate::config::Config;
use crate::manifest::{has_dynamic_path, is_dynamic_path};
use crate::mode::{Mode, spec_mode_source};
use crate::route::{Route, RouteSpec};
use crate::strmap::{StrMap, keys_distinct};
use crate::text::{views, owned, str_eq, replace_str, replace_all, concat_all, concat_str, string_from_chars, contains_seq};
use crate::typescript::{lower_text, to_lowercase};
use crate::types_jar::{TypesJar, typescript_of};

verus! {

broadcast use vstd::string::group_string_axioms;

/// The router of the generated server, with its placeholders.
pub const AXUM_ROUTER: &'static str = "// File automatically generated
// Do not manually change it

use tuono_lib::{axum::Router, tuono_internal_init_v8_platform, Mode, Server};
use std::future::Future;

//AXUM_GET_ROUTE_HANDLER//

const MODE: Mode = //MODE//;

//MODULE_IMPORTS//

//APP_STATE_IMPORT//

pub async fn get_router<F, Fut>(f: F) -> Router
where
    //GET_ROUTER_SIGNATURE//
    Fut: Future<Output = Router>,
{
    //APP_STATE_DECLARATION//
    let router = Router::new()
    //ROUTE_BUILDER//;
    //GET_ROUTER_USAGE//
}

pub async fn init_server_with_router<F, Fut>(f: F) -> Server
where
    //GET_ROUTER_SIGNATURE//
    Fut: Future<Output = Router>,
{
    tuono_internal_init_v8_platform();
    let router = get_router(f).await;
    if MODE == Mode::Prod {
        println!(\"\\n  ⚡ Tuono v//VERSION//\");
    }
    Server::init(router, MODE).await
}



pub async fn init_server() -> Server {
    init_server_with_router(
        //APP_STATE_USAGE//
    ).await
}
";

/// The entry point of the generated server, used when the project has no
/// `main.rs` of its own.
pub const AXUM_ENTRY_POINT: &'static str = "// File automatically generated
// Do not manually change it

use tuono_lib::{Mode, Server, axum::Router, tokio, tuono_internal_init_v8_platform};
// AXUM_GET_ROUTE_HANDLER

/*MODE*/

// MODULE_IMPORTS

//MAIN_FILE_IMPORT//

#[tokio::main]
async fn main() {
    tuono_internal_init_v8_platform();

    if MODE == Mode::Prod {
        println!(\"\\n  ⚡ Tuono v/*VERSION*/\");
    }

    //MAIN_FILE_DEFINITION//

    // ROUTE_BUILDER
    //MAIN_FILE_USAGE//

    Server::init(router, MODE).await.start().await
}
";

/// The page that the development server answers with before the client
/// bundle takes over; `[BASE_URL]` stands for the server's address.
pub const FALLBACK_HTML: &'static str = "<!doctype html>
<html lang=\"en\">
  <head>
    <meta charset=\"UTF-8\" />
    <meta name=\"viewport\" content=\"width=device-width, initial-scale=1.0\" />
    <script type=\"module\">
      import RefreshRuntime from '[BASE_URL]/vite-server/@react-refresh'
      RefreshRuntime.injectIntoGlobalHook(window)
      window.$RefreshReg$ = () => {}
      window.$RefreshSig$ = () => (type) => type
      window.__vite_plugin_react_preamble_installed__ = true
    </script>
    <script type=\"module\" src=\"[BASE_URL]/vite-server/@vite/client\"></script>
  </head>
  <body>
    <div id=\"__tuono\"></div>
    <script type=\"module\" src=\"[BASE_URL]/vite-server/client-main.tsx\"></script>
  </body>
</html>
";

/// The entry script of the server-side rendering bundle.
pub const SERVER_ENTRY_DATA: &'static str = "import { serverSideRendering } from 'tuono/ssr'
import { routeTree } from './routeTree.gen'

export const renderFn = serverSideRendering(routeTree)
";

/// The entry script of the client bundle.
pub const CLIENT_ENTRY_DATA: &'static str = "import { hydrate } from 'tuono/hydration'
import { routeTree } from './routeTree.gen'

hydrate(routeTree)
";

/// Where the server-side rendering entry script goes.
pub const SERVER_ENTRY_PATH: &'static str = ".tuono/server-main.tsx";

/// Where the client entry script goes.
pub const CLIENT_ENTRY_PATH: &'static str = ".tuono/client-main.tsx";

/// Where the generated entry point goes.
pub const MAIN_FILE_PATH: &'static str = "./.tuono/main.rs";

/// Where the generated router goes.
pub const ROUTER_FILE_PATH: &'static str = "./.tuono/router.rs";

/// Where the fallback page goes.
pub const FALLBACK_HTML_PATH: &'static str = "./.tuono/index.html";

/// Where the generated TypeScript types go.
pub const TYPES_FILE_PATH: &'static str = ".tuono/types.ts";

/// The folder of the routes, relative to the project.
pub const ROUTE_FOLDER: &'static str = "src/routes";

/// The character of a decimal digit.
pub open spec fn digit_char(d: int) -> char {
    if d == 0 {
        '0'
    } else if d == 1 {
        '1'
    } else if d == 2 {
        '2'
    } else if d == 3 {
        '3'
    } else if d == 4 {
        '4'
    } else if d == 5 {
        '5'
    } else if d == 6 {
        '6'
    } else if d == 7 {
        '7'
    } else if d == 8 {
        '8'
    } else {
        '9'
    }
}

/// `n` written in decimal, without leading zeros.
pub open spec fn decimal(n: nat) -> Seq<char>
    decreases n,
{
    if n < 10 {
        seq![digit_char(n as int)]
    } else {
        decimal(n / 10).push(digit_char((n % 10) as int))
    }
}

/// The methods a route's handlers answer: `GET` for a page, its own
/// methods for an API; none before the route is mounted.
pub open spec fn route_methods(r: RouteSpec) -> Seq<Seq<char>> {
    match r.axum_info {
        None => Seq::empty(),
        Some(_) => match r.api_methods {
            None => seq!["GET"@],
            Some(m) => m,
        },
    }
}

/// `acc` followed by the lower-case names of those of `ms` that are not in
/// it yet, each once (so `get` and `GET` count as one method).
pub open spec fn add_unique(acc: Seq<Seq<char>>, ms: Seq<Seq<char>>) -> Seq<Seq<char>>
    decreases ms.len(),
{
    if ms.len() == 0 {
        acc
    } else {
        let a = add_unique(acc, ms.drop_last());
        let m = lower_text(ms.last());
        if a.contains(m) {
            a
        } else {
            a.push(m)
        }
    }
}

/// The lower-case names of the methods that the routes answer, each once,
/// in order of first use.
pub open spec fn used_methods(routes: Seq<(Seq<char>, RouteSpec)>) -> Seq<Seq<char>>
    decreases routes.len(),
{
    if routes.len() == 0 {
        Seq::empty()
    } else {
        add_unique(used_methods(routes.drop_last()), route_methods(routes.last().1))
    }
}

/// The router line of one method of an API route.
pub open spec fn api_route_declaration(axum_route: Seq<char>, module: Seq<char>, method: Seq<char>) -> Seq<char> {
    ".route(\""@ + axum_route + "\", "@ + method + "("@ + module + "::"@ + method
        + "_tuono_internal_api))"@
}

/// The router lines of an API route, one per method.
pub open spec fn api_lines(axum_route: Seq<char>, module: Seq<char>, methods: Seq<Seq<char>>) -> Seq<Seq<char>>
    decreases methods.len(),
{
    if methods.len() == 0 {
        Seq::empty()
    } else {
        api_lines(axum_route, module, methods.drop_last()).push(
            api_route_declaration(axum_route, module, lower_text(methods.last())),
        )
    }
}

/// The router lines of a route: a page answers on its path and on its data
/// path; an API answers each of its methods.
pub open spec fn route_declaration(r: RouteSpec) -> Seq<char> {
    match r.axum_info {
        None => Seq::empty(),
        Some((axum_route, module)) => match r.api_methods {
            None => ".route(\""@ + axum_route + "\", get("@ + module + "::tuono_internal_route))"@
                + ".route(\"/__tuono/data"@ + axum_route + "\", get("@ + module
                + "::tuono_internal_api))"@,
            Some(methods) => concat_all(api_lines(axum_route, module, methods)),
        },
    }
}

/// The router lines of all the routes, after a marker comment.
pub open spec fn routes_declaration(routes: Seq<(Seq<char>, RouteSpec)>) -> Seq<char> {
    "// ROUTE_BUILDER\n"@ + concat_all(
        routes.map_values(|e: (Seq<char>, RouteSpec)| route_declaration(e.1)),
    )
}

/// The module declaration of a mounted route's handler file.
pub open spec fn module_declaration(path: Seq<char>, r: RouteSpec) -> Seq<char> {
    match r.axum_info {
        None => Seq::empty(),
        Some((_, module)) => "#[path=\"../"@ + ROUTE_FOLDER@ + path
            + ".rs\"]\n                    mod "@ + module + ";\n                    "@,
    }
}

/// The module declarations of all the mounted routes, after a marker
/// comment.
pub open spec fn modules_declaration(routes: Seq<(Seq<char>, RouteSpec)>) -> Seq<char> {
    "// MODULE_IMPORTS\n"@ + concat_all(
        routes.map_values(|e: (Seq<char>, RouteSpec)| module_declaration(e.0, e.1)),
    )
}

/// The imports of the routing functions of the methods (by their lower-case
/// names).
pub open spec fn method_imports(methods: Seq<Seq<char>>) -> Seq<char> {
    concat_all(
        methods.map_values(|m: Seq<char>| "use tuono_lib::axum::routing::"@ + m + ";\n"@),
    )
}

/// What stands for `//APP_STATE_IMPORT//`.
pub open spec fn state_import(has_state: bool) -> Seq<char> {
    if has_state {
        "#[path=\"../src/app.rs\"]\n                        mod tuono_main_state;\n                        use tuono_main_state::ApplicationState;\n                        "@
    } else {
        Seq::empty()
    }
}

/// What stands for `//APP_STATE_DECLARATION//`.
pub open spec fn state_declaration(has_state: bool) -> Seq<char> {
    if has_state {
        "let user_custom_state = tuono_main_state::main();"@
    } else {
        Seq::empty()
    }
}

/// What stands for `//APP_STATE_USAGE//`.
pub open spec fn state_usage(has_state: bool) -> Seq<char> {
    if has_state {
        "|router, user_custom_state| async { router.with_state(user_custom_state) }"@
    } else {
        "|router| async { router }"@
    }
}

/// What stands for `//GET_ROUTER_SIGNATURE//`.
pub open spec fn router_signature(has_state: bool) -> Seq<char> {
    if has_state {
        "F: Fn(Router<ApplicationState>, ApplicationState) -> Fut,"@
    } else {
        "F: Fn(Router) -> Fut,"@
    }
}

/// The generated router: the template with its placeholders filled in, in
/// this order.
pub open spec fn router_source(
    routes: Seq<(Seq<char>, RouteSpec)>,
    has_state: bool,
    mode: Mode,
    version: Seq<char>,
) -> Seq<char> {
    let s = replace_all(AXUM_ROUTER@, "\r"@, Seq::empty());
    let s = replace_all(s, "//ROUTE_BUILDER//"@, routes_declaration(routes));
    let s = replace_all(s, "//MODULE_IMPORTS//"@, modules_declaration(routes));
    let s = replace_all(s, "//VERSION//"@, version);
    let s = replace_all(s, "//MODE//"@, spec_mode_source(mode));
    let s = replace_all(s, "//APP_STATE_IMPORT//"@, state_import(has_state));
    let s = replace_all(s, "//APP_STATE_DECLARATION//"@, state_declaration(has_state));
    let s = replace_all(s, "//APP_STATE_USAGE//"@, state_usage(has_state));
    let s = replace_all(s, "//GET_ROUTER_SIGNATURE//"@, router_signature(has_state));
    replace_all(s, "//AXUM_GET_ROUTE_HANDLER//"@, method_imports(used_methods(routes)))
}

/// The generated entry point, unless the project has its own: the template
/// with the imports of the routing functions the routes use.
pub open spec fn main_source(has_main: bool, routes: Seq<(Seq<char>, RouteSpec)>) -> Option<Seq<char>> {
    if has_main {
        None
    } else {
        Some(
            replace_all(
                replace_all(AXUM_ENTRY_POINT@, "\r"@, Seq::empty()),
                "// AXUM_GET_ROUTE_HANDLER"@,
                method_imports(used_methods(routes)),
            ),
        )
    }
}

/// The address of the development server: its origin, or
/// `http://host:port`.
pub open spec fn server_url(config: Config) -> Seq<char> {
    match config.server.origin {
        Some(o) => o@,
        None => "http://"@ + config.server.host@ + ":"@ + decimal(config.server.port as nat),
    }
}

/// The fallback page for the configuration: empty without one.
pub open spec fn fallback_page(config: Option<Config>) -> Seq<char> {
    match config {
        Some(c) => replace_all(FALLBACK_HTML@, "[BASE_URL]"@, server_url(c)),
        None => Seq::empty(),
    }
}

/// The files, each as its path and its contents.
pub open spec fn writes_view(ws: Seq<FileWrite>) -> Seq<(Seq<char>, Seq<char>)> {
    ws.map_values(|w: FileWrite| (w.path@, w.contents@))
}

/// The server sources to write: the entry point when one is generated, then
/// the router.
pub open spec fn axum_writes(main: Option<Seq<char>>, router: Seq<char>) -> Seq<(Seq<char>, Seq<char>)> {
    match main {
        Some(m) => seq![(MAIN_FILE_PATH@, m), (ROUTER_FILE_PATH@, router)],
        None => seq![(ROUTER_FILE_PATH@, router)],
    }
}

/// The digit `d < 10`.
fn digit_of(d: u16) -> (res: char)
    requires
        d < 10,
    ensures
        res == digit_char(d as int),
{
    if d == 0 {
        '0'
    } else if d == 1 {
        '1'
    } else if d == 2 {
        '2'
    } else if d == 3 {
        '3'
    } else if d == 4 {
        '4'
    } else if d == 5 {
        '5'
    } else if d == 6 {
        '6'
    } else if d == 7 {
        '7'
    } else if d == 8 {
        '8'
    } else {
        '9'
    }
}

/// `n` written in decimal.
pub fn decimal_string(n: u16) -> (res: String)
    ensures
        res@ == decimal(n as nat),
    decreases n,
{
    if n < 10 {
        let d = [digit_of(n)];
        let res = string_from_chars(&d);
        assert(res@ =~= seq![digit_char(n as int)]);
        res
    } else {
        let mut res = decimal_string(n / 10);
        let d = [digit_of(n % 10)];
        let tail = string_from_chars(&d);
        res.append(tail.as_str());
        assert(res@ =~= decimal((n / 10) as nat).push(digit_char((n % 10) as int)));
        res
    }
}

/// The application as the generators read it.
#[derive(Debug)]
pub struct App {
    /// The routes, by path.
    pub route_map: StrMap<Route>,
    /// The project has an application state (`src/app.rs`).
    pub has_app_state: bool,
    /// The project has an entry point of its own (`src/main.rs`).
    pub has_main: bool,
    /// The project's configuration, once read.
    pub config: Option<Config>,
}

impl App {
    /// An application with no routes, no state, no entry point and no
    /// configuration.
    pub fn new() -> (res: App)
        ensures
            res.route_map.entries().len() == 0,
            !res.has_app_state,
            !res.has_main,
            res.config is None,
    {
        App { route_map: StrMap::new(), has_app_state: false, has_main: false, config: None }
    }

    /// Whether some route's path has a dynamic segment.
    pub fn has_dynamic_routes(&self) -> (res: bool)
        ensures
            res == exists|i: int|
                0 <= i < self.route_map.entries().len() && #[trigger] is_dynamic_path(
                    self.route_map.entries()[i].0,
                ),
    {
        let n = self.route_map.len();
        for i in 0..n
            invariant
                n == self.route_map.entries().len(),
                forall|j: int| 0 <= j < i ==> !#[trigger] is_dynamic_path(self.route_map.entries()[j].0),
        {
            if has_dynamic_path(self.route_map.key_at(i).as_str()) {
                return true;
            }
        }
        false
    }

    /// The lower-case names of the methods that the routes answer, each
    /// once, in order of first use.
    pub fn get_used_http_methods(&self) -> (res: Vec<String>)
        ensures
            views(res@) == used_methods(self.route_map.entries()),
    {
        let routes = &self.route_map;
        let mut res: Vec<String> = Vec::new();
        proof {
            reveal_strlit("GET");
        }
        assert(routes.entries().take(0) =~= Seq::<(Seq<char>, RouteSpec)>::empty());
        let n = routes.len();
        for i in 0..n
            invariant
                n == routes.entries().len(),
                views(res@) == used_methods(routes.entries().take(i as int)),
        {
            let ghost prefix = routes.entries().take(i + 1);
            assert(prefix.drop_last() =~= routes.entries().take(i as int));
            assert(prefix.last() == routes.entries()[i as int]);
            let route = routes.value_at(i);
            match &route.axum_info {
                None => {
                    assert(route_methods(route@) =~= Seq::<Seq<char>>::empty());
                },
                Some(_) => {
                    let get = owned("GET");
                    let ms: Vec<String> = match &route.api_methods {
                        Some(m) => crate::text::clone_strings(m),
                        None => vec![get],
                    };
                    assert(views(ms@) == route_methods(route@)) by {
                        if route.api_methods is None {
                            assert(views(ms@) =~= seq!["GET"@]);
                        }
                    }
                    let ghost acc = views(res@);
                    assert(ms@.take(0) =~= Seq::<String>::empty());
                    assert(views(ms@.take(0)) =~= Seq::<Seq<char>>::empty());
                    for k in 0..ms.len()
                        invariant
                            views(res@) == add_unique(acc, views(ms@.take(k as int))),
                    {
                        assert(views(ms@.take(k + 1)).drop_last() =~= views(ms@.take(k as int)));
                        assert(views(ms@.take(k + 1)).last() == ms@[k as int]@);
                        let low = to_lowercase(ms[k].as_str());
                        if !crate::env::contains_name(&res, low.as_str()) {
                            let ghost before = res@;
                            let ghost lv = low@;
                            res.push(low);
                            assert(views(res@) =~= views(before).push(lv));
                        }
                    }
                    assert(ms@.take(ms@.len() as int) =~= ms@);
                },
            }
        }
        assert(routes.entries().take(routes.entries().len() as int) =~= routes.entries());
        res
    }
}

/// One file to write: its path and its contents.
pub struct FileWrite {
    pub path: String,
    pub contents: String,
}

/// What a build writes, and whether it then builds the project's
/// configuration.
pub struct BuildPlan {
    pub writes: Vec<FileWrite>,
    pub build_config: bool,
}

/// Builds the generated sources of a project.
#[derive(Debug)]
pub struct SourceBuilder {
    pub app: App,
    pub mode: Mode,
    /// The project's folder.
    pub base_path: String,
    pub types_jar: TypesJar,
}

impl SourceBuilder {
    /// A builder for the application `app`, in `mode`, of the project at
    /// `base_path`, whose types are in `types_jar`.
    pub fn new(app: App, mode: Mode, base_path: String, types_jar: TypesJar) -> (res: Self)
        ensures
            res.app == app,
            res.mode == mode,
            res.base_path == base_path,
            res.types_jar == types_jar,
    {
        SourceBuilder { app, mode, base_path, types_jar }
    }

    /// The router lines of all the routes.
    pub fn create_routes_declaration(&self) -> (res: String)
        ensures
            res@ == routes_declaration(self.app.route_map.entries()),
    {
        let routes = &self.app.route_map;
        let ghost es = routes.entries();
        let mut body = String::new();
        let n = routes.len();
        assert(es.take(0).map_values(|e: (Seq<char>, RouteSpec)| route_declaration(e.1)) =~= Seq::<Seq<char>>::empty());
        for i in 0..n
            invariant
                n == es.len(),
                es == routes.entries(),
                body@ == concat_all(es.take(i as int).map_values(|e: (Seq<char>, RouteSpec)| route_declaration(e.1))),
        {
            let ghost before = body@;
            let route = routes.value_at(i);
            let ghost r = route@;
            assert(r == es[i as int].1);
            match &route.axum_info {
                None => {
                    assert(route_declaration(r) =~= Seq::<char>::empty());
                },
                Some(info) => {
                    let axum_route = info.axum_route.as_str();
                    let module = info.module_import.as_str();
                    match &route.api_methods {
                        None => {
                            body.append(".route(\"");
                            body.append(axum_route);
                            body.append("\", get(");
                            body.append(module);
                            body.append("::tuono_internal_route))");
                            body.append(".route(\"/__tuono/data");
                            body.append(axum_route);
                            body.append("\", get(");
                            body.append(module);
                            body.append("::tuono_internal_api))");
                            assert(body@ =~= before + route_declaration(r));
                        },
                        Some(methods) => {
                            let ghost ms = views(methods@);
                            let ghost ar = info.axum_route@;
                            let ghost md = info.module_import@;
                            assert(ms.take(0) =~= Seq::<Seq<char>>::empty());
                            assert(before + concat_all(api_lines(ar, md, ms.take(0))) =~= before);
                            for k in 0..methods.len()
                                invariant
                                    ms == views(methods@),
                                    ar == axum_route@,
                                    md == module@,
                                    body@ == before + concat_all(api_lines(ar, md, ms.take(k as int))),
                            {
                                let ghost b2 = body@;
                                let method = to_lowercase(methods[k].as_str());
                                body.append(".route(\"");
                                body.append(axum_route);
                                body.append("\", ");
                                body.append(method.as_str());
                                body.append("(");
                                body.append(module);
                                body.append("::");
                                body.append(method.as_str());
                                body.append("_tuono_internal_api))");
                                proof {
                                    assert(ms.take(k + 1).drop_last() =~= ms.take(k as int));
                                    assert(ms.take(k + 1).last() == ms[k as int]);
                                    assert(ms[k as int] == methods@[k as int]@);
                                    let lines = api_lines(ar, md, ms.take(k as int));
                                    let line = api_route_declaration(ar, md, lower_text(ms[k as int]));
                                    assert(api_lines(ar, md, ms.take(k + 1)) == lines.push(line));
                                    assert(lines.push(line).drop_last() =~= lines);
                                    assert(body@ =~= b2 + api_route_declaration(ar, md, lower_text(ms[k as int])));
                                }
                            }
                            assert(ms.take(ms.len() as int) =~= ms);
                        },
                    }
                },
            }
            proof {
                let t = es.take(i + 1).map_values(|e: (Seq<char>, RouteSpec)| route_declaration(e.1));
                assert(t.drop_last() =~= es.take(i as int).map_values(|e: (Seq<char>, RouteSpec)| route_declaration(e.1)));
                assert(t.last() == route_declaration(r));
            }
        }
        assert(es.take(es.len() as int) =~= es);
        let mut res = owned("// ROUTE_BUILDER\n");
        res.append(body.as_str());
        res
    }

    /// The module declarations of the mounted routes' handler files.
    pub fn create_modules_declaration(&self) -> (res: String)
        ensures
            res@ == modules_declaration(self.app.route_map.entries()),
    {
        let routes = &self.app.route_map;
        let ghost es = routes.entries();
        let mut body = String::new();
        let n = routes.len();
        assert(es.take(0).map_values(|e: (Seq<char>, RouteSpec)| module_declaration(e.0, e.1)) =~= Seq::<Seq<char>>::empty());
        for i in 0..n
            invariant
                n == es.len(),
                es == routes.entries(),
                body@ == concat_all(es.take(i as int).map_values(|e: (Seq<char>, RouteSpec)| module_declaration(e.0, e.1))),
        {
            let ghost before = body@;
            let route = routes.value_at(i);
            let path = routes.key_at(i);
            let ghost r = route@;
            assert(r == es[i as int].1 && path@ == es[i as int].0);
            match &route.axum_info {
                None => {
                    assert(module_declaration(path@, r) =~= Seq::<char>::empty());
                },
                Some(info) => {
                    body.append("#[path=\"../");
                    body.append(ROUTE_FOLDER);
                    body.append(path.as_str());
                    body.append(".rs\"]\n                    mod ");
                    body.append(info.module_import.as_str());
                    body.append(";\n                    ");
                    assert(body@ =~= before + module_declaration(path@, r));
                },
            }
            proof {
                let t = es.take(i + 1).map_values(|e: (Seq<char>, RouteSpec)| module_declaration(e.0, e.1));
                assert(t.drop_last() =~= es.take(i as int).map_values(|e: (Seq<char>, RouteSpec)| module_declaration(e.0, e.1)));
                assert(t.last() == module_declaration(path@, r));
            }
        }
        assert(es.take(es.len() as int) =~= es);
        let mut res = owned("// MODULE_IMPORTS\n");
        res.append(body.as_str());
        res
    }

    /// The generated entry point (unless the project has its own) and the
    /// generated router, for version `version` of the framework.
    pub fn generate_axum_source(&self, version: &str) -> (res: (Option<String>, String))
        ensures
            match res.0 {
                Some(m) => main_source(self.app.has_main, self.app.route_map.entries()) == Some(m@),
                None => main_source(self.app.has_main, self.app.route_map.entries()) is None,
            },
            res.1@ == router_source(self.app.route_map.entries(), self.app.has_app_state, self.mode, version@),
    {
        proof {
            reveal_strlit("\r");
            reveal_strlit("");
            assert(""@ =~= Seq::<char>::empty());
            reveal_strlit("//ROUTE_BUILDER//");
            reveal_strlit("//MODULE_IMPORTS//");
            reveal_strlit("//VERSION//");
            reveal_strlit("//MODE//");
            reveal_strlit("//APP_STATE_IMPORT//");
            reveal_strlit("//APP_STATE_DECLARATION//");
            reveal_strlit("//APP_STATE_USAGE//");
            reveal_strlit("//GET_ROUTER_SIGNATURE//");
            reveal_strlit("//AXUM_GET_ROUTE_HANDLER//");
            reveal_strlit("// AXUM_GET_ROUTE_HANDLER");
        }
        let has_state = self.app.has_app_state;
        let routes_decl = self.create_routes_declaration();
        let modules_decl = self.create_modules_declaration();
        let s = replace_str(AXUM_ROUTER, "\r", "");
        let s = replace_str(s.as_str(), "//ROUTE_BUILDER//", routes_decl.as_str());
        let s = replace_str(s.as_str(), "//MODULE_IMPORTS//", modules_decl.as_str());
        let s = replace_str(s.as_str(), "//VERSION//", version);
        let s = replace_str(s.as_str(), "//MODE//", self.mode.as_str());
        let state_import_src = if has_state {
            "#[path=\"../src/app.rs\"]\n                        mod tuono_main_state;\n                        use tuono_main_state::ApplicationState;\n                        "
        } else {
            ""
        };
        let s = replace_str(s.as_str(), "//APP_STATE_IMPORT//", state_import_src);
        let state_declaration_src = if has_state {
            "let user_custom_state = tuono_main_state::main();"
        } else {
            ""
        };
        let s = replace_str(s.as_str(), "//APP_STATE_DECLARATION//", state_declaration_src);
        let state_usage_src = if has_state {
            "|router, user_custom_state| async { router.with_state(user_custom_state) }"
        } else {
            "|router| async { router }"
        };
        let s = replace_str(s.as_str(), "//APP_STATE_USAGE//", state_usage_src);
        let signature_src = if has_state {
            "F: Fn(Router<ApplicationState>, ApplicationState) -> Fut,"
        } else {
            "F: Fn(Router) -> Fut,"
        };
        let router_src = replace_str(s.as_str(), "//GET_ROUTER_SIGNATURE//", signature_src);
        let methods = self.app.get_used_http_methods();
        let mut imports = String::new();
        let ghost ms = views(methods@);
        let ghost f = |m: Seq<char>| "use tuono_lib::axum::routing::"@ + m + ";\n"@;
        assert(ms.take(0).map_values(f) =~= Seq::<Seq<char>>::empty());
        for k in 0..methods.len()
            invariant
                ms == views(methods@),
                f == (|m: Seq<char>| "use tuono_lib::axum::routing::"@ + m + ";\n"@),
                imports@ == concat_all(ms.take(k as int).map_values(f)),
        {
            let ghost before = imports@;
            imports.append("use tuono_lib::axum::routing::");
            imports.append(methods[k].as_str());
            imports.append(";\n");
            proof {
                let t = ms.take(k + 1).map_values(f);
                assert(t.drop_last() =~= ms.take(k as int).map_values(f));
                assert(ms[k as int] == methods@[k as int]@);
                assert(t.last() == f(ms[k as int]));
                assert(imports@ =~= before + f(ms[k as int]));
            }
        }
        assert(ms.take(ms.len() as int) =~= ms);
        let router_src = replace_str(router_src.as_str(), "//AXUM_GET_ROUTE_HANDLER//", imports.as_str());
        let main_src = if !self.app.has_main {
            let entry = replace_str(AXUM_ENTRY_POINT, "\r", "");
            Some(replace_str(entry.as_str(), "// AXUM_GET_ROUTE_HANDLER", imports.as_str()))
        } else {
            None
        };
        (main_src, router_src)
    }

    /// The fallback page of the development server, pointing at the
    /// server's address; empty without a configuration.
    pub fn build_html_fallback(&self) -> (res: String)
        ensures
            res@ == fallback_page(self.app.config),
    {
        proof {
            reveal_strlit("[BASE_URL]");
        }
        match &self.app.config {
            Some(config) => match &config.server.origin {
                Some(origin) => replace_str(FALLBACK_HTML, "[BASE_URL]", origin.as_str()),
                None => {
                    let mut url = owned("http://");
                    url.append(config.server.host.as_str());
                    url.append(":");
                    let port = decimal_string(config.server.port);
                    url.append(port.as_str());
                    replace_str(FALLBACK_HTML, "[BASE_URL]", url.as_str())
                },
            },
            None => String::new(),
        }
    }

    /// The server sources to write, for version `version` of the framework.
    pub fn refresh_axum_source(&self, version: &str) -> (res: Vec<FileWrite>)
        ensures
            writes_view(res@) == axum_writes(
                main_source(self.app.has_main, self.app.route_map.entries()),
                router_source(self.app.route_map.entries(), self.app.has_app_state, self.mode, version@),
            ),
    {
        let (main_src, router_src) = self.generate_axum_source(version);
        let mut res: Vec<FileWrite> = Vec::new();
        match main_src {
            Some(m) => res.push(FileWrite { path: owned(MAIN_FILE_PATH), contents: m }),
            None => {},
        }
        res.push(FileWrite { path: owned(ROUTER_FILE_PATH), contents: router_src });
        assert(writes_view(res@) =~= axum_writes(
            main_source(self.app.has_main, self.app.route_map.entries()),
            router_source(self.app.route_map.entries(), self.app.has_app_state, self.mode, version@),
        ));
        res
    }

    /// The TypeScript types file to write.
    pub fn generate_typescript_file(&self) -> (res: FileWrite)
        ensures
            res.path@ == TYPES_FILE_PATH@,
            res.contents@ == typescript_of(self.types_jar@),
    {
        FileWrite { path: owned(TYPES_FILE_PATH), contents: self.types_jar.generate_typescript() }
    }

    /// Takes in the types of the file at `path`, whose contents are
    /// `contents`.
    pub fn refresh_typescript_file(&mut self, path: String, contents: &str)
        ensures
            final(self).app == old(self).app,
            final(self).mode == old(self).mode,
            final(self).base_path == old(self).base_path,
            !contains_seq(contents@, crate::types_jar::TUONO_MACRO_TRAIT_NAME@) ==> final(self).types_jar@ == old(self).types_jar@,
            contains_seq(contents@, crate::types_jar::TUONO_MACRO_TRAIT_NAME@) ==> final(self).types_jar@
                == crate::types_jar::refreshed(
                old(self).types_jar@,
                crate::file_types::types_result(path@, crate::syntax::source_items(contents@)),
            ),
            final(self).types_jar@ == old(self).types_jar@ || exists|ft: crate::file_types::FileTypesSpec, items: Seq<crate::syntax::ItemModel>|
                #![trigger crate::file_types::read_from(items, ft)]
                ft.path == path@ && crate::file_types::read_from(items, ft) && final(self).types_jar@ == crate::types_jar::without_path(
                    old(self).types_jar@,
                    path@,
                ).push(ft),
    {
        self.types_jar.refresh_file(path, contents);
    }

    /// Drops the types of the file at `path`.
    pub fn remove_typescript_file(&mut self, path: &str)
        ensures
            final(self).app == old(self).app,
            final(self).mode == old(self).mode,
            final(self).base_path == old(self).base_path,
            final(self).types_jar@ == crate::types_jar::without_path(old(self).types_jar@, path@),
    {
        self.types_jar.remove_file(path);
    }

    /// What a build does before the configuration is built: it writes the
    /// server sources, the two entry scripts and the TypeScript types, in
    /// this order; in development the configuration is built next (then
    /// `fallback_write` gives the fallback page, from the built
    /// configuration).
    pub fn base_build(&self, version: &str) -> (res: BuildPlan)
        ensures
            writes_view(res.writes@) == axum_writes(
                main_source(self.app.has_main, self.app.route_map.entries()),
                router_source(self.app.route_map.entries(), self.app.has_app_state, self.mode, version@),
            ) + seq![
                (SERVER_ENTRY_PATH@, SERVER_ENTRY_DATA@),
                (CLIENT_ENTRY_PATH@, CLIENT_ENTRY_DATA@),
                (TYPES_FILE_PATH@, typescript_of(self.types_jar@)),
            ],
            res.build_config == (self.mode == Mode::Dev),
    {
        let mut res = self.refresh_axum_source(version);
        let ghost axum = writes_view(res@);
        res.push(FileWrite { path: owned(SERVER_ENTRY_PATH), contents: owned(SERVER_ENTRY_DATA) });
        res.push(FileWrite { path: owned(CLIENT_ENTRY_PATH), contents: owned(CLIENT_ENTRY_DATA) });
        res.push(self.generate_typescript_file());
        assert(writes_view(res@) =~= axum + seq![
            (SERVER_ENTRY_PATH@, SERVER_ENTRY_DATA@),
            (CLIENT_ENTRY_PATH@, CLIENT_ENTRY_DATA@),
            (TYPES_FILE_PATH@, typescript_of(self.types_jar@)),
        ]);
        BuildPlan { writes: res, build_config: self.mode == Mode::Dev }
    }

    /// The fallback page to write after the configuration was built: in
    /// development only.
    pub fn fallback_write(&self) -> (res: Option<FileWrite>)
        ensures
            self.mode == Mode::Dev ==> (res matches Some(w) && w.path@ == FALLBACK_HTML_PATH@
                && w.contents@ == fallback_page(self.app.config)),
            self.mode == Mode::Prod ==> res is None,
    {
        if self.mode == Mode::Dev {
            Some(FileWrite { path: owned(FALLBACK_HTML_PATH), contents: self.build_html_fallback() })
        } else {
            None
        }
    }
}

} // verus!
