use tuono::config::{Config, ServerConfig};
use tuono::mode::Mode;
use tuono::process_manager::{server_base_url, start_dev_processes, ProcessId, StartStep};
use tuono::route::{AxumInfo, Route};
use tuono::source_builder::{decimal_string, App, SourceBuilder, FALLBACK_HTML_PATH, ROUTER_FILE_PATH, MAIN_FILE_PATH};
use tuono::types_jar::TypesJar;

fn builder(app: App, mode: Mode) -> SourceBuilder {
    SourceBuilder {
        app,
        mode,
        base_path: String::new(),
        types_jar: TypesJar::new(),
    }
}

/// A route mounted at `axum_route`, handled by `module`.
fn mounted(path: &str, axum_route: &str, module: &str, api_methods: Option<Vec<&str>>) -> Route {
    let mut route = Route::new(path.to_string());
    route.rust_handler = true;
    route.axum_info = Some(AxumInfo {
        axum_route: axum_route.to_string(),
        module_import: module.to_string(),
    });
    route.api_methods = api_methods.map(|m| m.iter().map(|s| s.to_string()).collect());
    route
}

#[test]
fn should_set_the_correct_mode() {
    let (_, dev_bundle) = builder(App::new(), Mode::Dev).generate_axum_source("0.1.0");

    let (_, prod_bundle) = builder(App::new(), Mode::Prod).generate_axum_source("0.1.0");

    assert!(dev_bundle.contains("const MODE: Mode = Mode::Dev;"));
    assert!(prod_bundle.contains("const MODE: Mode = Mode::Prod;"));
}

#[test]
fn should_not_load_the_axum_get_function() {
    let (_, dev_bundle) = builder(App::new(), Mode::Dev).generate_axum_source("0.1.0");

    assert!(!dev_bundle.contains("use tuono_lib::axum::routing::get;"));
}

#[test]
fn should_load_the_axum_get_function() {
    let mut source_builder = builder(App::new(), Mode::Dev);

    let route = mounted("/index", "/", "index", None);

    source_builder
        .app
        .route_map
        .insert(String::from("index.rs"), route);

    let (_, dev_bundle) = source_builder.generate_axum_source("0.1.0");

    assert!(dev_bundle.contains("use tuono_lib::axum::routing::get;"));
}

#[test]
fn should_create_fallback_html_with_default_config() {
    let mut app = App::new();
    app.config = Some(Default::default());

    let source_builder = builder(app, Mode::Dev);

    let fallback_html = source_builder.build_html_fallback();

    assert!(fallback_html.contains("http://localhost:3000/vite-server/@react-refresh"));
    assert!(fallback_html.contains("http://localhost:3000/vite-server/@vite/client"));
    assert!(fallback_html.contains("http://localhost:3000/vite-server/client-main.tsx"));
}

#[test]
fn test_config_default() {
    let config = Config::default();

    assert_eq!(config.server.host, "localhost".to_string());
    assert_eq!(config.server.origin, None);
    assert_eq!(config.server.port, 3000);
}

#[test]
fn the_fallback_page_prefers_the_origin() {
    let mut app = App::new();
    app.config = Some(Config {
        server: ServerConfig {
            host: "0.0.0.0".to_string(),
            origin: Some("https://example.com".to_string()),
            port: 8080,
        },
    });
    let page = builder(app, Mode::Dev).build_html_fallback();
    assert!(page.contains("https://example.com/vite-server/@vite/client"));
    assert!(!page.contains("[BASE_URL]"));

    assert_eq!(builder(App::new(), Mode::Dev).build_html_fallback(), "");
}

#[test]
fn the_router_declares_pages_and_apis() {
    let mut app = App::new();
    app.route_map
        .insert("/about".to_string(), mounted("/about", "/about", "about", None));
    app.route_map.insert(
        "/api/user".to_string(),
        mounted("/api/user", "/api/user", "api_user", Some(vec!["GET", "POST"])),
    );
    app.route_map
        .insert("/pending".to_string(), Route::new("/pending".to_string()));
    let source_builder = builder(app, Mode::Prod);

    assert_eq!(
        source_builder.create_routes_declaration(),
        "// ROUTE_BUILDER\n.route(\"/about\", get(about::tuono_internal_route)).route(\"/__tuono/data/about\", get(about::tuono_internal_api)).route(\"/api/user\", get(api_user::get_tuono_internal_api)).route(\"/api/user\", post(api_user::post_tuono_internal_api))"
    );
    assert_eq!(
        source_builder.create_modules_declaration(),
        "// MODULE_IMPORTS\n#[path=\"../src/routes/about.rs\"]\n                    mod about;\n                    #[path=\"../src/routes/api/user.rs\"]\n                    mod api_user;\n                    "
    );
    let methods = source_builder.app.get_used_http_methods();
    assert_eq!(methods, vec!["get", "post"]);

    let (main, router) = source_builder.generate_axum_source("1.2.3");
    assert!(main.is_some());
    assert!(router.contains("use tuono_lib::axum::routing::get;\nuse tuono_lib::axum::routing::post;\n"));
    assert!(router.contains("Tuono v1.2.3"));
    assert!(router.contains("F: Fn(Router) -> Fut,"));
    assert!(!router.contains("//ROUTE_BUILDER//"));
}

#[test]
fn an_app_with_state_and_main_uses_them() {
    let mut app = App::new();
    app.has_app_state = true;
    app.has_main = true;
    let (main, router) = builder(app, Mode::Dev).generate_axum_source("0.1.0");
    assert!(main.is_none());
    assert!(router.contains("mod tuono_main_state;"));
    assert!(router.contains("let user_custom_state = tuono_main_state::main();"));
    assert!(router.contains("F: Fn(Router<ApplicationState>, ApplicationState) -> Fut,"));
}

#[test]
fn a_build_writes_the_sources_entries_types_and_page() {
    let mut app = App::new();
    app.config = Some(Config::default());
    let dev_builder = builder(app, Mode::Dev);
    let dev = dev_builder.base_build("0.1.0");
    let paths: Vec<&str> = dev.writes.iter().map(|w| w.path.as_str()).collect();
    assert_eq!(
        paths,
        vec![
            MAIN_FILE_PATH,
            ROUTER_FILE_PATH,
            ".tuono/server-main.tsx",
            ".tuono/client-main.tsx",
            ".tuono/types.ts"
        ]
    );
    assert_eq!(dev.writes[4].contents, "declare module \"tuono/types\" {\n}\n");
    assert!(dev.build_config);
    assert_eq!(dev_builder.fallback_write().unwrap().path, FALLBACK_HTML_PATH);

    let prod_builder = builder(App::new(), Mode::Prod);
    let prod = prod_builder.base_build("0.1.0");
    assert_eq!(prod.writes.len(), 5);
    assert!(!prod.build_config);
    assert!(prod_builder.fallback_write().is_none());
}

#[test]
fn it_successfully_import_mixed_case_routes() {
    let mut app = App::new();
    for method in ["get", "post", "put", "delete", "patch"] {
        let lower = format!("/api/{method}_lower");
        let upper = format!("/api/{method}_upper");
        app.route_map.insert(
            lower.clone(),
            mounted(&lower, &lower, &format!("api_{method}_lower"), Some(vec![method])),
        );
        let upper_method = method.to_uppercase();
        app.route_map.insert(
            upper.clone(),
            mounted(&upper, &upper, &format!("api_{method}_upper"), Some(vec![upper_method.as_str()])),
        );
    }
    let (main, _) = builder(app, Mode::Prod).generate_axum_source("0.1.0");
    let main = main.unwrap();
    for method in ["get", "post", "put", "delete", "patch"] {
        let expected = format!("use tuono_lib::axum::routing::{method};");
        assert_eq!(main.match_indices(&expected).count(), 1);
    }
}

#[test]
fn ports_are_written_in_decimal() {
    assert_eq!(decimal_string(0), "0");
    assert_eq!(decimal_string(3000), "3000");
    assert_eq!(decimal_string(65535), "65535");
    assert_eq!(
        server_base_url(&ServerConfig::default()),
        "http://localhost:3000"
    );
}

#[test]
fn the_dev_server_starts_after_both_builds() {
    assert_eq!(
        start_dev_processes(),
        vec![
            StartStep::Start(ProcessId::WatchReactSrc),
            StartStep::Start(ProcessId::BuildRustSrc),
            StartStep::Start(ProcessId::BuildReactSSRSrc),
            StartStep::Wait(ProcessId::BuildRustSrc),
            StartStep::Wait(ProcessId::BuildReactSSRSrc),
            StartStep::Start(ProcessId::RunRustDevServer),
        ]
    );
}

#[test]
fn dynamic_routes_are_found() {
    let mut app = App::new();
    app.route_map
        .insert("/about".to_string(), Route::new("/about".to_string()));
    assert!(!app.has_dynamic_routes());
    app.route_map.insert(
        "/pokemons/[pokemon]".to_string(),
        Route::new("/pokemons/[pokemon]".to_string()),
    );
    assert!(app.has_dynamic_routes());
}

const POST_API_FILE: &str = r"#[tuono_lib::api(POST)]";
const GET_API_FILE: &str = r"#[tuono_lib::api(GET)]";

/// The router of a project whose routes folder holds the given Rust
/// handler files, with their contents.
fn router_of(files: &[(&str, &str)]) -> String {
    let mut routes: tuono::strmap::StrMap<Route> = tuono::strmap::StrMap::new();
    for (path, _) in files {
        routes = tuono::route_directory_info::RouteDirectoryInfo::collect_route(
            &format!("/project/src/routes/{path}"),
            "rs",
            routes,
            "/project",
        );
    }
    let mut app = App::new();
    for i in 0..routes.len() {
        let key = routes.key_at(i).clone();
        let mut route = tuono::route_directory_info::copy_route(routes.value_at(i));
        let source = files
            .iter()
            .find(|(p, _)| format!("/{p}") == format!("{key}.rs"))
            .map(|(_, c)| *c);
        route.update_axum_info(source);
        app.route_map.insert(key, route);
    }
    let (_, router) = builder(app, Mode::Prod).generate_axum_source("0.1.0");
    router
}

#[test]
fn it_successfully_create_the_index_route() {
    let router = router_of(&[("index.rs", "")]);
    assert!(router.contains(r#"#[path="../src/routes/index.rs"]"#));
    assert!(router.contains("mod index;"));
    assert!(router.contains(
        r#".route("/", get(index::tuono_internal_route)).route("/__tuono/data/", get(index::tuono_internal_api))"#
    ));
}

#[test]
fn it_successfully_create_an_api_route() {
    let router = router_of(&[("api/health_check.rs", POST_API_FILE)]);
    assert!(router.contains(r#"#[path="../src/routes/api/health_check.rs"]"#));
    assert!(router.contains("mod api_health_check;"));
    assert!(router.contains(
        r#".route("/api/health_check", post(api_health_check::post_tuono_internal_api))"#
    ));
}

#[test]
fn it_successfully_create_multiple_api_for_the_same_file() {
    let content = format!("{POST_API_FILE}{GET_API_FILE}");
    let router = router_of(&[("api/health_check.rs", &content)]);
    assert!(router.contains(r#"#[path="../src/routes/api/health_check.rs"]"#));
    assert!(router.contains("mod api_health_check;"));
    assert!(router.contains(
        r#".route("/api/health_check", post(api_health_check::post_tuono_internal_api))"#
    ));
    assert!(router.contains(
        r#".route("/api/health_check", get(api_health_check::get_tuono_internal_api))"#
    ));
}

#[test]
fn it_successfully_create_catch_all_routes() {
    let router = router_of(&[
        ("[...all_routes].rs", ""),
        ("api/[...all_apis].rs", POST_API_FILE),
    ]);
    assert!(router.contains(r#"#[path="../src/routes/api/[...all_apis].rs"]"#));
    assert!(router.contains("mod api_dyn_catch_all_all_apis;"));
    assert!(router.contains(r#"#[path="../src/routes/[...all_routes].rs"]"#));
    assert!(router.contains("mod dyn_catch_all_all_routes;"));
    assert!(router.contains(
        r#".route("/api/{*all_apis}", post(api_dyn_catch_all_all_apis::post_tuono_internal_api))"#
    ));
    assert!(router.contains(
        r#".route("/{*all_routes}", get(dyn_catch_all_all_routes::tuono_internal_route))"#
    ));
    assert!(router.contains(
        r#".route("/__tuono/data/{*all_routes}", get(dyn_catch_all_all_routes::tuono_internal_api))"#
    ));
}

#[test]
fn dynamic_segments_become_route_parameters() {
    let info = tuono::route::axum_info_of("/pokemons/[pokemon]");
    assert_eq!(info.axum_route, "/pokemons/{pokemon}");
    assert_eq!(info.module_import, "pokemons_dyn_pokemon");
    let info = tuono::route::axum_info_of("/Blog-Posts/index");
    assert_eq!(info.axum_route, "/Blog-Posts");
    assert_eq!(info.module_import, "blog_hyphen_posts_index");
    assert_eq!(
        tuono::route::api_methods("#[tuono_lib::api(get)]\n#[tuono_lib::api( GET )]\n#[tuono_lib::api(post)]"),
        vec!["GET", "POST"]
    );
}
