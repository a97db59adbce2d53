use tuono::route::Route;
use tuono::route_directory_info::{MiddlewareData, RouteDirectoryInfo, RouteFile};
use tuono::strmap::StrMap;
use tuono::syntax::AttrModel;

fn attr(segments: &[&str]) -> AttrModel {
    AttrModel {
        path_ident: if segments.len() == 1 { Some(segments[0].to_string()) } else { None },
        path_segments: segments.iter().map(|s| s.to_string()).collect(),
        args_ident: None,
        args_expr: None,
        list_path_ident: None,
        list_metas: Vec::new(),
    }
}

fn file(path: &str, name: &str, extension: &str, stem: &str) -> RouteFile {
    RouteFile {
        path: path.to_string(),
        name: name.to_string(),
        extension: extension.to_string(),
        stem: stem.to_string(),
        middlewares: None,
    }
}

#[test]
fn test_has_middlewares() {
    let mut dir_info = RouteDirectoryInfo::default();
    dir_info.middlewares = vec!["middleware1".to_string()];
    assert!(dir_info.has_middlewares());

    let dir_info_empty = RouteDirectoryInfo::default();
    assert!(!dir_info_empty.has_middlewares());
}

#[test]
fn test_get_middleware_module_import() {
    let mut dir_info = RouteDirectoryInfo::default();
    dir_info.path = "/some/path/src/routes".to_string();
    // Assuming base path is current dir, but this might vary
    // For test, we can check the format
    let import = dir_info.get_middleware_module_import("/home/user/project");
    assert!(import.ends_with("_middlewares"));
}

#[test]
fn middleware_module_imports_spell_out_the_path() {
    let mut dir_info = RouteDirectoryInfo::default();
    dir_info.path = "/home/me/app/src/routes/Blog/my-post.v2".to_string();
    assert_eq!(
        dir_info.get_middleware_module_import("/home/me/app"),
        "blog_my_hyphen_post_dot_v2_middlewares"
    );
    dir_info.path = "/home/me/app/src/routes".to_string();
    assert_eq!(dir_info.get_middleware_module_import("/home/me/app"), "middlewares");
}

#[test]
fn test_has_middleware_attr() {
    let attr1 = attr(&["tuono_lib", "middleware"]);
    assert!(MiddlewareData::has_middleware_attr(&vec![attr1]));

    let attr2 = attr(&["other_attr"]);
    assert!(!MiddlewareData::has_middleware_attr(&vec![attr2]));
}

#[test]
fn test_should_collect_route() {
    assert!(RouteDirectoryInfo::should_collect_route("rs", "test"));
    assert!(RouteDirectoryInfo::should_collect_route("tsx", "test"));
    assert!(RouteDirectoryInfo::should_collect_route("md", "test"));
    assert!(!RouteDirectoryInfo::should_collect_route("css", "test"));
    assert!(!RouteDirectoryInfo::should_collect_route("tsx", "__layout"));
}

#[test]
fn test_collect_route() {
    let routes: StrMap<Route> = StrMap::new();
    let new_routes = RouteDirectoryInfo::collect_route("/tmp/app/src/routes/index.rs", "rs", routes, "/tmp/app");
    assert!(new_routes.len() > 0);
    let route = new_routes.get("/index").unwrap();
    assert!(route.rust_handler);
}

#[test]
fn a_page_and_its_handler_make_one_route() {
    let routes: StrMap<Route> = StrMap::new();
    let routes = RouteDirectoryInfo::collect_route("/app/src/routes/about.tsx", "tsx", routes, "/app");
    assert!(!routes.get("/about").unwrap().rust_handler);
    let routes = RouteDirectoryInfo::collect_route("/app/src/routes/about.rs", "rs", routes, "/app");
    assert_eq!(routes.len(), 1);
    assert!(routes.get("/about").unwrap().rust_handler);
    let routes = RouteDirectoryInfo::collect_route("/app/src/routes/about.tsx", "tsx", routes, "/app");
    assert_eq!(routes.len(), 1);
    assert!(routes.get("/about").unwrap().rust_handler);
}

#[test]
fn test_route_directory_info_new() {
    let mut middlewares = file("/app/src/routes/middlewares.rs", "middlewares.rs", "rs", "middlewares");
    middlewares.middlewares = Some(vec!["test_middleware".to_string()]);
    let files = vec![
        file("/app/src/routes/test.rs", "test.rs", "rs", "test"),
        middlewares,
        file("/app/src/routes/style.css", "style.css", "css", "style"),
    ];
    let sub = RouteDirectoryInfo::new("/app/src/routes/sub".to_string(), Vec::new(), &Vec::new(), "/app");
    let dir_info = RouteDirectoryInfo::new("/app/src/routes".to_string(), vec![sub], &files, "/app");
    assert_eq!(dir_info.path, "/app/src/routes");
    assert!(!dir_info.directories.is_empty());
    assert!(!dir_info.middlewares.is_empty());
    assert_eq!(dir_info.routes.len(), 1);
    assert!(dir_info.routes.contains_key("/test"));
}

#[test]
fn test_read_middleware_methods_from_file() {
    let source = "#[tuono_lib::middleware]\nfn test_middleware() {}\nfn other_fn() {}\n";
    let methods = MiddlewareData::read_middleware_methods_from_source(source).unwrap();
    assert_eq!(methods, vec!["test_middleware"]);
    assert!(MiddlewareData::read_middleware_methods_from_source("fn (").is_none());
}

#[test]
fn the_routes_of_a_tree_are_gathered_depth_first() {
    let nested = RouteDirectoryInfo::new(
        "/app/src/routes/blog/posts".to_string(),
        Vec::new(),
        &vec![file("/app/src/routes/blog/posts/[id].tsx", "[id].tsx", "tsx", "[id]")],
        "/app",
    );
    let blog = RouteDirectoryInfo::new(
        "/app/src/routes/blog".to_string(),
        vec![nested],
        &vec![file("/app/src/routes/blog/index.tsx", "index.tsx", "tsx", "index")],
        "/app",
    );
    let root = RouteDirectoryInfo::new(
        "/app/src/routes".to_string(),
        vec![blog],
        &vec![file("/app/src/routes/about.rs", "about.rs", "rs", "about")],
        "/app",
    );
    let mut routes: StrMap<Route> = StrMap::new();
    root.collect_routes_into(&mut routes);
    let keys: Vec<&str> = (0..routes.len()).map(|i| routes.key_at(i).as_str()).collect();
    assert_eq!(keys, vec!["/about", "/blog/index", "/blog/posts/[id]"]);
    assert!(routes.get("/about").unwrap().rust_handler);
}
