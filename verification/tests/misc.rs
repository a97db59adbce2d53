use tuono::dev::{
    is_env_file_name, on_action, plan_reload, processes_to_restart, ssr_reload_needed, EventPath, FileEventKind,
    WatchEvent, WatchStep,
};
use tuono::external_url::ExternalUrl;
use tuono::process_manager::ProcessId;
use tuono::request::{check_form_request, FormRejection, Location};
use tuono::scaffold_project::{
    file_url, generate_tree_url, new_project_files, outro, project_path, tag_url,
    update_cargo_toml_version, update_package_json_version, GithubFile, GithubFileType,
    GITHUB_TUONO_TAGS_URL,
};
use tuono::url::get_url;

#[test]
fn test_external_url_new_default() {
    let external_url = ExternalUrl::new("", None);
    assert_eq!(
        external_url.github_tuono_tags_url,
        "https://api.github.com/repos/tuono-labs/tuono/git/ref/tags/"
    );
    assert_eq!(
        external_url.github_tuono_tag_commit_trees_url,
        "https://api.github.com/repos/tuono-labs/tuono/git/trees/"
    );
    assert_eq!(
        external_url.github_raw_content_url,
        "https://raw.githubusercontent.com/tuono-labs/tuono/"
    );
}

#[test]
fn test_external_url_new_test_environment() {
    let external_url = ExternalUrl::new("test", Some("http://mockserver"));
    assert_eq!(external_url.github_tuono_tags_url, "http://mockserver/");
    assert_eq!(external_url.github_tuono_tag_commit_trees_url, "http://mockserver/");
    assert_eq!(external_url.github_raw_content_url, "http://mockserver/");
}

#[test]
fn get_url_follows_the_environment() {
    let real = get_url("production", None);
    assert_eq!(
        real.github_tuono_tag_commit_trees_url,
        "https://api.github.com/repos/tuono-labs/tuono/git/trees/"
    );
    let mock = get_url("test", Some("http://127.0.0.1:4000"));
    assert_eq!(mock.github_raw_content_url, "http://127.0.0.1:4000/");
}

fn entry(path: &str, element_type: GithubFileType) -> GithubFile {
    GithubFile {
        path: path.to_string(),
        element_type,
    }
}

#[test]
fn a_new_project_takes_the_template_files() {
    let tree = vec![
        entry("README.md", GithubFileType::Blob),
        entry("examples/tuono-app", GithubFileType::Tree),
        entry("examples/tuono-app/src", GithubFileType::Tree),
        entry("examples/tuono-app/src/routes/index.tsx", GithubFileType::Blob),
        entry("examples/tuono-app-2/Cargo.toml", GithubFileType::Blob),
        entry("examples/other/Cargo.toml", GithubFileType::Blob),
    ];
    let files = new_project_files(&tree, "tuono-app");
    let paths: Vec<&str> = files.iter().map(|f| f.path.as_str()).collect();
    assert_eq!(
        paths,
        vec!["examples/tuono-app/src", "examples/tuono-app/src/routes/index.tsx"]
    );
    assert_eq!(files[0].element_type, GithubFileType::Tree);
    assert_eq!(
        project_path("examples/tuono-app/src/routes/index.tsx", "tuono-app"),
        "src/routes/index.tsx"
    );
}

#[test]
fn the_repository_addresses_are_built_from_the_version() {
    assert_eq!(
        tag_url(GITHUB_TUONO_TAGS_URL, "0.17.0"),
        "https://api.github.com/repos/tuono-labs/tuono/git/ref/tags/v0.17.0"
    );
    assert_eq!(
        generate_tree_url(Some(true), "ignored"),
        "https://api.github.com/repos/tuono-labs/tuono/git/trees/main?recursive=1"
    );
    assert_eq!(
        generate_tree_url(None, "abc123"),
        "https://api.github.com/repos/tuono-labs/tuono/git/trees/abc123?recursive=1"
    );
    assert_eq!(
        file_url(Some(false), "0.17.0", "examples/tuono-app/package.json"),
        "https://raw.githubusercontent.com/tuono-labs/tuono/v0.17.0/examples/tuono-app/package.json"
    );
    assert_eq!(
        file_url(Some(true), "0.17.0", "examples/tuono-app/package.json"),
        "https://raw.githubusercontent.com/tuono-labs/tuono/main/examples/tuono-app/package.json"
    );
}

#[test]
fn the_versions_are_pinned() {
    assert_eq!(
        update_package_json_version("{\"tuono\": \"link:../../packages/tuono\"}", "0.17.0"),
        "{\"tuono\": \"0.17.0\"}"
    );
    assert_eq!(
        update_cargo_toml_version("tuono_lib = { path = \"../../crates/tuono_lib/\"}\n", "0.17.0"),
        "tuono_lib = \"0.17.0\"\n"
    );
}

#[test]
fn the_outro_names_the_folder_unless_in_place() {
    assert_eq!(outro(".").len(), 5);
    let lines = outro("my-app");
    assert_eq!(lines.len(), 7);
    assert_eq!(lines[2], "cd my-app/");
}

#[test]
fn a_location_reads_the_query() {
    let uri: axum::http::Uri = "http://localhost:3000/pokemons?name=ditto&kind=normal&name=mew"
        .parse()
        .unwrap();
    let location = Location::from_parts(
        uri.to_string(),
        uri.path().to_string(),
        uri.query().map(|q| q.to_string()),
    );
    assert_eq!(location.pathname(), "/pokemons");
    assert_eq!(location.search_str(), "name=ditto&kind=normal&name=mew");
    assert_eq!(location.href(), "http://localhost:3000/pokemons?name=ditto&kind=normal&name=mew");
    assert_eq!(location.search().get("name").unwrap(), "mew");
    assert_eq!(location.search().get("kind").unwrap(), "normal");
    assert_eq!(location.search().len(), 2);

    let plain = Location::from_parts("/".to_string(), "/".to_string(), None);
    assert_eq!(plain.search_str(), "");
    assert_eq!(plain.search().len(), 0);
}

fn path(p: &str, name: &str, extension: Option<&str>) -> EventPath {
    EventPath {
        path: p.to_string(),
        file_name: Some(name.to_string()),
        extension: extension.map(|e| e.to_string()),
    }
}

#[test]
fn the_watcher_plans_what_changed_files_need() {
    assert!(ssr_reload_needed("./src/routes/index.tsx", Some("index.tsx")));
    assert!(ssr_reload_needed("./.env.local", Some(".env.local")));
    assert!(ssr_reload_needed("./src/post.mdx", Some("post.mdx")));
    assert!(!ssr_reload_needed("./src/routes/index.rs", Some("index.rs")));
    assert!(is_env_file_name(".env.production.local"));
    assert!(!is_env_file_name("env.txt"));

    let events = vec![
        WatchEvent {
            kinds: vec![FileEventKind::Modify],
            paths: vec![
                path("./src/routes/index.rs", "index.rs", Some("rs")),
                path("./src/routes/index.tsx", "index.tsx", Some("tsx")),
            ],
        },
        WatchEvent {
            kinds: vec![FileEventKind::Remove, FileEventKind::Other],
            paths: vec![path("./src/routes/old.rs", "old.rs", Some("rs"))],
        },
    ];
    let plan = plan_reload(&events);
    assert_eq!(plan.refresh_types, vec!["./src/routes/index.rs"]);
    assert_eq!(plan.remove_types, vec!["./src/routes/old.rs"]);
    assert!(plan.reload_rust_server);
    assert!(plan.refresh_axum_source);
    assert!(plan.reload_ssr_bundle);
    assert_eq!(
        processes_to_restart(&plan),
        vec![ProcessId::RunRustDevServer, ProcessId::BuildReactSSRSrc]
    );

    assert!(matches!(on_action(true, &events), WatchStep::Quit));
    let quiet = plan_reload(&Vec::new());
    assert!(processes_to_restart(&quiet).is_empty());
}

#[test]
fn form_requests_need_the_form_type_and_a_body() {
    assert_eq!(
        check_form_request("application/json", true),
        Err(FormRejection::ContentType)
    );
    assert_eq!(check_form_request("", false), Err(FormRejection::ContentType));
    assert_eq!(
        check_form_request("application/x-www-form-urlencoded; charset=utf-8", false),
        Err(FormRejection::MissingBody)
    );
    assert_eq!(
        check_form_request("application/x-www-form-urlencoded", true),
        Ok(())
    );
}

#[test]
fn a_map_gives_back_the_last_value_stored() {
    let mut map: tuono::strmap::StrMap<String> = tuono::strmap::StrMap::new();
    map.insert("a".to_string(), "1".to_string());
    map.insert("b".to_string(), "2".to_string());
    map.insert("a".to_string(), "3".to_string());
    assert_eq!(map.len(), 2);
    assert_eq!(map.get("a").unwrap(), "3");
    assert_eq!(map.get("b").unwrap(), "2");
    assert_eq!(map.key_at(0), "a");
    assert!(map.get("c").is_none());
}

#[test]
fn without_a_branch_choice_files_come_from_the_version_tag() {
    assert_eq!(
        file_url(None, "0.17.0", "examples/tuono-app/src/main.rs"),
        "https://raw.githubusercontent.com/tuono-labs/tuono/v0.17.0/examples/tuono-app/src/main.rs"
    );
}
