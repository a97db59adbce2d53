use tuono::manifest::{clean_route_path, has_dynamic_path, BundleInfo, Manifest, ViteManifest};
use tuono::mode::Mode;
use tuono::payload::client_bundles;
use tuono::strmap::StrMap;

const MANIFEST_EXAMPLE: &str = r#"{
      "../src/routes/about.tsx": {
        "file": "assets/about-C3UqHfGb.js",
        "name": "about",
        "src": "../src/routes/about.tsx",
        "isDynamicEntry": true,
        "imports": [
          "client-main.tsx",
          "_FileWithCssOnly.js"
        ],
        "css": [
          "assets/about-DUhMJ_Ze.css"
        ]
      },
      "_FileWithCssOnly.js": {
        "file": "assets/FileWithCssOnly.js",
        "name": "FileWithCssOnly",
        "imports": [
          "client-main.tsx"
        ],
        "css": [
          "assets/FileWithCssOnly.css"
        ]
      },
      "../src/routes/catch_all/[...slug].tsx": {
        "file": "assets/_...slug_-CpJyPnPj.js",
        "name": "_...slug_",
        "src": "../src/routes/catch_all/[...slug].tsx",
        "isDynamicEntry": true,
        "imports": [
          "client-main.tsx"
        ],
        "css": [
          "assets/_..-CipbPoTl.css"
        ]
      },
      "../src/routes/index.tsx": {
        "file": "assets/index-B3tnHOzi.js",
        "name": "index",
        "src": "../src/routes/index.tsx",
        "isDynamicEntry": true,
        "imports": [
          "client-main.tsx"
        ],
        "css": [
          "assets/index-CynfArjF.css"
        ]
      },
      "../src/routes/pokemons/[pokemon]/[type].tsx": {
        "file": "assets/_type_-B-sJOcVJ.js",
        "name": "_type_",
        "src": "../src/routes/pokemons/[pokemon]/[type].tsx",
        "isDynamicEntry": true,
        "imports": [
          "client-main.tsx",
          "_PokemonView-jNGFFO0j.js"
        ],
        "css": [
          "assets/_type_-B8vgxybx.css"
        ]
      },
      "../src/routes/pokemons/[pokemon]/index.tsx": {
        "file": "assets/index-ByRBj7WK.js",
        "name": "index",
        "src": "../src/routes/pokemons/[pokemon]/index.tsx",
        "isDynamicEntry": true,
        "imports": [
          "client-main.tsx",
          "_PokemonView-jNGFFO0j.js"
        ],
        "css": [
          "assets/index-CM86zKWq.css"
        ]
      },
      "../src/routes/pokemons/__layout.tsx": {
        "file": "assets/__layout-2v3JiSeL.js",
        "name": "__layout",
        "src": "../src/routes/pokemons/__layout.tsx",
        "isDynamicEntry": true,
        "imports": [
          "client-main.tsx"
        ],
        "css": [
          "assets/__layout-CXGGqNw5.css"
        ]
      },
      "_PokemonView-BcJZaQaO.css": {
        "file": "assets/PokemonView-BcJZaQaO.css",
        "src": "_PokemonView-BcJZaQaO.css"
      },
      "_PokemonView-jNGFFO0j.js": {
        "file": "assets/PokemonView-jNGFFO0j.js",
        "name": "PokemonView",
        "imports": [
          "client-main.tsx"
        ],
        "css": [
          "assets/PokemonView-BcJZaQaO.css"
        ]
      },
      "client-main.tsx": {
        "file": "assets/client-main-DOdr9gvl.js",
        "name": "client-main",
        "src": "client-main.tsx",
        "isEntry": true,
        "dynamicImports": [
          "../src/routes/pokemons/__layout.tsx",
          "../src/routes/about.tsx",
          "../src/routes/index.tsx",
          "../src/routes/catch_all/[...slug].tsx",
          "../src/routes/pokemons/[pokemon]/[type].tsx",
          "../src/routes/pokemons/[pokemon]/index.tsx"
        ],
        "css": [
          "assets/client-main-BS7N-NIa.css"
        ]
      }
    }"#;

const PAYLOAD_MANIFEST_EXAMPLE: &str = r#"{
        "../src/routes/index.tsx": {
            "file": "assets/index-D-yFyCZo.js",
            "name": "index",
            "src": "../src/routes/index.tsx",
            "isDynamicEntry": true,
            "imports": [
                "client-main.tsx"
            ],
            "css": [
                "assets/index-CynfArjF.css"
            ]
        },
        "../src/routes/pokemons/[pokemon].tsx": {
            "file": "assets/_pokemon_-DlFInatQ.js",
            "name": "_pokemon_",
            "src": "../src/routes/pokemons/[pokemon].tsx",
            "isDynamicEntry": true,
            "imports": [
                "client-main.tsx"
            ],
            "css": [
                "assets/_pokemon_-BcJZaQaO.css"
            ]
        },
        "../src/routes/pokemons/__layout.tsx": {
            "file": "assets/__layout-BFnT3M7X.js",
            "name": "__layout",
            "src": "../src/routes/pokemons/__layout.tsx",
            "isDynamicEntry": true,
            "imports": [
                "client-main.tsx"
            ],
            "css": [
                "assets/__layout-CXGGqNw5.css"
            ]
        },
        "client-main.tsx": {
            "file": "assets/client-main-B9g1NVV7.js",
            "name": "client-main",
            "src": "client-main.tsx",
            "isEntry": true,
            "dynamicImports": [
                "../src/routes/pokemons/__layout.tsx",
                "../src/routes/index.tsx",
                "../src/routes/pokemons/[pokemon].tsx"
            ],  
            "css": [
                "assets/client-main-BS7N-NIa.css"
            ]
        } 
    }"#;

fn strings(value: Option<&serde_json::Value>) -> Vec<String> {
    match value {
        Some(serde_json::Value::Array(items)) => items
            .iter()
            .map(|v| v.as_str().expect("a string").to_string())
            .collect(),
        _ => Vec::new(),
    }
}

/// The bundler's manifest as the library reads it: each entry's file, style
/// sheets and imports.
fn vite_manifest(json: &str) -> ViteManifest {
    let value: serde_json::Value = serde_json::from_str(json).expect("valid JSON");
    let mut manifest: ViteManifest = StrMap::new();
    for (key, entry) in value.as_object().expect("an object") {
        let info = BundleInfo {
            file: entry["file"].as_str().expect("a file").to_string(),
            css: strings(entry.get("css")),
            imports: strings(entry.get("imports")),
        };
        manifest.insert(key.clone(), info);
    }
    manifest
}

#[test]
fn it_correctly_cleans_the_route_path() {
    let cleaned_path = clean_route_path("../src/routes/index.tsx".to_string());
    assert_eq!(cleaned_path, "/");

    let cleaned_path = clean_route_path("../src/routes/pokemons/[pokemon]/index.tsx".to_string());
    assert_eq!(cleaned_path, "/pokemons/[pokemon]");

    let cleaned_path = clean_route_path("../src/routes/pokemons/__layout.tsx".to_string());
    assert_eq!(cleaned_path, "/pokemons/__layout");

    let cleaned_path = clean_route_path("../src/routes/pokemons/[pokemon]/[type].mdx".to_string());
    assert_eq!(cleaned_path, "/pokemons/[pokemon]/[type]");

    let cleaned_path = clean_route_path("../src/routes/about.md".to_string());
    assert_eq!(cleaned_path, "/about");
}

#[test]
fn correctly_parse_the_manifest_json() {
    let parsed_manifest = vite_manifest(MANIFEST_EXAMPLE);

    let manifest = Manifest::from(parsed_manifest);
    assert_eq!(manifest.bundles().len(), 6);
    let index_route = manifest.get_bundle_from_pathname("/");

    assert_eq!(
        index_route.css_files,
        vec!["assets/index-CynfArjF.css", "assets/client-main-BS7N-NIa.css"]
    );

    assert_eq!(
        index_route.js_files,
        vec!["assets/index-B3tnHOzi.js", "assets/client-main-DOdr9gvl.js"]
    );
}

#[test]
fn should_load_the_correct_single_dyn_path() {
    let parsed_manifest = vite_manifest(MANIFEST_EXAMPLE);

    let manifest = Manifest::from(parsed_manifest);
    let nested_route = manifest.get_bundle_from_pathname("/pokemons/ditto");

    assert_eq!(
        nested_route.css_files,
        vec![
            "assets/index-CM86zKWq.css",
            "assets/client-main-BS7N-NIa.css",
            "assets/PokemonView-BcJZaQaO.css",
            "assets/__layout-CXGGqNw5.css"
        ]
    );
    assert_eq!(
        nested_route.js_files,
        vec![
            "assets/index-ByRBj7WK.js",
            "assets/client-main-DOdr9gvl.js",
            "assets/PokemonView-jNGFFO0j.js",
            "assets/__layout-2v3JiSeL.js"
        ]
    );
}

#[test]
fn should_load_the_correct_nested_dyn_path_bundles() {
    let parsed_manifest = vite_manifest(MANIFEST_EXAMPLE);

    let manifest = Manifest::from(parsed_manifest);
    let route = manifest.get_bundle_from_pathname("/pokemons/charizard/fire");

    assert_eq!(
        route.css_files,
        vec![
            "assets/_type_-B8vgxybx.css",
            "assets/client-main-BS7N-NIa.css",
            "assets/PokemonView-BcJZaQaO.css",
            "assets/__layout-CXGGqNw5.css"
        ]
    );

    assert_eq!(
        route.js_files,
        vec![
            "assets/_type_-B-sJOcVJ.js",
            "assets/client-main-DOdr9gvl.js",
            "assets/PokemonView-jNGFFO0j.js",
            "assets/__layout-2v3JiSeL.js"
        ]
    );
}

#[test]
fn should_load_the_correct_catch_all_bundles() {
    let parsed_manifest = vite_manifest(MANIFEST_EXAMPLE);

    let manifest = Manifest::from(parsed_manifest);
    let route = manifest.get_bundle_from_pathname("/catch_all/some/random/path");

    assert_eq!(
        route.css_files,
        vec!["assets/_..-CipbPoTl.css", "assets/client-main-BS7N-NIa.css"]
    );

    assert_eq!(
        route.js_files,
        vec!["assets/_...slug_-CpJyPnPj.js", "assets/client-main-DOdr9gvl.js"]
    );
}

#[test]
fn should_load_the_defined_path_bundles() {
    let parsed_manifest = vite_manifest(MANIFEST_EXAMPLE);

    let manifest = Manifest::from(parsed_manifest);
    let route = manifest.get_bundle_from_pathname("/about");
    assert_eq!(
        route.css_files,
        vec![
            "assets/about-DUhMJ_Ze.css",
            "assets/client-main-BS7N-NIa.css",
            "assets/FileWithCssOnly.css"
        ]
    );
    assert_eq!(
        route.js_files,
        vec![
            "assets/about-C3UqHfGb.js",
            "assets/client-main-DOdr9gvl.js",
            "assets/FileWithCssOnly.js"
        ]
    );
}

#[test]
fn should_load_the_bundles_on_mode_prod() {
    let manifest = Manifest::from(vite_manifest(PAYLOAD_MANIFEST_EXAMPLE));
    let bundles = client_bundles(Mode::Prod, &manifest, "/");
    assert_eq!(
        bundles.js_bundles,
        Some(vec![
            "assets/index-D-yFyCZo.js".to_string(),
            "assets/client-main-B9g1NVV7.js".to_string()
        ])
    );
    assert_eq!(
        bundles.css_bundles,
        Some(vec![
            "assets/index-CynfArjF.css".to_string(),
            "assets/client-main-BS7N-NIa.css".to_string()
        ])
    );
}

#[test]
fn should_not_load_the_bundles_on_mode_dev() {
    let manifest = Manifest::from(vite_manifest(PAYLOAD_MANIFEST_EXAMPLE));
    let bundles = client_bundles(Mode::Dev, &manifest, "/");
    assert!(bundles.js_bundles.is_none());
    assert!(bundles.css_bundles.is_none());
}

#[test]
fn an_unknown_path_gets_the_client_bundle() {
    let manifest = Manifest::from(vite_manifest(PAYLOAD_MANIFEST_EXAMPLE));
    let route = manifest.get_bundle_from_pathname("/nowhere/at/all");
    assert_eq!(route.js_files, vec!["assets/client-main-B9g1NVV7.js"]);
    assert_eq!(route.css_files, vec!["assets/client-main-BS7N-NIa.css"]);
}

#[test]
fn dynamic_paths_are_recognised() {
    assert!(has_dynamic_path("/pokemons/[pokemon]"));
    assert!(has_dynamic_path("/[...slug]"));
    assert!(!has_dynamic_path("/pokemons/ditto"));
}
