use tuono::file_types::{FileTypes, FileTypesError};
use tuono::syntax::{parse_source_items, AttrModel, EnumModel, ItemModel, StructModel};
use tuono::types_jar::TypesJar;
use tuono::typescript::{
    has_derive_type, parse_enum, parse_struct, rename_option_of, type_to_typescript,
    RenameSerdeOptions,
};

fn struct_of(source: &str) -> StructModel {
    let items = parse_source_items(source).expect("valid Rust");
    for item in items {
        if let ItemModel::Struct(s) = item {
            return s;
        }
    }
    panic!("no struct in the source");
}

fn enum_of(source: &str) -> EnumModel {
    let items = parse_source_items(source).expect("valid Rust");
    for item in items {
        if let ItemModel::Enum(e) = item {
            return e;
        }
    }
    panic!("no enum in the source");
}

fn file_types(path: &str, text: &str, types: &[&str]) -> FileTypes {
    FileTypes {
        file_path: path.to_string(),
        types_as_string: text.to_string(),
        types: types.iter().map(|t| t.to_string()).collect(),
    }
}

#[test]
fn parser_it_correctly_parses_struct() {
    let struct_str = r#"
            #[derive(Type)]
            struct MyStruct<'a, T, R>{
                field1: &str,
                field2: i32,
                field3: Option<String>,
                field4: Vec<i32>,
                record: HashMap<&'a str, i32>,
                user: User,
                generic: T,
                generic2: HashMap<&mut str, R>,
                btree: BTreeMap<String, i32>,
            }
        "#;

    let parsed_struct = struct_of(struct_str);
    let (struct_name, typescript_definition) = parse_struct(&parsed_struct);

    assert_eq!(struct_name, "MyStruct");
    assert_eq!(
        typescript_definition,
        "export interface MyStruct<T, R> {\n  field1: string;\n  field2: number;\n  field3: string | null;\n  field4: number[];\n  record: Record<string, number>;\n  user: User;\n  generic: T;\n  generic2: Record<string, R>;\n  btree: Record<string, number>;\n}\n"
    );
}

#[test]
fn parse_struct_it_correctly_parses_struct() {
    let struct_str = r#"
            #[derive(Type)]
            struct MyStruct<'a, T, R>{
                field_1: &str,
                field2: i32,
                field3: Option<String>,
                field4: Vec<i32>,
                record: HashMap<&'a str, i32>,
                user: User,
                generic: T,
                generic2: HashMap<&mut str, R>,
                btree: BTreeMap<String, i32>,
            }
        "#;

    let parsed_struct = struct_of(struct_str);
    let (struct_name, typescript_definition) = parse_struct(&parsed_struct);

    assert_eq!(struct_name, "MyStruct");
    assert_eq!(
        typescript_definition,
        "export interface MyStruct<T, R> {\n  field_1: string;\n  field2: number;\n  field3: string | null;\n  field4: number[];\n  record: Record<string, number>;\n  user: User;\n  generic: T;\n  generic2: Record<string, R>;\n  btree: Record<string, number>;\n}\n"
    );
}

#[test]
fn it_correctly_parse_tuple_fields() {
    let struct_str = r#"
            #[derive(Type)]
            struct MyStruct {
                tuple: (i32, i32, String, User),

            }"#;

    let parsed_struct = struct_of(struct_str);
    let (_, typescript_definition) = parse_struct(&parsed_struct);

    assert_eq!(
        typescript_definition,
        "export interface MyStruct {\n  tuple: [number, number, string, User];\n}\n"
    );
}

#[test]
fn it_correctly_parses_struct_with_no_generics() {
    let struct_str = r#"
            #[derive(Type)]
            struct MyStruct {
                field_1: &str,
            }
        "#;

    let parsed_struct = struct_of(struct_str);
    let (struct_name, typescript_definition) = parse_struct(&parsed_struct);

    assert_eq!(struct_name, "MyStruct");
    assert_eq!(
        typescript_definition,
        "export interface MyStruct {\n  field_1: string;\n}\n"
    );
}

#[test]
fn it_correctly_turn_the_keys_camel_case() {
    let struct_str = r#"
            #[derive(Type)]
            #[serde(rename_all = "camelCase")]
            struct MyStruct {
                field_one: &str,
                field_two: i32,
            }
        "#;

    let parsed_struct = struct_of(struct_str);
    let (struct_name, typescript_definition) = parse_struct(&parsed_struct);

    assert_eq!(struct_name, "MyStruct");
    assert_eq!(
        typescript_definition,
        "export interface MyStruct {\n  fieldOne: string;\n  fieldTwo: number;\n}\n"
    );
}

#[test]
fn it_correctly_turn_the_keys_pascal_case() {
    let struct_str = r#"
            #[derive(Type)]
            #[serde(rename_all = "PascalCase")]
            struct MyStruct {
                field_one: &str,
                field_two: i32,
            }
        "#;

    let parsed_struct = struct_of(struct_str);
    let (struct_name, typescript_definition) = parse_struct(&parsed_struct);

    assert_eq!(struct_name, "MyStruct");
    assert_eq!(
        typescript_definition,
        "export interface MyStruct {\n  FieldOne: string;\n  FieldTwo: number;\n}\n"
    );
}

#[test]
fn it_correctly_retrieve_the_serde_rename_option() {
    let struct_str = r#"
            #[derive(Type)]
            #[serde(rename_all = "PascalCase")]
            struct MyStruct {
                field_one: &str,
            }
        "#;

    let parsed_struct = struct_of(struct_str);
    let rename_option: RenameSerdeOptions = rename_option_of(&parsed_struct.attrs);

    assert_eq!(rename_option, RenameSerdeOptions::PascalCase);

    let struct_str = r#"
            #[derive(Type)]
            #[serde(rename_all = "camelCase")]
            struct MyStruct {
                field_one: &str,
            }"#;
    let parsed_struct = struct_of(struct_str);
    let rename_option: RenameSerdeOptions = rename_option_of(&parsed_struct.attrs);
    assert_eq!(rename_option, RenameSerdeOptions::CamelCase);
}

#[test]
fn it_correctly_identifies_skip_fields() {
    let struct_str = r#"
            #[derive(Type)]
            struct MyStruct {
                #[serde(skip)]
                field_one: &str,
                field_two: i32,
                #[serde(skip_serializing)]
                field_three: i32,
            }
        "#;

    let parsed_struct = struct_of(struct_str);

    let (_, typescript_definition) = parse_struct(&parsed_struct);
    assert_eq!(
        typescript_definition,
        "export interface MyStruct {\n  field_two: number;\n}\n"
    );
}

#[test]
fn it_correctly_override_a_field_name() {
    let struct_str = r#"
            #[derive(Type)]
            struct MyStruct {
                #[serde(rename = "field_one")]
                field_two: i32,
            }
        "#;

    let parsed_struct = struct_of(struct_str);
    let (_, typescript_definition) = parse_struct(&parsed_struct);
    assert_eq!(
        typescript_definition,
        "export interface MyStruct {\n  field_one: number;\n}\n"
    );
}

#[test]
fn it_correctly_parse_a_simple_enum() {
    let enum_str = r#"
            #[derive(Type)]
            enum MyEnum {
                Variant1,
                Variant2,
                Variant3
            }
        "#;

    let parsed_enum = enum_of(enum_str);
    let (enum_name, typescript_definition) = parse_enum(&parsed_enum);

    assert_eq!(enum_name, "MyEnum");
    assert_eq!(
        typescript_definition,
        r#"export type MyEnum = "Variant1" | "Variant2" | "Variant3""#
    );
}

#[test]
fn it_correctly_apply_rename_all_modifier() {
    let enum_str = r#"
            #[derive(Type)]
            #[serde(rename_all = "lowercase")]
            enum MyEnum {
                Id,
                Name,
                UserAge
            }
        "#;

    let parsed_enum = enum_of(enum_str);
    let (enum_name, typescript_definition) = parse_enum(&parsed_enum);

    assert_eq!(enum_name, "MyEnum");
    assert_eq!(
        typescript_definition,
        r#"export type MyEnum = "id" | "name" | "userage""#
    );
}

#[test]
fn it_correctly_skips_a_variant() {
    let enum_str = r#"
            #[derive(Type)]
            #[serde(rename_all = "lowercase")]
            enum MyEnum {
                Id,
                Name,
                UserAge,
                #[serde(skip)]
                SkipMe
            }
        "#;

    let parsed_enum = enum_of(enum_str);
    let (_, typescript_definition) = parse_enum(&parsed_enum);

    assert_eq!(
        typescript_definition,
        r#"export type MyEnum = "id" | "name" | "userage""#
    );
}

/// `#[derive(...)]` with the given list, as the generator reads it.
fn derive_attr(names: &[&str]) -> AttrModel {
    AttrModel {
        path_ident: Some("derive".to_string()),
        path_segments: vec!["derive".to_string()],
        args_ident: if names.len() == 1 { Some(names[0].to_string()) } else { None },
        args_expr: None,
        list_path_ident: Some(Some("derive".to_string())),
        list_metas: names.iter().map(|n| Some(Some(n.to_string()))).collect(),
    }
}

#[test]
fn it_correctly_checks_if_derive_type_is_present() {
    let test_struct = struct_of(
        r#"
            #[derive(Type)]
            struct MyStruct;
        "#,
    );

    assert!(has_derive_type(&test_struct.attrs));

    // `#[derive(Type)] type MyType = i32;`: a type alias keeps its attributes.
    let test_type = vec![derive_attr(&["Type"])];

    assert!(has_derive_type(&test_type));

    let test_enum = enum_of(
        r#"
            #[derive(Type)]
            enum MyEnunType {
                Variant1,
                Variant2,
            }
        "#,
    );

    assert!(has_derive_type(&test_enum.attrs));

    let test_struct_without_type = struct_of(
        r#"
            struct MyStruct;
        "#,
    );

    assert!(!has_derive_type(&test_struct_without_type.attrs));

    let multi_derived_trait = struct_of(
        r#"
            #[derive(Type, Serialize, Debug)]
            struct MyStruct;
        "#,
    );

    assert!(has_derive_type(&multi_derived_trait.attrs));
}

#[test]
fn it_correctly_creates_type_from_pathbuf_and_string() {
    let file_path = "src/types.rs".to_string();
    let file_str = r#"
            #[derive(Type)]
            struct MyStruct {
                field1: String,
                field2: i32,
            }

            #[derive(Type)]
            enum MyEnum {
                Variant1,
                Variant2,
            }
        "#;

    let ttype = FileTypes::try_from(file_path.clone(), file_str).unwrap();

    assert_eq!(ttype.file_path, file_path);
    assert_eq!(
        ttype.types_as_string,
        "export interface MyStruct {\n  field1: string;\n  field2: number;\n}\nexport type MyEnum = \"Variant1\" | \"Variant2\";\n"
    );
    assert_eq!(ttype.types, vec!["MyStruct", "MyEnum"]);
}

#[test]
fn it_correctly_finds_duplicate_types() {
    let file_type1 = file_types("src/types1.rs", "type1", &["Type1", "Type2", "Type3"]);
    let file_type2 = file_types("src/types2.rs", "type1", &["Type1", "Type2", "Type4"]);
    let file_type3 = file_types("src/types2.rs", "type1", &["Type3"]);

    let mut jar = TypesJar::new();
    jar.types.push(file_type1);
    jar.types.push(file_type2);
    jar.types.push(file_type3);

    let result = jar.check_duplicate_types();

    assert!(result.contains_key("Type1"));
    assert!(result.contains_key("Type2"));
    assert!(result.contains_key("Type3"));
    assert!(!result.contains_key("Type4"));
}

#[test]
fn duplicate_types_name_the_last_two_files() {
    let mut jar = TypesJar::new();
    jar.types.push(file_types("a.rs", "", &["User"]));
    jar.types.push(file_types("b.rs", "", &["User", "Post"]));
    jar.types.push(file_types("c.rs", "", &["Post"]));
    jar.types.push(file_types("d.rs", "", &["User"]));

    let result = jar.check_duplicate_types();
    assert_eq!(result.len(), 2);
    let user = result.get("User").unwrap();
    assert_eq!((user.0.as_str(), user.1.as_str()), ("d.rs", "b.rs"));
    let post = result.get("Post").unwrap();
    assert_eq!((post.0.as_str(), post.1.as_str()), ("c.rs", "b.rs"));
}

#[test]
fn the_type_names_map_to_typescript() {
    assert_eq!(type_to_typescript("u64"), "number");
    assert_eq!(type_to_typescript("f32"), "number");
    assert_eq!(type_to_typescript("char"), "string");
    assert_eq!(type_to_typescript("bool"), "boolean");
    assert_eq!(type_to_typescript("User"), "User");
}

#[test]
fn a_file_without_types_or_rust_is_refused() {
    let no_types = FileTypes::try_from("a.rs".to_string(), "struct A { x: i32 }");
    assert!(matches!(no_types, Err(FileTypesError::NoTypes)));

    let not_rust = FileTypes::try_from("a.rs".to_string(), "#[derive(Type)] struct {");
    assert!(matches!(not_rust, Err(FileTypesError::Syntax)));

    let unsupported =
        FileTypes::try_from("a.rs".to_string(), "#[derive(Type)] struct A<'a> { x: Option<'a> }");
    assert!(matches!(unsupported, Err(FileTypesError::UnsupportedType)));
}

#[test]
fn the_jar_writes_each_file_between_markers() {
    let mut jar = TypesJar::new();
    jar.types.push(file_types("src/a.rs", "export type A = \"X\";\n", &["A"]));
    jar.types.push(file_types("src/b.rs", "export type B = \"Y\";\n", &["B"]));
    assert_eq!(
        jar.generate_typescript(),
        "declare module \"tuono/types\" {\n// START [src/a.rs]\nexport type A = \"X\";\n// END [src/a.rs]\n// START [src/b.rs]\nexport type B = \"Y\";\n// END [src/b.rs]\n}\n"
    );
}

#[test]
fn removing_and_refreshing_a_file_replaces_its_types() {
    let mut jar = TypesJar::new();
    jar.types.push(file_types("src/a.rs", "old", &["A"]));
    jar.types.push(file_types("src/b.rs", "b", &["B"]));

    jar.refresh_file(
        "src/a.rs".to_string(),
        "#[derive(Type)] enum A { One }",
    );
    assert_eq!(jar.types.len(), 2);
    assert_eq!(jar.types[0].file_path, "src/b.rs");
    assert_eq!(jar.types[1].file_path, "src/a.rs");
    assert_eq!(jar.types[1].types_as_string, "export type A = \"One\";\n");

    // A file that does not name the trait leaves the jar as it is.
    jar.refresh_file("src/b.rs".to_string(), "struct B;");
    assert_eq!(jar.types.len(), 2);

    jar.remove_file("src/b.rs");
    assert_eq!(jar.types.len(), 1);
    assert_eq!(jar.types[0].file_path, "src/a.rs");
}

#[test]
fn upper_case_renaming_applies_to_variants() {
    let parsed_enum = enum_of(
        r#"
            #[derive(Type)]
            #[serde(rename_all = "UPPERCASE")]
            enum Level {
                Low,
                High
            }
        "#,
    );
    let (_, typescript_definition) = parse_enum(&parsed_enum);
    assert_eq!(typescript_definition, r#"export type Level = "LOW" | "HIGH""#);
}

#[test]
fn parsed_sources_give_their_types() {
    assert!(matches!(
        FileTypes::from_parsed("a.rs".to_string(), None),
        Err(FileTypesError::Syntax)
    ));
    let items = parse_source_items("#[derive(Type)] enum E { A }").unwrap();
    let ft = FileTypes::from_parsed("a.rs".to_string(), Some(items)).unwrap();
    assert_eq!(ft.types_as_string, "export type E = \"A\";\n");
    assert_eq!(ft.types, vec!["E"]);
}

#[test]
fn skipped_fields_need_no_typescript_type() {
    let ttype = FileTypes::try_from(
        "a.rs".to_string(),
        "#[derive(Type)] struct A<'a> { #[serde(skip)] x: Option<'a>, y: i32 }",
    )
    .unwrap();
    assert_eq!(ttype.types_as_string, "export interface A {\n  y: number;\n}\n");
}

#[test]
fn a_rename_after_another_serde_key_is_found() {
    let parsed_struct = struct_of(
        r#"
            #[derive(Type)]
            struct User {
                #[serde(skip_serializing_if = "Option::is_none")]
                #[serde(rename = "userName")]
                user_name: Option<String>,
            }
        "#,
    );
    let (_, typescript_definition) = parse_struct(&parsed_struct);
    assert_eq!(
        typescript_definition,
        "export interface User {\n  userName: string | null;\n}\n"
    );
}

#[test]
fn refreshing_a_file_takes_what_reading_it_gives() {
    let source = "#[derive(Type)] struct P { x: u8 }\n#[derive(Type)] enum Q { A, B }";
    let read = FileTypes::try_from("src/p.rs".to_string(), source).unwrap();
    let mut jar = TypesJar::new();
    jar.refresh_file("src/p.rs".to_string(), source);
    assert_eq!(jar.types.len(), 1);
    assert_eq!(jar.types[0].types_as_string, read.types_as_string);
    assert_eq!(jar.types[0].types, read.types);
}
