//! TypeScript declarations of Rust structs and enums that derive `Type`,
//! following their `serde` attributes.
use vstd::prelude::*;
use crate::syntax::{AttrModel, ExprModel, Operand, GenericArg, PathEnd, RustType, FieldModel, StructModel, VariantModel, EnumModel};
use crate::text::{views, join_with, str_eq, owned, concat_str, join_strings};

verus! {

broadcast use vstd::string::group_string_axioms;

// ---------------------------------------------------------------------------
// Names of Rust types
// ---------------------------------------------------------------------------

/// The Rust types written as `number` in TypeScript.
pub open spec fn is_number_name(n: Seq<char>) -> bool {
    ||| n == "i8"@
    ||| n == "i16"@
    ||| n == "i32"@
    ||| n == "i64"@
    ||| n == "i128"@
    ||| n == "u8"@
    ||| n == "u16"@
    ||| n == "u32"@
    ||| n == "u64"@
    ||| n == "f32"@
    ||| n == "f64"@
    ||| n == "isize"@
    ||| n == "usize"@
}

/// The TypeScript name of a Rust type name: numbers, strings and booleans
/// are mapped, every other name is kept.
pub open spec fn ts_of_name(n: Seq<char>) -> Seq<char> {
    if is_number_name(n) {
        "number"@
    } else if n == "str"@ || n == "String"@ || n == "char"@ {
        "string"@
    } else if n == "bool"@ {
        "boolean"@
    } else {
        n
    }
}

/// Every Rust primitive number type, signed, unsigned, of pointer width or
/// floating, is written `number` in TypeScript; `str`, `String` and `char`
/// are written `string`, and `bool` is written `boolean`.
pub proof fn law_primitive_names(n: Seq<char>)
    ensures
        n == "i8"@ || n == "i16"@ || n == "i32"@ || n == "i64"@ || n == "i128"@ ==> ts_of_name(n)
            == "number"@,
        n == "u8"@ || n == "u16"@ || n == "u32"@ || n == "u64"@ ==> ts_of_name(n) == "number"@,
        n == "isize"@ || n == "usize"@ ==> ts_of_name(n) == "number"@,
        n == "f32"@ || n == "f64"@ ==> ts_of_name(n) == "number"@,
        n == "String"@ || n == "str"@ || n == "char"@ ==> ts_of_name(n) == "string"@,
        n == "bool"@ ==> ts_of_name(n) == "boolean"@,
{
    reveal_strlit("i8");
    reveal_strlit("i16");
    reveal_strlit("i32");
    reveal_strlit("i64");
    reveal_strlit("i128");
    reveal_strlit("u8");
    reveal_strlit("u16");
    reveal_strlit("u32");
    reveal_strlit("u64");
    reveal_strlit("f32");
    reveal_strlit("f64");
    reveal_strlit("isize");
    reveal_strlit("usize");
    reveal_strlit("str");
    reveal_strlit("String");
    reveal_strlit("char");
    reveal_strlit("bool");
    if n == "bool"@ || n == "char"@ || n == "str"@ || n == "String"@ {
        assert(n[0] == 'b' || n[0] == 'c' || n[0] == 's' || n[0] == 'S');
        assert(!is_number_name(n));
    }
    if n == "bool"@ {
        assert(n != "str"@ && n != "String"@ && n != "char"@) by {
            assert(n[0] == 'b');
        }
    }
}

/// The names that the generic arguments of a path stand for: a path type
/// (or a reference to one) by its first segment, any other type as
/// `unknown`; arguments that are not types are left out.
pub open spec fn inner_type_names(args: Seq<GenericArg>) -> Seq<Seq<char>>
    decreases args.len(),
{
    if args.len() == 0 {
        Seq::empty()
    } else {
        let rest = inner_type_names(args.drop_last());
        match args.last() {
            GenericArg::TypePath(s) => rest.push(s@),
            GenericArg::RefToPath(s) => rest.push(s@),
            GenericArg::OtherType => rest.push("unknown"@),
            GenericArg::NotAType => rest,
        }
    }
}

/// `Option`, `Vec` and the maps, with their argument names.
pub open spec fn generic_ts(outer: Seq<char>, inner: Seq<Seq<char>>) -> Seq<char> {
    if outer == "Option"@ {
        ts_of_name(inner[0]) + " | null"@
    } else if outer == "Vec"@ {
        ts_of_name(inner[0]) + "[]"@
    } else if outer == "HashMap"@ || outer == "BTreeMap"@ {
        "Record<"@ + ts_of_name(inner[0]) + ", "@ + ts_of_name(inner[1]) + ">"@
    } else {
        "unknown"@
    }
}

/// A generic path type has the arguments its TypeScript form names.
pub open spec fn generic_args_suffice(outer: Seq<char>, inner: Seq<Seq<char>>) -> bool {
    &&& (outer == "Option"@ || outer == "Vec"@) ==> inner.len() >= 1
    &&& (outer == "HashMap"@ || outer == "BTreeMap"@) ==> inner.len() >= 2
}

/// The TypeScript form of a Rust type.
pub open spec fn ts_type(ty: RustType) -> Seq<char>
    decreases ty,
{
    match ty {
        RustType::Tuple(elems) => "["@ + join_with(ts_types(elems@), ", "@) + "]"@,
        RustType::Path(None) => "unknown"@,
        RustType::Path(Some(end)) => match end.args {
            None => ts_of_name(end.ident@),
            Some(args) => generic_ts(end.ident@, inner_type_names(args@)),
        },
        RustType::Reference(Some(id)) => ts_of_name(id@),
        RustType::Reference(None) => "unknown"@,
        RustType::Other => "unknown"@,
    }
}

/// The TypeScript forms of Rust types, in order.
pub open spec fn ts_types(tys: Seq<RustType>) -> Seq<Seq<char>>
    decreases tys,
{
    if tys.len() == 0 {
        Seq::empty()
    } else {
        ts_types(tys.drop_last()).push(ts_type(tys.last()))
    }
}

/// Every generic path in the type has the arguments its form names
/// (the generator fails on `Option` or `Vec` without a type argument, and
/// on a map without two).
pub open spec fn ts_convertible(ty: RustType) -> bool
    decreases ty,
{
    match ty {
        RustType::Tuple(elems) => all_ts_convertible(elems@),
        RustType::Path(Some(end)) => match end.args {
            Some(args) => generic_args_suffice(end.ident@, inner_type_names(args@)),
            None => true,
        },
        _ => true,
    }
}

/// Every type of the sequence is convertible.
pub open spec fn all_ts_convertible(tys: Seq<RustType>) -> bool
    decreases tys,
{
    if tys.len() == 0 {
        true
    } else {
        all_ts_convertible(tys.drop_last()) && ts_convertible(tys.last())
    }
}

// ---------------------------------------------------------------------------
// Attributes
// ---------------------------------------------------------------------------

/// The attribute's path is the single identifier `name`.
pub open spec fn path_is(a: AttrModel, name: Seq<char>) -> bool {
    a.path_ident matches Some(p) && p@ == name
}

/// The attribute is `#[serde(name = "value")]`, with that value.
pub open spec fn assigns(a: AttrModel, name: Seq<char>) -> Option<Seq<char>> {
    if path_is(a, "serde"@) {
        match a.args_expr {
            Some(ExprModel::Assign(Operand::Path(Some(x)), Operand::LitStr(v))) => if x@ == name {
                Some(v@)
            } else {
                None
            },
            _ => None,
        }
    } else {
        None
    }
}

/// The value that the first `#[serde(name = "...")]` among the attributes
/// assigns, whatever other attributes come before it; `None` when no
/// attribute assigns `name`.
pub open spec fn serde_attr(attrs: Seq<AttrModel>, name: Seq<char>) -> Option<Seq<char>>
    decreases attrs.len(),
{
    if attrs.len() == 0 {
        None
    } else {
        match assigns(attrs[0], name) {
            Some(v) => Some(v),
            None => serde_attr(attrs.skip(1), name),
        }
    }
}

/// The attribute is `#[serde(skip)]` or `#[serde(skip_serializing)]`.
pub open spec fn is_skip_attr(a: AttrModel) -> bool {
    path_is(a, "serde"@) && (a.args_ident matches Some(i) && (i@ == "skip"@ || i@
        == "skip_serializing"@))
}

/// Some attribute asks serde to skip the element.
pub open spec fn skips(attrs: Seq<AttrModel>) -> bool {
    exists|i: int| 0 <= i < attrs.len() && is_skip_attr(#[trigger] attrs[i])
}

/// The attribute is a `#[derive(...)]` list that names `Type`.
pub open spec fn derives_type(a: AttrModel) -> bool {
    &&& a.list_path_ident matches Some(Some(p)) && p@ == "derive"@
    &&& exists|j: int|
        0 <= j < a.list_metas@.len() && (#[trigger] a.list_metas@[j] matches Some(Some(m)) && m@
            == "Type"@)
}

/// Some attribute derives `Type`.
pub open spec fn has_type_derive(attrs: Seq<AttrModel>) -> bool {
    exists|i: int| 0 <= i < attrs.len() && derives_type(#[trigger] attrs[i])
}

// ---------------------------------------------------------------------------
// Renaming
// ---------------------------------------------------------------------------

/// The renaming rules of serde's `rename_all`.
#[derive(Debug, PartialEq, Eq, Structural, Clone, Copy)]
pub enum RenameSerdeOptions {
    /// No rule: names are kept.
    Unset,
    LowerCase,
    UpperCase,
    PascalCase,
    CamelCase,
    SnakeCase,
    ScreamingSnakeCase,
    KebabCase,
    ScreamingKebabCase,
}

/// The rule that serde names `s`, if any.
pub open spec fn spec_rename_from_str(s: Seq<char>) -> Option<RenameSerdeOptions> {
    if s == "lowercase"@ {
        Some(RenameSerdeOptions::LowerCase)
    } else if s == "UPPERCASE"@ {
        Some(RenameSerdeOptions::UpperCase)
    } else if s == "PascalCase"@ {
        Some(RenameSerdeOptions::PascalCase)
    } else if s == "camelCase"@ {
        Some(RenameSerdeOptions::CamelCase)
    } else if s == "snake_case"@ {
        Some(RenameSerdeOptions::SnakeCase)
    } else if s == "SCREAMING_SNAKE_CASE"@ {
        Some(RenameSerdeOptions::ScreamingSnakeCase)
    } else if s == "kebab-case"@ {
        Some(RenameSerdeOptions::KebabCase)
    } else if s == "SCREAMING-KEBAB-CASE"@ {
        Some(RenameSerdeOptions::ScreamingKebabCase)
    } else {
        None
    }
}

/// The case that `convert_case` converts to.
#[derive(Debug, PartialEq, Eq, Structural, Clone, Copy)]
pub enum TargetCase {
    Camel,
    Pascal,
}

/// A name for what `str::to_lowercase` returns.
pub uninterp spec fn lowercase_of(s: Seq<char>) -> Seq<char>;

/// A name for what `str::to_uppercase` returns.
pub uninterp spec fn uppercase_of(s: Seq<char>) -> Seq<char>;

/// A name for what `convert_case::Casing::to_case` returns.
pub uninterp spec fn converted_case(s: Seq<char>, case: TargetCase) -> Seq<char>;

/// `s` holds only ASCII characters.
pub open spec fn is_ascii_seq(s: Seq<char>) -> bool {
    forall|i: int| 0 <= i < s.len() ==> (s[i] as int) < 128
}

/// ASCII letters `A`..`Z` mapped to `a`..`z`.
pub open spec fn ascii_lower(s: Seq<char>) -> Seq<char> {
    s.map_values(|c: char| if 'A' <= c && c <= 'Z' { ((c as int) + 32) as char } else { c })
}

/// ASCII letters `a`..`z` mapped to `A`..`Z`.
pub open spec fn ascii_upper(s: Seq<char>) -> Seq<char> {
    s.map_values(|c: char| if 'a' <= c && c <= 'z' { ((c as int) - 32) as char } else { c })
}

/// The lower case of a string: the capital ASCII letters made small when
/// the string is ASCII, otherwise its Unicode lowercase.
pub open spec fn lower_text(s: Seq<char>) -> Seq<char> {
    if is_ascii_seq(s) {
        ascii_lower(s)
    } else {
        lowercase_of(s)
    }
}

/// The upper case of a string: the small ASCII letters made capital when
/// the string is ASCII, otherwise its Unicode uppercase.
pub open spec fn upper_text(s: Seq<char>) -> Seq<char> {
    if is_ascii_seq(s) {
        ascii_upper(s)
    } else {
        uppercase_of(s)
    }
}

/// `str::to_lowercase`: the Unicode lowercase of the string, which for an
/// ASCII string maps the capital letters to small ones.
#[verifier::external_body]
pub(crate) fn to_lowercase(s: &str) -> (res: String)
    ensures
        res@ == lowercase_of(s@),
        is_ascii_seq(s@) ==> res@ == ascii_lower(s@),
{
    s.to_lowercase()
}

/// `str::to_uppercase`: the Unicode uppercase of the string, which for an
/// ASCII string maps the small letters to capital ones.
#[verifier::external_body]
pub(crate) fn to_uppercase(s: &str) -> (res: String)
    ensures
        res@ == uppercase_of(s@),
        is_ascii_seq(s@) ==> res@ == ascii_upper(s@),
{
    s.to_uppercase()
}

/// `convert_case::Casing::to_case` with `Case::Camel` or `Case::Pascal`.
/// What the crate returns is left to the name `converted_case`.
#[verifier::external_body]
fn to_case(s: &str, case: TargetCase) -> (res: String)
    ensures
        res@ == converted_case(s@, case),
{
    let target = match case {
        TargetCase::Camel => convert_case::Case::Camel,
        TargetCase::Pascal => convert_case::Case::Pascal,
    };
    convert_case::Casing::to_case(&s, target)
}

/// A name after the renaming rule: lower or upper case, camel or Pascal
/// case; the other rules keep the name.
pub open spec fn spec_transform(opt: RenameSerdeOptions, input: Seq<char>) -> Seq<char> {
    match opt {
        RenameSerdeOptions::LowerCase => lower_text(input),
        RenameSerdeOptions::UpperCase => upper_text(input),
        RenameSerdeOptions::CamelCase => converted_case(input, TargetCase::Camel),
        RenameSerdeOptions::PascalCase => converted_case(input, TargetCase::Pascal),
        _ => input,
    }
}

/// The renaming rule of `#[serde(rename_all = "...")]`, `Unset` by default
/// and for a rule serde does not name.
pub open spec fn spec_rename_option(attrs: Seq<AttrModel>) -> RenameSerdeOptions {
    match serde_attr(attrs, "rename_all"@) {
        Some(v) => match spec_rename_from_str(v) {
            Some(o) => o,
            None => RenameSerdeOptions::Unset,
        },
        None => RenameSerdeOptions::Unset,
    }
}

impl RenameSerdeOptions {
    /// The rule that serde names `input`, or `Err(())`.
    pub fn from_str(input: &str) -> (res: Result<Self, ()>)
        ensures
            match spec_rename_from_str(input@) {
                Some(o) => res == Ok::<Self, ()>(o),
                None => res == Err::<Self, ()>(()),
            },
    {
        if str_eq(input, "lowercase") {
            Ok(RenameSerdeOptions::LowerCase)
        } else if str_eq(input, "UPPERCASE") {
            Ok(RenameSerdeOptions::UpperCase)
        } else if str_eq(input, "PascalCase") {
            Ok(RenameSerdeOptions::PascalCase)
        } else if str_eq(input, "camelCase") {
            Ok(RenameSerdeOptions::CamelCase)
        } else if str_eq(input, "snake_case") {
            Ok(RenameSerdeOptions::SnakeCase)
        } else if str_eq(input, "SCREAMING_SNAKE_CASE") {
            Ok(RenameSerdeOptions::ScreamingSnakeCase)
        } else if str_eq(input, "kebab-case") {
            Ok(RenameSerdeOptions::KebabCase)
        } else if str_eq(input, "SCREAMING-KEBAB-CASE") {
            Ok(RenameSerdeOptions::ScreamingKebabCase)
        } else {
            Err(())
        }
    }

    /// The name after the renaming rule.
    pub fn transform(&self, input: String) -> (res: String)
        ensures
            res@ == spec_transform(*self, input@),
    {
        match self {
            RenameSerdeOptions::LowerCase => to_lowercase(input.as_str()),
            RenameSerdeOptions::UpperCase => to_uppercase(input.as_str()),
            RenameSerdeOptions::CamelCase => to_case(input.as_str(), TargetCase::Camel),
            RenameSerdeOptions::PascalCase => to_case(input.as_str(), TargetCase::Pascal),
            _ => input,
        }
    }
}

/// serde's rule names select their rules: `lowercase` makes ASCII names
/// small, `UPPERCASE` makes them capital, `camelCase` and `PascalCase`
/// convert the case, and the snake and kebab rules are recognised but keep
/// the name as it is.
pub proof fn law_rename_rules(s: Seq<char>)
    ensures
        spec_rename_from_str("lowercase"@) == Some(RenameSerdeOptions::LowerCase),
        spec_rename_from_str("UPPERCASE"@) == Some(RenameSerdeOptions::UpperCase),
        spec_rename_from_str("PascalCase"@) == Some(RenameSerdeOptions::PascalCase),
        spec_rename_from_str("camelCase"@) == Some(RenameSerdeOptions::CamelCase),
        spec_rename_from_str("snake_case"@) == Some(RenameSerdeOptions::SnakeCase),
        spec_rename_from_str("SCREAMING_SNAKE_CASE"@) == Some(RenameSerdeOptions::ScreamingSnakeCase),
        spec_rename_from_str("kebab-case"@) == Some(RenameSerdeOptions::KebabCase),
        spec_rename_from_str("SCREAMING-KEBAB-CASE"@) == Some(RenameSerdeOptions::ScreamingKebabCase),
        is_ascii_seq(s) ==> spec_transform(RenameSerdeOptions::LowerCase, s) == ascii_lower(s),
        is_ascii_seq(s) ==> spec_transform(RenameSerdeOptions::UpperCase, s) == ascii_upper(s),
        spec_transform(RenameSerdeOptions::CamelCase, s) == converted_case(s, TargetCase::Camel),
        spec_transform(RenameSerdeOptions::PascalCase, s) == converted_case(s, TargetCase::Pascal),
        spec_transform(RenameSerdeOptions::SnakeCase, s) == s,
        spec_transform(RenameSerdeOptions::ScreamingSnakeCase, s) == s,
        spec_transform(RenameSerdeOptions::KebabCase, s) == s,
        spec_transform(RenameSerdeOptions::ScreamingKebabCase, s) == s,
        spec_transform(RenameSerdeOptions::Unset, s) == s,
{
    reveal_strlit("lowercase");
    reveal_strlit("UPPERCASE");
    reveal_strlit("PascalCase");
    reveal_strlit("camelCase");
    reveal_strlit("snake_case");
    reveal_strlit("SCREAMING_SNAKE_CASE");
    reveal_strlit("kebab-case");
    reveal_strlit("SCREAMING-KEBAB-CASE");
    assert("lowercase"@[0] == 'l' && "UPPERCASE"@[0] == 'U' && "camelCase"@[0] == 'c');
    assert("PascalCase"@[0] == 'P' && "snake_case"@[0] == 's' && "kebab-case"@[0] == 'k');
    assert("UPPERCASE"@ != "lowercase"@) by {
        assert("UPPERCASE"@[0] != "lowercase"@[0]);
    }
    assert("camelCase"@ != "lowercase"@ && "camelCase"@ != "UPPERCASE"@) by {
        assert("camelCase"@[0] != "lowercase"@[0]);
        assert("camelCase"@[0] != "UPPERCASE"@[0]);
    }
    assert("snake_case"@ != "PascalCase"@) by {
        assert("snake_case"@[0] != "PascalCase"@[0]);
    }
    assert("kebab-case"@ != "PascalCase"@ && "kebab-case"@ != "snake_case"@) by {
        assert("kebab-case"@[0] != "PascalCase"@[0]);
        assert("kebab-case"@[0] != "snake_case"@[0]);
    }
    assert("SCREAMING-KEBAB-CASE"@ != "SCREAMING_SNAKE_CASE"@) by {
        assert("SCREAMING-KEBAB-CASE"@[9] != "SCREAMING_SNAKE_CASE"@[9]);
    }
}

impl Default for RenameSerdeOptions {
    fn default() -> (res: Self)
        ensures
            res == RenameSerdeOptions::Unset,
    {
        RenameSerdeOptions::Unset
    }
}

// ---------------------------------------------------------------------------
// Declarations
// ---------------------------------------------------------------------------

/// The names of the type parameters, in order.
pub open spec fn type_param_names(params: Seq<Option<String>>) -> Seq<Seq<char>>
    decreases params.len(),
{
    if params.len() == 0 {
        Seq::empty()
    } else {
        let rest = type_param_names(params.drop_last());
        match params.last() {
            Some(n) => if n@.len() > 0 {
                rest.push(n@)
            } else {
                rest
            },
            None => rest,
        }
    }
}

/// `<A, B>` for the type parameters, or nothing when there are none.
pub open spec fn generics_ts(params: Seq<Option<String>>) -> Seq<char> {
    let names = type_param_names(params);
    if names.len() > 0 {
        "<"@ + join_with(names, ", "@) + ">"@
    } else {
        Seq::empty()
    }
}

/// The name of a field: its `#[serde(rename = "...")]` when non-empty, else
/// its identifier, else `unknown`.
pub open spec fn spec_field_name(f: FieldModel) -> Seq<char> {
    match serde_attr(f.attrs@, "rename"@) {
        Some(v) if v.len() > 0 => v,
        _ => match f.ident {
            Some(i) => i@,
            None => "unknown"@,
        },
    }
}

/// The lines of the fields that are not skipped.
pub open spec fn struct_body(fields: Seq<FieldModel>, opt: RenameSerdeOptions) -> Seq<char>
    decreases fields.len(),
{
    if fields.len() == 0 {
        Seq::empty()
    } else {
        let f = fields.last();
        let rest = struct_body(fields.drop_last(), opt);
        if skips(f.attrs@) {
            rest
        } else {
            rest + "  "@ + spec_transform(opt, spec_field_name(f)) + ": "@ + ts_type(f.ty) + ";\n"@
        }
    }
}

/// The type of every field that serde does not skip is convertible
/// (skipped fields are not written).
pub open spec fn fields_convertible(fields: Seq<FieldModel>) -> bool {
    forall|i: int| 0 <= i < fields.len() && !skips(#[trigger] fields[i].attrs@) ==> ts_convertible(fields[i].ty)
}

/// The name of a struct and its TypeScript interface.
pub open spec fn spec_parse_struct(s: StructModel) -> (Seq<char>, Seq<char>) {
    (
        s.ident@,
        "export interface "@ + s.ident@ + generics_ts(s.generics@) + " {\n"@ + struct_body(
            s.fields@,
            spec_rename_option(s.attrs@),
        ) + "}\n"@,
    )
}

/// The quoted names of the variants that are not skipped.
pub open spec fn variant_names(vs: Seq<VariantModel>, opt: RenameSerdeOptions) -> Seq<Seq<char>>
    decreases vs.len(),
{
    if vs.len() == 0 {
        Seq::empty()
    } else {
        let rest = variant_names(vs.drop_last(), opt);
        let v = vs.last();
        if skips(v.attrs@) {
            rest
        } else {
            rest.push("\""@ + spec_transform(opt, v.ident@) + "\""@)
        }
    }
}

/// The name of an enum and its TypeScript union type.
pub open spec fn spec_parse_enum(e: EnumModel) -> (Seq<char>, Seq<char>) {
    (
        e.ident@,
        "export type "@ + e.ident@ + " = "@ + join_with(
            variant_names(e.variants@, spec_rename_option(e.attrs@)),
            " | "@,
        ),
    )
}


// ---------------------------------------------------------------------------
// Generation
// ---------------------------------------------------------------------------

/// Whether `n` names a Rust number type.
fn is_number_name_exec(n: &str) -> (res: bool)
    ensures
        res == is_number_name(n@),
{
    str_eq(n, "i8") || str_eq(n, "i16") || str_eq(n, "i32") || str_eq(n, "i64") || str_eq(n, "i128")
        || str_eq(n, "u8") || str_eq(n, "u16") || str_eq(n, "u32") || str_eq(n, "u64") || str_eq(
        n,
        "f32",
    ) || str_eq(n, "f64") || str_eq(n, "isize") || str_eq(n, "usize")
}

/// The TypeScript name of a Rust type name.
pub fn type_to_typescript(name: &str) -> (res: String)
    ensures
        res@ == ts_of_name(name@),
{
    if is_number_name_exec(name) {
        owned("number")
    } else if str_eq(name, "str") || str_eq(name, "String") || str_eq(name, "char") {
        owned("string")
    } else if str_eq(name, "bool") {
        owned("boolean")
    } else {
        owned(name)
    }
}

/// The names that the generic arguments stand for.
pub(crate) fn inner_type_names_exec(args: &Vec<GenericArg>) -> (res: Vec<String>)
    ensures
        views(res@) == inner_type_names(args@),
{
    let mut res: Vec<String> = Vec::new();
    assert(args@.take(0) =~= Seq::<GenericArg>::empty());
    for i in 0..args.len()
        invariant
            views(res@) == inner_type_names(args@.take(i as int)),
    {
        assert(args@.take(i + 1).drop_last() =~= args@.take(i as int));
        assert(args@.take(i + 1).last() == args@[i as int]);
        let ghost before = res@;
        match &args[i] {
            GenericArg::TypePath(s) => {
                res.push(s.clone());
                assert(views(res@) =~= views(before).push(s@));
            },
            GenericArg::RefToPath(s) => {
                res.push(s.clone());
                assert(views(res@) =~= views(before).push(s@));
            },
            GenericArg::OtherType => {
                let u = owned("unknown");
                res.push(u);
                assert(views(res@) =~= views(before).push(u@));
            },
            GenericArg::NotAType => {},
        }
    }
    assert(args@.take(args@.len() as int) =~= args@);
    res
}

/// `Option`, `Vec` and the maps, with their argument names.
fn generic_ts_exec(outer: &str, inner: &Vec<String>) -> (res: String)
    requires
        generic_args_suffice(outer@, views(inner@)),
    ensures
        res@ == generic_ts(outer@, views(inner@)),
{
    if str_eq(outer, "Option") {
        assert(views(inner@)[0] == inner@[0]@);
        let t = type_to_typescript(inner[0].as_str());
        concat_str(t.as_str(), " | null")
    } else if str_eq(outer, "Vec") {
        assert(views(inner@)[0] == inner@[0]@);
        let t = type_to_typescript(inner[0].as_str());
        concat_str(t.as_str(), "[]")
    } else if str_eq(outer, "HashMap") || str_eq(outer, "BTreeMap") {
        assert(views(inner@)[0] == inner@[0]@);
        assert(views(inner@)[1] == inner@[1]@);
        let k = type_to_typescript(inner[0].as_str());
        let v = type_to_typescript(inner[1].as_str());
        let s = concat_str("Record<", k.as_str());
        let s = concat_str(s.as_str(), ", ");
        let s = concat_str(s.as_str(), v.as_str());
        concat_str(s.as_str(), ">")
    } else {
        owned("unknown")
    }
}

proof fn lemma_all_convertible(tys: Seq<RustType>, i: int)
    requires
        all_ts_convertible(tys),
        0 <= i < tys.len(),
    ensures
        ts_convertible(tys[i]),
    decreases tys.len(),
{
    if i < tys.len() - 1 {
        lemma_all_convertible(tys.drop_last(), i);
    }
}

/// The TypeScript form of a Rust type: tuples as tuples, `Option<T>` as
/// `T | null`, `Vec<T>` as `T[]`, maps as `Record<K, V>`, other generic
/// paths as `unknown`, and plain names mapped by `type_to_typescript`.
pub fn rust_to_typescript_type(ty: &RustType) -> (res: String)
    requires
        ts_convertible(*ty),
    ensures
        res@ == ts_type(*ty),
    decreases ty,
{
    match ty {
        RustType::Tuple(elems) => {
            let mut parts: Vec<String> = Vec::new();
            assert(elems@.take(0) =~= Seq::<RustType>::empty());
            for i in 0..elems.len()
                invariant
                    *ty == RustType::Tuple(*elems),
                    all_ts_convertible(elems@),
                    views(parts@) == ts_types(elems@.take(i as int)),
            {
                proof {
                    lemma_all_convertible(elems@, i as int);
                    assert(decreases_to!(*ty => (*ty)->Tuple_0));
                    assert((*ty)->Tuple_0 == *elems);
                    assert(decreases_to!(*elems => elems@));
                    assert(decreases_to!(elems@ => elems@[i as int]));
                    assert(decreases_to!(*ty => elems@[i as int]));
                }
                let t = rust_to_typescript_type(&elems[i]);
                assert(elems@.take(i + 1).drop_last() =~= elems@.take(i as int));
                assert(elems@.take(i + 1).last() == elems@[i as int]);
                let ghost before = parts@;
                parts.push(t);
                assert(views(parts@) =~= views(before).push(t@));
            }
            assert(elems@.take(elems@.len() as int) =~= elems@);
            let joined = join_strings(&parts, parts.len(), ", ");
            assert(views(parts@).take(parts@.len() as int) =~= views(parts@));
            let s = concat_str("[", joined.as_str());
            concat_str(s.as_str(), "]")
        },
        RustType::Path(None) => owned("unknown"),
        RustType::Path(Some(end)) => match &end.args {
            None => type_to_typescript(end.ident.as_str()),
            Some(args) => {
                let inner = inner_type_names_exec(args);
                generic_ts_exec(end.ident.as_str(), &inner)
            },
        },
        RustType::Reference(Some(id)) => type_to_typescript(id.as_str()),
        RustType::Reference(None) => owned("unknown"),
        RustType::Other => owned("unknown"),
    }
}


/// `<A, B>` for the type parameters, or an empty string when there are none.
pub fn parse_generics_to_typescript_string(generics: &Vec<Option<String>>) -> (res: String)
    ensures
        res@ == generics_ts(generics@),
{
    let mut names: Vec<String> = Vec::new();
    assert(generics@.take(0) =~= Seq::<Option<String>>::empty());
    for i in 0..generics.len()
        invariant
            views(names@) == type_param_names(generics@.take(i as int)),
    {
        assert(generics@.take(i + 1).drop_last() =~= generics@.take(i as int));
        assert(generics@.take(i + 1).last() == generics@[i as int]);
        match &generics[i] {
            Some(n) => {
                if !n.as_str().is_empty() {
                    let ghost before = names@;
                    names.push(n.clone());
                    assert(views(names@) =~= views(before).push(n@));
                } else {
                    assert(n@.len() == 0);
                }
            },
            None => {},
        }
    }
    assert(generics@.take(generics@.len() as int) =~= generics@);
    if names.len() > 0 {
        let joined = join_strings(&names, names.len(), ", ");
        assert(views(names@).take(names@.len() as int) =~= views(names@));
        let s = concat_str("<", joined.as_str());
        concat_str(s.as_str(), ">")
    } else {
        proof {
            reveal_strlit("");
        }
        let e = String::new();
        e
    }
}

/// The value that the first `#[serde(name = "...")]` among the attributes
/// assigns, whatever other attributes come before it (`None` when none
/// does).  A caller turns it
/// into its type with `from_str`, using the type's default where it fails.
pub fn parse_serde_attribute(attrs: &Vec<AttrModel>, name: &str) -> (res: Option<String>)
    ensures
        match serde_attr(attrs@, name@) {
            Some(v) => res matches Some(r) && r@ == v,
            None => res is None,
        },
{
    proof {
        reveal_strlit("serde");
    }
    let mut i: usize = 0;
    assert(attrs@.skip(0) =~= attrs@);
    while i < attrs.len()
        invariant
            i <= attrs@.len(),
            serde_attr(attrs@, name@) == serde_attr(attrs@.skip(i as int), name@),
        decreases attrs.len() - i,
    {
        let a = &attrs[i];
        assert(attrs@.skip(i as int)[0] == attrs@[i as int]);
        assert(attrs@.skip(i as int).skip(1) =~= attrs@.skip(i + 1));
        let is_serde = match &a.path_ident {
            Some(p) => str_eq(p.as_str(), "serde"),
            None => false,
        };
        if is_serde {
            match &a.args_expr {
                Some(ExprModel::Assign(Operand::Path(Some(x)), Operand::LitStr(v))) => {
                    if str_eq(x.as_str(), name) {
                        return Some(v.clone());
                    }
                },
                _ => {},
            }
        }
        i = i + 1;
    }
    None
}

/// Whether serde skips the element: `#[serde(skip)]` or
/// `#[serde(skip_serializing)]`.
pub fn should_skip_element(attrs: &Vec<AttrModel>) -> (res: bool)
    ensures
        res == skips(attrs@),
{
    proof {
        reveal_strlit("serde");
    }
    for i in 0..attrs.len()
        invariant
            forall|j: int| 0 <= j < i ==> !is_skip_attr(#[trigger] attrs@[j]),
    {
        let a = &attrs[i];
        let is_serde = match &a.path_ident {
            Some(p) => str_eq(p.as_str(), "serde"),
            None => false,
        };
        if is_serde {
            match &a.args_ident {
                Some(m) => {
                    if str_eq(m.as_str(), "skip") || str_eq(m.as_str(), "skip_serializing") {
                        assert(is_skip_attr(attrs@[i as int]));
                        return true;
                    }
                },
                None => {},
            }
        }
    }
    false
}

/// The name of a field: its non-empty `#[serde(rename = "...")]`, else its
/// identifier, else `unknown`.
pub fn get_field_name(field: &FieldModel) -> (res: String)
    ensures
        res@ == spec_field_name(*field),
{
    match parse_serde_attribute(&field.attrs, "rename") {
        Some(v) => {
            if !v.as_str().is_empty() {
                return v;
            }
        },
        None => {},
    }
    match &field.ident {
        Some(i) => i.clone(),
        None => owned("unknown"),
    }
}

/// The renaming rule of the attributes' `rename_all`.
pub fn rename_option_of(attrs: &Vec<AttrModel>) -> (res: RenameSerdeOptions)
    ensures
        res == spec_rename_option(attrs@),
{
    match parse_serde_attribute(attrs, "rename_all") {
        Some(v) => match RenameSerdeOptions::from_str(v.as_str()) {
            Ok(o) => o,
            Err(_) => RenameSerdeOptions::Unset,
        },
        None => RenameSerdeOptions::Unset,
    }
}

/// The name of a struct and its TypeScript interface: one line per field
/// that serde does not skip, with the field's (renamed) name and type.
pub fn parse_struct(element: &StructModel) -> (res: (String, String))
    requires
        fields_convertible(element.fields@),
    ensures
        res.0@ == spec_parse_struct(*element).0,
        res.1@ == spec_parse_struct(*element).1,
{
    let struct_name = element.ident.clone();
    let generics = parse_generics_to_typescript_string(&element.generics);
    let s = concat_str("export interface ", struct_name.as_str());
    let s = concat_str(s.as_str(), generics.as_str());
    let mut out = concat_str(s.as_str(), " {\n");
    let ghost head = out@;
    let rename_option = rename_option_of(&element.attrs);
    let fields = &element.fields;
    assert(fields@.take(0) =~= Seq::<FieldModel>::empty());
    for i in 0..fields.len()
        invariant
            fields == &element.fields,
            fields_convertible(fields@),
            out@ == head + struct_body(fields@.take(i as int), rename_option),
    {
        let field = &fields[i];
        assert(fields@.take(i + 1).drop_last() =~= fields@.take(i as int));
        assert(fields@.take(i + 1).last() == fields@[i as int]);
        if !should_skip_element(&field.attrs) {
            assert(ts_convertible(fields@[i as int].ty));
            let name = get_field_name(field);
            let ty = rust_to_typescript_type(&field.ty);
            let name = rename_option.transform(name);
            out.append("  ");
            out.append(name.as_str());
            out.append(": ");
            out.append(ty.as_str());
            out.append(";\n");
        }
    }
    assert(fields@.take(fields@.len() as int) =~= fields@);
    out.append("}\n");
    (struct_name, out)
}

/// The name of an enum and its TypeScript union of the (renamed) names of
/// the variants that serde does not skip.
pub fn parse_enum(element: &EnumModel) -> (res: (String, String))
    ensures
        res.0@ == spec_parse_enum(*element).0,
        res.1@ == spec_parse_enum(*element).1,
{
    let enum_name = element.ident.clone();
    let rename_option = rename_option_of(&element.attrs);
    let vs = &element.variants;
    let mut names: Vec<String> = Vec::new();
    assert(vs@.take(0) =~= Seq::<VariantModel>::empty());
    for i in 0..vs.len()
        invariant
            vs == &element.variants,
            views(names@) == variant_names(vs@.take(i as int), rename_option),
    {
        let v = &vs[i];
        assert(vs@.take(i + 1).drop_last() =~= vs@.take(i as int));
        assert(vs@.take(i + 1).last() == vs@[i as int]);
        if !should_skip_element(&v.attrs) {
            let n = rename_option.transform(v.ident.clone());
            let q = concat_str("\"", n.as_str());
            let q = concat_str(q.as_str(), "\"");
            let ghost before = names@;
            names.push(q);
            assert(views(names@) =~= views(before).push(q@));
        }
    }
    assert(vs@.take(vs@.len() as int) =~= vs@);
    let joined = join_strings(&names, names.len(), " | ");
    assert(views(names@).take(names@.len() as int) =~= views(names@));
    let s = concat_str("export type ", enum_name.as_str());
    let s = concat_str(s.as_str(), " = ");
    (enum_name, concat_str(s.as_str(), joined.as_str()))
}

/// Whether some attribute is a `#[derive(...)]` that names `Type`.
pub fn has_derive_type(attrs: &Vec<AttrModel>) -> (res: bool)
    ensures
        res == has_type_derive(attrs@),
{
    proof {
        reveal_strlit("derive");
    }
    for i in 0..attrs.len()
        invariant
            forall|j: int| 0 <= j < i ==> !derives_type(#[trigger] attrs@[j]),
    {
        let a = &attrs[i];
        let is_derive = match &a.list_path_ident {
            Some(Some(p)) => str_eq(p.as_str(), "derive"),
            _ => false,
        };
        if is_derive {
            let metas = &a.list_metas;
            for j in 0..metas.len()
                invariant
                    i < attrs@.len(),
                    metas == &attrs@[i as int].list_metas,
                    attrs@[i as int].list_path_ident matches Some(Some(p)) && p@ == "derive"@,
                    forall|j: int| 0 <= j < i ==> !derives_type(#[trigger] attrs@[j]),
                    forall|k: int| 0 <= k < j ==> !(#[trigger] metas@[k] matches Some(Some(m)) && m@
                        == "Type"@),
            {
                match &metas[j] {
                    Some(Some(m)) => {
                        if str_eq(m.as_str(), "Type") {
                            assert(derives_type(attrs@[i as int]));
                            return true;
                        }
                    },
                    _ => {},
                }
            }
        }
    }
    false
}

} // verus!
