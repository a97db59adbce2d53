//! The parts of Rust source that the type and middleware generators read,
//! held as plain values, and the walk that reads them from a file parsed by
//! `syn`.
use vstd::prelude::*;

verus! {

// ---------------------------------------------------------------------------
// The model
// ---------------------------------------------------------------------------

/// One side of an `a = b` attribute argument.
pub enum Operand {
    /// A path, with its identifier when the path is a single identifier.
    Path(Option<String>),
    /// A string literal, by its value.
    LitStr(String),
    /// Any other expression.
    Other,
}

/// An attribute argument parsed as an expression.
pub enum ExprModel {
    /// `left = right`.
    Assign(Operand, Operand),
    /// Any other expression.
    NotAssign,
}

/// What the generators read of an attribute `#[path(args)]`.
pub struct AttrModel {
    /// The attribute path, when it is a single identifier.
    pub path_ident: Option<String>,
    /// The identifiers of the path segments.
    pub path_segments: Vec<String>,
    /// The arguments parsed as one identifier, when they are one.
    pub args_ident: Option<String>,
    /// The arguments parsed as one expression, when they are one.
    pub args_expr: Option<ExprModel>,
    /// For a list attribute `#[path(...)]`: its path's identifier, if single.
    pub list_path_ident: Option<Option<String>>,
    /// The arguments parsed as a comma-separated list of metas (empty when
    /// they are not): for each, `Some(ident)` when it is a bare path (with the
    /// path's identifier, if single), `None` otherwise.
    pub list_metas: Vec<Option<Option<String>>>,
}

/// A generic argument `<..., T, ...>` of a path segment.
pub enum GenericArg {
    /// A type that is a path: the identifier of its first segment.
    TypePath(String),
    /// A reference to a path type: the identifier of its first segment.
    RefToPath(String),
    /// Any other type.
    OtherType,
    /// A lifetime, constant or other argument that is not a type.
    NotAType,
}

/// The last segment of a type path.
pub struct PathEnd {
    pub ident: String,
    /// The angle-bracketed arguments, when the segment has them.
    pub args: Option<Vec<GenericArg>>,
}

/// A type as the type generator reads it.
pub enum RustType {
    /// `(A, B, ...)`.
    Tuple(Vec<RustType>),
    /// A path type, by its last segment.
    Path(Option<PathEnd>),
    /// `&T`: when `T` is a path, the identifier of its last segment.
    Reference(Option<String>),
    /// Any other type.
    Other,
}

/// A struct field.
pub struct FieldModel {
    pub ident: Option<String>,
    pub attrs: Vec<AttrModel>,
    pub ty: RustType,
}

/// A struct: its name, attributes, generic parameters (`Some(name)` for a
/// type parameter, `None` for a lifetime or constant) and fields.
pub struct StructModel {
    pub ident: String,
    pub attrs: Vec<AttrModel>,
    pub generics: Vec<Option<String>>,
    pub fields: Vec<FieldModel>,
}

/// An enum variant.
pub struct VariantModel {
    pub ident: String,
    pub attrs: Vec<AttrModel>,
}

/// An enum: its name, attributes and variants.
pub struct EnumModel {
    pub ident: String,
    pub attrs: Vec<AttrModel>,
    pub variants: Vec<VariantModel>,
}

/// A function: its name and attributes.
pub struct FnModel {
    pub ident: String,
    pub attrs: Vec<AttrModel>,
}

/// A top-level item of a source file.
pub enum ItemModel {
    Struct(StructModel),
    Enum(EnumModel),
    Fn(FnModel),
    Other,
}

// ---------------------------------------------------------------------------
// The parsed syntax tree
//
// `syn`'s tree is opaque here. The readers below each take one part of it
// (a field, a parse, or which variant a node is) and state nothing of what
// they return. The walk that assembles the model from them is verified
// code; what `syn::parse_file` and that walk give for a source is named
// `source_items`.
// ---------------------------------------------------------------------------

#[verifier::external_type_specification]
#[verifier::external_body]
pub struct ExSynItem(syn::Item);

#[verifier::external_type_specification]
#[verifier::external_body]
pub struct ExSynItemStruct(syn::ItemStruct);

#[verifier::external_type_specification]
#[verifier::external_body]
pub struct ExSynItemEnum(syn::ItemEnum);

#[verifier::external_type_specification]
#[verifier::external_body]
pub struct ExSynItemFn(syn::ItemFn);

#[verifier::external_type_specification]
#[verifier::external_body]
pub struct ExSynVariant(syn::Variant);

#[verifier::external_type_specification]
#[verifier::external_body]
pub struct ExSynField(syn::Field);

#[verifier::external_type_specification]
#[verifier::external_body]
pub struct ExSynType(syn::Type);

#[verifier::external_type_specification]
#[verifier::external_body]
pub struct ExSynPath(syn::Path);

#[verifier::external_type_specification]
#[verifier::external_body]
pub struct ExSynPathSegment(syn::PathSegment);

#[verifier::external_type_specification]
#[verifier::external_body]
pub struct ExSynGenericArgument(syn::GenericArgument);

#[verifier::external_type_specification]
#[verifier::external_body]
pub struct ExSynAttribute(syn::Attribute);

#[verifier::external_type_specification]
#[verifier::external_body]
pub struct ExSynExpr(syn::Expr);

#[verifier::external_type_specification]
#[verifier::external_body]
pub struct ExSynMeta(syn::Meta);


/// An item of the parsed tree, told apart by kind.
pub enum ItemNode {
    Struct(syn::ItemStruct),
    Enum(syn::ItemEnum),
    Fn(syn::ItemFn),
    Other,
}

/// A type of the parsed tree, told apart by kind.
pub enum TypeNode {
    /// The element types of a tuple type.
    Tuple(Vec<syn::Type>),
    /// The path of a path type.
    Path(syn::Path),
    /// The referenced type of a reference type.
    Reference(syn::Type),
    Other,
}

/// An attribute argument expression, told apart by kind.
pub enum ExprNode {
    /// The left and right sides of an assignment.
    Assign(syn::Expr, syn::Expr),
    /// A path expression, with its identifier when it is a single one.
    Path(Option<String>),
    /// A string literal, by its value.
    LitStr(String),
    Other,
}

/// The kind of a `syn::Item`, with its content for structs, enums and functions.
#[verifier::external_body]
fn classify_item(item: &syn::Item) -> ItemNode {
    match item {
        syn::Item::Struct(s) => ItemNode::Struct(s.clone()),
        syn::Item::Enum(e) => ItemNode::Enum(e.clone()),
        syn::Item::Fn(f) => ItemNode::Fn(f.clone()),
        _ => ItemNode::Other,
    }
}

/// The name of a struct (`ItemStruct::ident`).
#[verifier::external_body]
fn struct_ident(s: &syn::ItemStruct) -> String {
    s.ident.to_string()
}

/// The attributes of a struct (`ItemStruct::attrs`).
#[verifier::external_body]
fn struct_attrs(s: &syn::ItemStruct) -> Vec<syn::Attribute> {
    s.attrs.clone()
}

/// The generic parameters of a struct (`Generics::params`): the name of each
/// type parameter, `None` for a lifetime or constant parameter.
#[verifier::external_body]
fn struct_type_params(s: &syn::ItemStruct) -> Vec<Option<String>> {
    s.generics.params.iter().map(|p| match p {
        syn::GenericParam::Type(t) => Some(t.ident.to_string()),
        _ => None,
    }).collect()
}

/// The fields of a struct (`ItemStruct::fields`), in order.
#[verifier::external_body]
fn struct_fields(s: &syn::ItemStruct) -> Vec<syn::Field> {
    s.fields.iter().cloned().collect()
}

/// The name of an enum (`ItemEnum::ident`).
#[verifier::external_body]
fn enum_ident(e: &syn::ItemEnum) -> String {
    e.ident.to_string()
}

/// The attributes of an enum (`ItemEnum::attrs`).
#[verifier::external_body]
fn enum_attrs(e: &syn::ItemEnum) -> Vec<syn::Attribute> {
    e.attrs.clone()
}

/// The variants of an enum (`ItemEnum::variants`), in order.
#[verifier::external_body]
fn enum_variants(e: &syn::ItemEnum) -> Vec<syn::Variant> {
    e.variants.iter().cloned().collect()
}

/// The name of a variant (`Variant::ident`).
#[verifier::external_body]
fn variant_ident(v: &syn::Variant) -> String {
    v.ident.to_string()
}

/// The attributes of a variant (`Variant::attrs`).
#[verifier::external_body]
fn variant_attrs(v: &syn::Variant) -> Vec<syn::Attribute> {
    v.attrs.clone()
}

/// The name of a function (`Signature::ident`).
#[verifier::external_body]
fn fn_ident(f: &syn::ItemFn) -> String {
    f.sig.ident.to_string()
}

/// The attributes of a function (`ItemFn::attrs`).
#[verifier::external_body]
fn fn_attrs(f: &syn::ItemFn) -> Vec<syn::Attribute> {
    f.attrs.clone()
}

/// The name of a field (`Field::ident`), `None` for a tuple field.
#[verifier::external_body]
fn field_ident(f: &syn::Field) -> Option<String> {
    f.ident.as_ref().map(|i| i.to_string())
}

/// The attributes of a field (`Field::attrs`).
#[verifier::external_body]
fn field_attrs(f: &syn::Field) -> Vec<syn::Attribute> {
    f.attrs.clone()
}

/// The type of a field (`Field::ty`).
#[verifier::external_body]
fn field_type(f: &syn::Field) -> syn::Type {
    f.ty.clone()
}

/// The kind of a `syn::Type`, with the parts the type generator reads.
#[verifier::external_body]
fn type_node(ty: &syn::Type) -> TypeNode {
    match ty {
        syn::Type::Tuple(t) => TypeNode::Tuple(t.elems.iter().cloned().collect()),
        syn::Type::Path(p) => TypeNode::Path(p.path.clone()),
        syn::Type::Reference(r) => TypeNode::Reference((*r.elem).clone()),
        _ => TypeNode::Other,
    }
}

/// The last segment of a path (`Punctuated::last`).
#[verifier::external_body]
fn path_last_segment(p: &syn::Path) -> Option<syn::PathSegment> {
    p.segments.last().cloned()
}

/// The identifier of the first segment of a path (`Punctuated::first`).
#[verifier::external_body]
fn path_first_ident(p: &syn::Path) -> Option<String> {
    p.segments.first().map(|s| s.ident.to_string())
}

/// The identifier of a path segment (`PathSegment::ident`).
#[verifier::external_body]
fn segment_ident(s: &syn::PathSegment) -> String {
    s.ident.to_string()
}

/// The angle-bracketed arguments of a path segment, if it has them.
#[verifier::external_body]
fn segment_generic_args(s: &syn::PathSegment) -> Option<Vec<syn::GenericArgument>> {
    match &s.arguments {
        syn::PathArguments::AngleBracketed(a) => Some(a.args.iter().cloned().collect()),
        _ => None,
    }
}

/// The type of a generic argument, when it is a type.
#[verifier::external_body]
fn generic_arg_type(a: &syn::GenericArgument) -> Option<syn::Type> {
    match a {
        syn::GenericArgument::Type(t) => Some(t.clone()),
        _ => None,
    }
}

/// The identifier of an attribute's path when it is a single identifier
/// (`Path::get_ident` of `Attribute::path`).
#[verifier::external_body]
fn attr_path_ident(a: &syn::Attribute) -> Option<String> {
    a.path().get_ident().map(|i| i.to_string())
}

/// The identifiers of an attribute's path segments.
#[verifier::external_body]
fn attr_path_segments(a: &syn::Attribute) -> Vec<String> {
    a.path().segments.iter().map(|s| s.ident.to_string()).collect()
}

/// `Attribute::parse_args::<Ident>`: the arguments as one identifier.
#[verifier::external_body]
fn attr_args_ident(a: &syn::Attribute) -> Option<String> {
    a.parse_args::<syn::Ident>().ok().map(|i| i.to_string())
}

/// `Attribute::parse_args::<Expr>`: the arguments as one expression.
#[verifier::external_body]
fn attr_args_expr(a: &syn::Attribute) -> Option<syn::Expr> {
    a.parse_args::<syn::Expr>().ok()
}

/// For a list attribute (`Meta::List`), its path's identifier if single.
#[verifier::external_body]
fn attr_list_path_ident(a: &syn::Attribute) -> Option<Option<String>> {
    match &a.meta {
        syn::Meta::List(l) => Some(l.path.get_ident().map(|i| i.to_string())),
        _ => None,
    }
}

/// `Attribute::parse_args_with(Punctuated::<Meta, Token![,]>::parse_terminated)`:
/// the arguments as a comma-separated list of metas, empty when they are not.
#[verifier::external_body]
fn attr_args_metas(a: &syn::Attribute) -> Vec<syn::Meta> {
    a.parse_args_with(syn::punctuated::Punctuated::<syn::Meta, syn::token::Comma>::parse_terminated)
        .map(|p| p.into_iter().collect())
        .unwrap_or_default()
}

/// For a bare path meta (`Meta::Path`), its identifier if single.
#[verifier::external_body]
fn meta_path_ident(m: &syn::Meta) -> Option<Option<String>> {
    match m {
        syn::Meta::Path(p) => Some(p.get_ident().map(|i| i.to_string())),
        _ => None,
    }
}

/// The kind of an expression, with the parts the attribute reader reads.
#[verifier::external_body]
fn expr_node(e: &syn::Expr) -> ExprNode {
    match e {
        syn::Expr::Assign(a) => ExprNode::Assign((*a.left).clone(), (*a.right).clone()),
        syn::Expr::Path(p) => ExprNode::Path(p.path.get_ident().map(|i| i.to_string())),
        syn::Expr::Lit(syn::ExprLit { lit: syn::Lit::Str(s), .. }) => ExprNode::LitStr(s.value()),
        _ => ExprNode::Other,
    }
}

// ---------------------------------------------------------------------------
// The walk
// ---------------------------------------------------------------------------

fn read_operand(e: &syn::Expr) -> Operand {
    match expr_node(e) {
        ExprNode::Path(p) => Operand::Path(p),
        ExprNode::LitStr(s) => Operand::LitStr(s),
        _ => Operand::Other,
    }
}

fn read_expr(e: &syn::Expr) -> ExprModel {
    match expr_node(e) {
        ExprNode::Assign(l, r) => ExprModel::Assign(read_operand(&l), read_operand(&r)),
        _ => ExprModel::NotAssign,
    }
}

fn read_attr(a: &syn::Attribute) -> AttrModel {
    let metas = attr_args_metas(a);
    let mut list_metas: Vec<Option<Option<String>>> = Vec::new();
    for i in 0..metas.len() {
        list_metas.push(meta_path_ident(&metas[i]));
    }
    let args_expr = match attr_args_expr(a) {
        Some(e) => Some(read_expr(&e)),
        None => None,
    };
    AttrModel {
        path_ident: attr_path_ident(a),
        path_segments: attr_path_segments(a),
        args_ident: attr_args_ident(a),
        args_expr,
        list_path_ident: attr_list_path_ident(a),
        list_metas,
    }
}

/// One model per attribute, in order.
fn read_attrs(attrs: &Vec<syn::Attribute>) -> (res: Vec<AttrModel>)
    ensures
        res@.len() == attrs@.len(),
{
    let mut res: Vec<AttrModel> = Vec::new();
    for i in 0..attrs.len()
        invariant
            res@.len() == i,
    {
        res.push(read_attr(&attrs[i]));
    }
    res
}

/// The identifier of the first segment of a path type, or of the path type
/// that a reference points to.
fn read_generic_arg(a: &syn::GenericArgument) -> GenericArg {
    match generic_arg_type(a) {
        None => GenericArg::NotAType,
        Some(t) => match type_node(&t) {
            TypeNode::Path(p) => match path_first_ident(&p) {
                Some(id) => GenericArg::TypePath(id),
                None => GenericArg::OtherType,
            },
            TypeNode::Reference(inner) => match type_node(&inner) {
                TypeNode::Path(p) => match path_first_ident(&p) {
                    Some(id) => GenericArg::RefToPath(id),
                    None => GenericArg::OtherType,
                },
                _ => GenericArg::OtherType,
            },
            _ => GenericArg::OtherType,
        },
    }
}

/// Reads a type.  `depth` bounds the nesting of tuples that is read; the
/// callers pass the length of the source text, which no nesting reaches.
fn read_type(ty: &syn::Type, depth: usize) -> RustType
    decreases depth,
{
    match type_node(ty) {
        TypeNode::Tuple(elems) => {
            if depth == 0 {
                return RustType::Other;
            }
            let inner_depth = depth - 1;
            let mut res: Vec<RustType> = Vec::new();
            for i in 0..elems.len()
                invariant
                    inner_depth < depth,
            {
                res.push(read_type(&elems[i], inner_depth));
            }
            RustType::Tuple(res)
        },
        TypeNode::Path(p) => match path_last_segment(&p) {
            None => RustType::Path(None),
            Some(seg) => {
                let args = match segment_generic_args(&seg) {
                    None => None,
                    Some(args) => {
                        let mut res: Vec<GenericArg> = Vec::new();
                        for i in 0..args.len() {
                            res.push(read_generic_arg(&args[i]));
                        }
                        Some(res)
                    },
                };
                RustType::Path(Some(PathEnd { ident: segment_ident(&seg), args }))
            },
        },
        TypeNode::Reference(inner) => match type_node(&inner) {
            TypeNode::Path(p) => match path_last_segment(&p) {
                Some(seg) => RustType::Reference(Some(segment_ident(&seg))),
                None => RustType::Reference(None),
            },
            _ => RustType::Reference(None),
        },
        TypeNode::Other => RustType::Other,
    }
}

fn read_struct(s: &syn::ItemStruct, depth: usize) -> StructModel {
    let fields = struct_fields(s);
    let mut models: Vec<FieldModel> = Vec::new();
    for i in 0..fields.len() {
        let f = &fields[i];
        models.push(
            FieldModel {
                ident: field_ident(f),
                attrs: read_attrs(&field_attrs(f)),
                ty: read_type(&field_type(f), depth),
            },
        );
    }
    StructModel {
        ident: struct_ident(s),
        attrs: read_attrs(&struct_attrs(s)),
        generics: struct_type_params(s),
        fields: models,
    }
}

fn read_enum(e: &syn::ItemEnum) -> EnumModel {
    let variants = enum_variants(e);
    let mut models: Vec<VariantModel> = Vec::new();
    for i in 0..variants.len() {
        let v = &variants[i];
        models.push(VariantModel { ident: variant_ident(v), attrs: read_attrs(&variant_attrs(v)) });
    }
    EnumModel { ident: enum_ident(e), attrs: read_attrs(&enum_attrs(e)), variants: models }
}

/// The model of one top-level item; `depth` bounds the nesting of the
/// tuple types read.
fn read_item(item: &syn::Item, depth: usize) -> ItemModel {
    match classify_item(item) {
        ItemNode::Struct(s) => ItemModel::Struct(read_struct(&s, depth)),
        ItemNode::Enum(e) => ItemModel::Enum(read_enum(&e)),
        ItemNode::Fn(f) => ItemModel::Fn(FnModel { ident: fn_ident(&f), attrs: read_attrs(&fn_attrs(&f)) }),
        ItemNode::Other => ItemModel::Other,
    }
}

/// A name for what `syn::parse_file` reads a Rust source as, each top-level
/// item read into its model by `read_item`: `None` when the source does not
/// parse.
pub uninterp spec fn source_items(source: Seq<char>) -> Option<Seq<ItemModel>>;

/// `syn::parse_file`, with each item of the file handed to the verified
/// reader `read_item`; `None` for a parse error. The result is named by
/// `source_items`: it depends on the source alone.
#[verifier::external_body]
fn parse_file_items(source: &str) -> (res: Option<Vec<ItemModel>>)
    ensures
        match res {
            Some(v) => source_items(source@) == Some(v@),
            None => source_items(source@) is None,
        },
{
    let depth = source.len();
    syn::parse_file(source).ok().map(|f| f.items.iter().map(|i| read_item(i, depth)).collect())
}

/// The top-level items of a Rust source file, or `None` when it does not
/// parse.
pub fn parse_source_items(source: &str) -> (res: Option<Vec<ItemModel>>)
    ensures
        match res {
            Some(v) => source_items(source@) == Some(v@),
            None => source_items(source@) is None,
        },
{
    parse_file_items(source)
}

} // verus!
