//! The TypeScript declarations of the types of one Rust source file.
use vstd::prelude::*;
use crate::syntax::{source_items, ItemModel, StructModel, RustType, GenericArg, parse_source_items};
use crate::typescript::{skips, should_skip_element, spec_parse_struct, spec_parse_enum, has_type_derive, fields_convertible, ts_convertible, all_ts_convertible, generic_args_suffice, inner_type_names, parse_struct, parse_enum, has_derive_type, inner_type_names_exec};
use crate::text::{views, str_eq, owned};

verus! {

broadcast use vstd::string::group_string_axioms;

/// The TypeScript types found in a Rust file.
#[derive(Debug)]
pub struct FileTypes {
    /// The Rust file the types were found in.
    pub file_path: String,
    /// The declarations of all the types found, ready to be written.
    pub types_as_string: String,
    /// The names of the types found, to check for duplicates across files.
    pub types: Vec<String>,
}

/// A file's types as plain sequences.
pub struct FileTypesSpec {
    pub path: Seq<char>,
    pub text: Seq<char>,
    pub types: Seq<Seq<char>>,
}

impl View for FileTypes {
    type V = FileTypesSpec;

    open spec fn view(&self) -> FileTypesSpec {
        FileTypesSpec { path: self.file_path@, text: self.types_as_string@, types: views(self.types@) }
    }
}

/// Why a file yields no types.
#[derive(Debug, PartialEq, Eq, Structural, Clone, Copy)]
pub enum FileTypesError {
    /// The file is not valid Rust.
    Syntax,
    /// A type deriving `Type` has a field, not skipped by serde, whose type
    /// the generator cannot write (`Option` or `Vec` without a type argument, a map without two).
    UnsupportedType,
    /// No struct or enum in the file derives `Type`.
    NoTypes,
}

/// The declarations and names of the items that derive `Type`, in file
/// order; each enum's union type ends its statement with `;`.
pub open spec fn file_decls(items: Seq<ItemModel>) -> (Seq<char>, Seq<Seq<char>>)
    decreases items.len(),
{
    if items.len() == 0 {
        (Seq::empty(), Seq::empty())
    } else {
        let (text, names) = file_decls(items.drop_last());
        match items.last() {
            ItemModel::Struct(s) => if has_type_derive(s.attrs@) {
                (text + spec_parse_struct(s).1, names.push(spec_parse_struct(s).0))
            } else {
                (text, names)
            },
            ItemModel::Enum(e) => if has_type_derive(e.attrs@) {
                (text + spec_parse_enum(e).1 + ";\n"@, names.push(spec_parse_enum(e).0))
            } else {
                (text, names)
            },
            _ => (text, names),
        }
    }
}

/// A struct that derives `Type` has fields the generator can write, apart
/// from those serde skips.
pub open spec fn item_convertible(item: ItemModel) -> bool {
    match item {
        ItemModel::Struct(s) => has_type_derive(s.attrs@) ==> fields_convertible(s.fields@),
        _ => true,
    }
}

/// `ft` holds the types that the items declare.
pub open spec fn read_from(items: Seq<ItemModel>, ft: FileTypesSpec) -> bool {
    &&& items_convertible(items)
    &&& ft.text == file_decls(items).0
    &&& ft.types == file_decls(items).1
    &&& ft.text.len() > 0
}

/// What reading a file at `path` gives, when its source was parsed into
/// `parsed` (`None` when it is not valid Rust): `Syntax` for no parse,
/// `UnsupportedType` when a type deriving `Type` has a field the generator
/// cannot write, `NoTypes` when no item derives `Type`, otherwise the
/// declarations and names of the items that do.
pub open spec fn types_result(path: Seq<char>, parsed: Option<Seq<ItemModel>>) -> Result<FileTypesSpec, FileTypesError> {
    match parsed {
        None => Err(FileTypesError::Syntax),
        Some(items) => if !items_convertible(items) {
            Err(FileTypesError::UnsupportedType)
        } else if file_decls(items).0.len() == 0 {
            Err(FileTypesError::NoTypes)
        } else {
            Ok(FileTypesSpec { path, text: file_decls(items).0, types: file_decls(items).1 })
        },
    }
}

/// A result of reading a file, by the view of its types.
pub open spec fn result_view(r: Result<FileTypes, FileTypesError>) -> Result<FileTypesSpec, FileTypesError> {
    match r {
        Ok(ft) => Ok(ft@),
        Err(e) => Err(e),
    }
}

/// Every struct that derives `Type` has fields the generator can write.
pub open spec fn items_convertible(items: Seq<ItemModel>) -> bool {
    forall|i: int| 0 <= i < items.len() ==> item_convertible(#[trigger] items[i])
}

proof fn lemma_all_convertible_take(tys: Seq<RustType>, i: int)
    requires
        0 <= i < tys.len(),
    ensures
        all_ts_convertible(tys.take(i + 1)) == (all_ts_convertible(tys.take(i)) && ts_convertible(
            tys[i],
        )),
{
    assert(tys.take(i + 1).drop_last() =~= tys.take(i));
    assert(tys.take(i + 1).last() == tys[i]);
}

/// Whether the generator can write the type.
pub fn type_convertible(ty: &RustType) -> (res: bool)
    ensures
        res == ts_convertible(*ty),
    decreases ty,
{
    match ty {
        RustType::Tuple(elems) => {
            assert(elems@.take(0) =~= Seq::<RustType>::empty());
            for i in 0..elems.len()
                invariant
                    *ty == RustType::Tuple(*elems),
                    all_ts_convertible(elems@.take(i as int)),
            {
                proof {
                    assert(decreases_to!(*ty => (*ty)->Tuple_0));
                    assert((*ty)->Tuple_0 == *elems);
                    assert(decreases_to!(*elems => elems@));
                    assert(decreases_to!(elems@ => elems@[i as int]));
                    lemma_all_convertible_take(elems@, i as int);
                }
                if !type_convertible(&elems[i]) {
                    proof {
                        lemma_prefix_not_convertible(elems@, i as int + 1);
                        assert(elems@.take(elems@.len() as int) =~= elems@);
                    }
                    return false;
                }
            }
            assert(elems@.take(elems@.len() as int) =~= elems@);
            true
        },
        RustType::Path(Some(end)) => match &end.args {
            Some(args) => {
                let inner = inner_type_names_exec(args);
                let n = inner.len();
                let outer = end.ident.as_str();
                if (str_eq(outer, "Option") || str_eq(outer, "Vec")) && n < 1 {
                    false
                } else if (str_eq(outer, "HashMap") || str_eq(outer, "BTreeMap")) && n < 2 {
                    false
                } else {
                    true
                }
            },
            None => true,
        },
        _ => true,
    }
}

proof fn lemma_prefix_not_convertible(tys: Seq<RustType>, i: int)
    requires
        0 <= i <= tys.len(),
        !all_ts_convertible(tys.take(i)),
    ensures
        !all_ts_convertible(tys),
    decreases tys.len() - i,
{
    if i < tys.len() {
        lemma_all_convertible_take(tys, i);
        lemma_prefix_not_convertible(tys, i + 1);
    } else {
        assert(tys.take(i) =~= tys);
    }
}

/// Whether every struct deriving `Type` has fields the generator can write.
pub fn items_are_convertible(items: &Vec<ItemModel>) -> (res: bool)
    ensures
        res == items_convertible(items@),
{
    for i in 0..items.len()
        invariant
            forall|j: int| 0 <= j < i ==> item_convertible(#[trigger] items@[j]),
    {
        match &items[i] {
            ItemModel::Struct(s) => {
                if has_derive_type(&s.attrs) {
                    for k in 0..s.fields.len()
                        invariant
                            0 <= i < items.len(),
                            items@[i as int] == ItemModel::Struct(*s),
                            has_type_derive(s.attrs@),
                            forall|m: int| 0 <= m < k && !skips(#[trigger] s.fields@[m].attrs@) ==> ts_convertible(s.fields@[m].ty),
                    {
                        if !should_skip_element(&s.fields[k].attrs) && !type_convertible(&s.fields[k].ty) {
                            assert(!fields_convertible(s.fields@));
                            assert(!item_convertible(items@[i as int]));
                            return false;
                        }
                    }
                }
                assert(item_convertible(items@[i as int]));
            },
            _ => {},
        }
    }
    true
}

impl FileTypes {
    /// The types of a file from its items: the declarations of the structs
    /// and enums that derive `Type`, in file order, or `NoTypes` when there
    /// are none.
    pub fn from_items(file_path: String, items: &Vec<ItemModel>) -> (res: Result<FileTypes, FileTypesError>)
        requires
            items_convertible(items@),
        ensures
            file_decls(items@).0.len() == 0 ==> res == Err::<FileTypes, FileTypesError>(FileTypesError::NoTypes),
            file_decls(items@).0.len() > 0 ==> (res matches Ok(ft) && ft.file_path@ == file_path@
                && ft.types_as_string@ == file_decls(items@).0 && views(ft.types@) == file_decls(
                items@,
            ).1),
    {
        let mut text = String::new();
        let mut types: Vec<String> = Vec::new();
        assert(items@.take(0) =~= Seq::<ItemModel>::empty());
        for i in 0..items.len()
            invariant
                items_convertible(items@),
                text@ == file_decls(items@.take(i as int)).0,
                views(types@) == file_decls(items@.take(i as int)).1,
        {
            assert(items@.take(i + 1).drop_last() =~= items@.take(i as int));
            assert(items@.take(i + 1).last() == items@[i as int]);
            match &items[i] {
                ItemModel::Struct(s) => {
                    if has_derive_type(&s.attrs) {
                        assert(item_convertible(items@[i as int]));
                        let (name, decl) = parse_struct(s);
                        text.append(decl.as_str());
                        let ghost before = types@;
                        types.push(name);
                        assert(views(types@) =~= views(before).push(spec_parse_struct(*s).0));
                    }
                },
                ItemModel::Enum(e) => {
                    if has_derive_type(&e.attrs) {
                        let (name, decl) = parse_enum(e);
                        text.append(decl.as_str());
                        text.append(";\n");
                        let ghost before = types@;
                        types.push(name);
                        assert(views(types@) =~= views(before).push(spec_parse_enum(*e).0));
                    }
                },
                _ => {},
            }
        }
        assert(items@.take(items@.len() as int) =~= items@);
        if text.as_str().is_empty() {
            return Err(FileTypesError::NoTypes);
        }
        Ok(FileTypes { file_path, types_as_string: text, types })
    }

    /// The types of the file at `file_path` whose source was parsed into
    /// `parsed` (`None` when it is not valid Rust).
    pub fn from_parsed(file_path: String, parsed: Option<Vec<ItemModel>>) -> (res: Result<FileTypes, FileTypesError>)
        ensures
            result_view(res) == types_result(
                file_path@,
                match parsed {
                    Some(v) => Some(v@),
                    None => None,
                },
            ),
    {
        match parsed {
            None => Err(FileTypesError::Syntax),
            Some(items) => {
                if !items_are_convertible(&items) {
                    return Err(FileTypesError::UnsupportedType);
                }
                let res = FileTypes::from_items(file_path, &items);
                if let Ok(ft) = &res {
                    assert(ft@ == FileTypesSpec { path: ft@.path, text: file_decls(items@).0, types: file_decls(items@).1 });
                }
                res
            },
        }
    }

    /// The types of a Rust source file: `Syntax` when it does not parse,
    /// `UnsupportedType` when a type deriving `Type` has a field the
    /// generator cannot write, `NoTypes` when none derives `Type`.
    /// The source is read as `syn` reads it (`source_items`).
    pub fn try_from(file_path: String, file_str: &str) -> (res: Result<FileTypes, FileTypesError>)
        ensures
            result_view(res) == types_result(file_path@, source_items(file_str@)),
            res matches Ok(ft) ==> ft.file_path@ == file_path@ && exists|items: Seq<ItemModel>|
                #[trigger] read_from(items, ft@),
    {
        let parsed = parse_source_items(file_str);
        let ghost pv = match parsed {
            Some(ref v) => Some(v@),
            None => None,
        };
        let res = FileTypes::from_parsed(file_path, parsed);
        proof {
            if let Ok(ref ft) = res {
                let items = pv->0;
                assert(read_from(items, ft@));
            }
            assert(types_result(file_path@, pv) == result_view(res));
        }
        res
    }
}

} // verus!
