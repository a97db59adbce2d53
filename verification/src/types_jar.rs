//! The TypeScript types of a whole project, file by file.
use vstd::prelude::*;
use crate::file_types::{FileTypes, FileTypesSpec, FileTypesError, read_from, types_result, result_view};
use crate::syntax::{ItemModel, source_items};
use crate::strmap::{StrMap, lookup, has_key, insert_entry, keys_distinct, lemma_insert_lookup};
use crate::text::{views, owned, str_eq, clone_strings, contains_str, contains_seq, concat_all};
use crate::env::contains_name;

verus! {

broadcast use vstd::string::group_string_axioms;

/// The name that marks a type for the generator; a file without it holds
/// no such type.
pub const TUONO_MACRO_TRAIT_NAME: &'static str = "Type";

/// The files whose path is not `p`, in their order.
pub open spec fn without_path(files: Seq<FileTypesSpec>, p: Seq<char>) -> Seq<FileTypesSpec>
    decreases files.len(),
{
    if files.len() == 0 {
        files
    } else {
        let rest = without_path(files.drop_last(), p);
        if files.last().path == p {
            rest
        } else {
            rest.push(files.last())
        }
    }
}

/// The jar after reading a file: its new types in place of those held for
/// its path, or the jar unchanged when the file gave none.
pub open spec fn refreshed(files: Seq<FileTypesSpec>, r: Result<FileTypesSpec, FileTypesError>) -> Seq<FileTypesSpec> {
    match r {
        Ok(ft) => without_path(files, ft.path).push(ft),
        Err(_) => files,
    }
}

/// The last of the first `n` files that lists type `t`, or -1.
pub open spec fn last_listing(files: Seq<FileTypesSpec>, t: Seq<char>, n: int) -> int
    decreases n,
{
    if n <= 0 {
        -1
    } else if files[n - 1].types.contains(t) {
        n - 1
    } else {
        last_listing(files, t, n - 1)
    }
}

/// Files `a < b` both list type `t`.
pub open spec fn listed_by_both(files: Seq<FileTypesSpec>, t: Seq<char>, a: int, b: int) -> bool {
    &&& 0 <= a < b < files.len()
    &&& files[a].types.contains(t)
    &&& files[b].types.contains(t)
}

/// Where a type is declared more than once: the path of the last file that
/// lists it and the path of the file before that one which lists it.
pub open spec fn duplicate_of(files: Seq<FileTypesSpec>, t: Seq<char>) -> Option<(Seq<char>, Seq<char>)> {
    let last = last_listing(files, t, files.len() as int);
    let prev = last_listing(files, t, last);
    if prev >= 0 {
        Some((files[last].path, files[prev].path))
    } else {
        None
    }
}

/// The module declaration of all the types: each file's declarations between
/// a `START` and an `END` comment that name the file.
pub open spec fn typescript_of(files: Seq<FileTypesSpec>) -> Seq<char> {
    "declare module \"tuono/types\" {\n"@ + concat_all(files.map_values(|f: FileTypesSpec| file_section(f)))
        + "}\n"@
}

/// One file's part of the module declaration.
pub open spec fn file_section(f: FileTypesSpec) -> Seq<char> {
    "// START ["@ + f.path + "]\n"@ + f.text + "// END ["@ + f.path + "]\n"@
}

proof fn lemma_last_listing(files: Seq<FileTypesSpec>, t: Seq<char>, n: int)
    requires
        n <= files.len(),
    ensures
        -1 <= last_listing(files, t, n),
        n >= 0 ==> last_listing(files, t, n) < n,
        last_listing(files, t, n) >= 0 ==> files[last_listing(files, t, n)].types.contains(t),
        forall|k: int| last_listing(files, t, n) < k < n ==> !files[k].types.contains(t),
    decreases n,
{
    if n > 0 && !files[n - 1].types.contains(t) {
        lemma_last_listing(files, t, n - 1);
    }
}

/// The greatest pair of files listing `t`, in the order of the first file
/// and then the second, is the pair of the last two files that list it.
proof fn lemma_greatest_pair(files: Seq<FileTypesSpec>, t: Seq<char>, a: int, b: int)
    requires
        listed_by_both(files, t, a, b),
        forall|c: int, d: int|
            #[trigger] listed_by_both(files, t, c, d) ==> c < a || (c == a && d <= b),
    ensures
        duplicate_of(files, t) == Some((files[b].path, files[a].path)),
{
    let n = files.len() as int;
    lemma_last_listing(files, t, n);
    let last = last_listing(files, t, n);
    assert(b <= last);
    lemma_last_listing(files, t, last);
    let prev = last_listing(files, t, last);
    assert(a <= prev);
    assert(listed_by_both(files, t, prev, last));
}

/// Without two files listing `t`, `t` is no duplicate.
proof fn lemma_no_pair(files: Seq<FileTypesSpec>, t: Seq<char>)
    requires
        forall|c: int, d: int| !#[trigger] listed_by_both(files, t, c, d),
    ensures
        duplicate_of(files, t) is None,
{
    let n = files.len() as int;
    lemma_last_listing(files, t, n);
    let last = last_listing(files, t, n);
    lemma_last_listing(files, t, last);
    let prev = last_listing(files, t, last);
    if prev >= 0 {
        assert(listed_by_both(files, t, prev, last));
    }
}

/// A type is reported as declared more than once exactly when two different
/// files of the jar list it.
pub proof fn law_duplicate_iff_listed_twice(files: Seq<FileTypesSpec>, t: Seq<char>)
    ensures
        duplicate_of(files, t) is Some <==> exists|a: int, b: int| #[trigger]
            listed_by_both(files, t, a, b),
{
    let n = files.len() as int;
    lemma_last_listing(files, t, n);
    let last = last_listing(files, t, n);
    lemma_last_listing(files, t, last);
    let prev = last_listing(files, t, last);
    if prev >= 0 {
        assert(listed_by_both(files, t, prev, last));
    } else {
        assert forall|a: int, b: int| !#[trigger] listed_by_both(files, t, a, b) by {
            if listed_by_both(files, t, a, b) {
                assert(b <= last);
                assert(a <= prev);
            }
        }
    }
}

/// Removing a file's types keeps exactly the files with another path.
pub proof fn law_remove_keeps_other_paths(files: Seq<FileTypesSpec>, p: Seq<char>, f: FileTypesSpec)
    ensures
        without_path(files, p).contains(f) <==> files.contains(f) && f.path != p,
    decreases files.len(),
{
    if files.len() > 0 {
        let rest = files.drop_last();
        law_remove_keeps_other_paths(rest, p, f);
        assert(files =~= rest.push(files.last()));
        if files.contains(f) && f.path != p && !rest.contains(f) {
            let k = files.index_of(f);
            if k < rest.len() {
                assert(rest[k] == f);
            }
            assert(f == files.last());
        }
        if without_path(files, p).contains(f) && files.last().path != p && !without_path(rest, p).contains(f) {
            let k = without_path(files, p).index_of(f);
            assert(without_path(files, p) == without_path(rest, p).push(files.last()));
            if k < without_path(rest, p).len() {
                assert(without_path(rest, p)[k] == f);
            }
        }
        if rest.contains(f) {
            let k = rest.index_of(f);
            assert(files[k] == f);
        }
        if without_path(rest, p).contains(f) && files.last().path != p {
            let k = without_path(rest, p).index_of(f);
            assert(without_path(files, p)[k] == f);
        }
        if files.last() == f && f.path != p {
            assert(without_path(files, p).last() == f);
        }
    }
}

/// Field by field copy of a file's types.
pub fn copy_file_types(f: &FileTypes) -> (res: FileTypes)
    ensures
        res@ == f@,
{
    FileTypes {
        file_path: f.file_path.clone(),
        types_as_string: f.types_as_string.clone(),
        types: clone_strings(&f.types),
    }
}

/// The types of the project, by file.
#[derive(Debug)]
pub struct TypesJar {
    pub types: Vec<FileTypes>,
}

impl View for TypesJar {
    type V = Seq<FileTypesSpec>;

    open spec fn view(&self) -> Seq<FileTypesSpec> {
        self.types@.map_values(|f: FileTypes| f@)
    }
}

impl TypesJar {
    /// An empty jar.
    pub fn new() -> (res: Self)
        ensures
            res@ == Seq::<FileTypesSpec>::empty(),
    {
        let res = TypesJar { types: Vec::new() };
        assert(res@ =~= Seq::<FileTypesSpec>::empty());
        res
    }

    /// Removes the types of the file at `file_path` (when it is deleted).
    pub fn remove_file(&mut self, file_path: &str)
        ensures
            final(self)@ == without_path(old(self)@, file_path@),
    {
        let mut kept: Vec<FileTypes> = Vec::new();
        let ghost files = self@;
        assert(files.take(0) =~= Seq::<FileTypesSpec>::empty());
        for i in 0..self.types.len()
            invariant
                files == self@,
                kept@.map_values(|f: FileTypes| f@) == without_path(files.take(i as int), file_path@),
        {
            assert(files.take(i + 1).drop_last() =~= files.take(i as int));
            assert(files.take(i + 1).last() == self.types@[i as int]@);
            if !str_eq(self.types[i].file_path.as_str(), file_path) {
                let ghost before = kept@.map_values(|f: FileTypes| f@);
                kept.push(copy_file_types(&self.types[i]));
                assert(kept@.map_values(|f: FileTypes| f@) =~= before.push(self.types@[i as int]@));
            }
        }
        assert(files.take(files.len() as int) =~= files);
        self.types = kept;
    }

    /// Takes in the types of a file, in place of those the jar held for that
    /// file: they come last.
    pub fn add_file_types(&mut self, ft: FileTypes)
        ensures
            final(self)@ == without_path(old(self)@, ft@.path).push(ft@),
    {
        self.remove_file(ft.file_path.as_str());
        let ghost before = self@;
        let ghost v = ft@;
        self.types.push(ft);
        assert(self@ =~= before.push(v));
    }

    /// Adds the types found in `file_str`, the contents of the file at
    /// `path`, in place of those the jar held for that file. A file that
    /// does not name `Type`, or whose types cannot be read, leaves the jar
    /// unchanged. The source is read as `syn` reads it (`source_items`).
    pub fn refresh_file(&mut self, path: String, file_str: &str)
        ensures
            contains_seq(file_str@, TUONO_MACRO_TRAIT_NAME@) ==> final(self)@ == refreshed(
                old(self)@,
                types_result(path@, source_items(file_str@)),
            ),
            !contains_seq(file_str@, TUONO_MACRO_TRAIT_NAME@) ==> final(self)@ == old(self)@,
            final(self)@ == old(self)@ || (contains_seq(file_str@, TUONO_MACRO_TRAIT_NAME@)
                && exists|ft: FileTypesSpec, items: Seq<ItemModel>|
                #![trigger read_from(items, ft)]
                ft.path == path@ && read_from(items, ft) && final(self)@ == without_path(
                    old(self)@,
                    path@,
                ).push(ft)),
    {
        if contains_str(file_str, TUONO_MACRO_TRAIT_NAME) {
            let res = FileTypes::try_from(path, file_str);
            let ghost r = result_view(res);
            let ghost old_files = self@;
            match res {
                Ok(ft) => self.add_file_types(ft),
                Err(_) => {},
            }
            assert(refreshed(old_files, r) == self@);
        }
    }

    /// The types declared in more than one file. For each such type: the
    /// path of the last file that lists it, and the path of the file before
    /// that one which lists it.
    pub fn check_duplicate_types(&self) -> (res: StrMap<(String, String)>)
        ensures
            forall|t: Seq<char>| #[trigger] lookup(res.entries(), t) == duplicate_of(self@, t),
    {
        let ghost files = self@;
        let mut duplicates: StrMap<(String, String)> = StrMap::new();
        let ghost mut best: Map<Seq<char>, (int, int)> = Map::empty();
        let n = self.types.len();
        for i in 0..n
            invariant
                n == self.types.len(),
                files == self@,
                forall|t: Seq<char>| has_key(duplicates.entries(), t) <==> best.dom().contains(t),
                forall|t: Seq<char>| #[trigger]
                    best.dom().contains(t) ==> lookup(duplicates.entries(), t) == Some(
                        (files[best[t].1].path, files[best[t].0].path),
                    ) && listed_by_both(files, t, best[t].0, best[t].1) && best[t].0 < i,
                forall|t: Seq<char>, a: int, b: int| #[trigger]
                    listed_by_both(files, t, a, b) && a < i ==> best.dom().contains(t) && (a
                        < best[t].0 || (a == best[t].0 && b <= best[t].1)),
        {
            for j in (i + 1)..n
                invariant
                    n == self.types.len(),
                    files == self@,
                    i < n,
                    forall|t: Seq<char>| has_key(duplicates.entries(), t) <==> best.dom().contains(t),
                    forall|t: Seq<char>| #[trigger]
                        best.dom().contains(t) ==> lookup(duplicates.entries(), t) == Some(
                            (files[best[t].1].path, files[best[t].0].path),
                        ) && listed_by_both(files, t, best[t].0, best[t].1) && (best[t].0 < i || (
                        best[t].0 == i && best[t].1 < j)),
                    forall|t: Seq<char>, a: int, b: int| #[trigger]
                        listed_by_both(files, t, a, b) && (a < i || (a == i && b < j))
                            ==> best.dom().contains(t) && (a < best[t].0 || (a == best[t].0 && b
                            <= best[t].1)),
            {
                let types_i = &self.types[i].types;
                let types_j = &self.types[j].types;
                assert(files[i as int].types == views(types_i@));
                assert(files[j as int].types == views(types_j@));
                for k in 0..types_i.len()
                    invariant
                        n == self.types.len(),
                        files == self@,
                        i < j < n,
                        types_i == &self.types@[i as int].types,
                        types_j == &self.types@[j as int].types,
                        files[i as int].types == views(types_i@),
                        files[j as int].types == views(types_j@),
                        forall|t: Seq<char>| has_key(duplicates.entries(), t) <==> best.dom().contains(t),
                        forall|t: Seq<char>| #[trigger]
                            best.dom().contains(t) ==> lookup(duplicates.entries(), t) == Some(
                                (files[best[t].1].path, files[best[t].0].path),
                            ) && listed_by_both(files, t, best[t].0, best[t].1) && (best[t].0 < i
                                || (best[t].0 == i && best[t].1 <= j)),
                        forall|t: Seq<char>, a: int, b: int| #[trigger]
                            listed_by_both(files, t, a, b) && (a < i || (a == i && b < j))
                                ==> best.dom().contains(t) && (a < best[t].0 || (a == best[t].0
                                && b <= best[t].1)),
                        forall|m: int|
                            0 <= m < k && files[j as int].types.contains(#[trigger] files[i as int].types[m])
                                ==> best.dom().contains(files[i as int].types[m]) && best[files[i as int].types[m]]
                                == (i as int, j as int),
                {
                    let type_i = &types_i[k];
                    assert(files[i as int].types[k as int] == type_i@);
                    if contains_name(types_j, type_i.as_str()) {
                        let ghost before = duplicates.entries();
                        duplicates.note_distinct();
                        let v = (self.types[j].file_path.clone(), self.types[i].file_path.clone());
                        duplicates.insert(type_i.clone(), v);
                        proof {
                            assert forall|q: Seq<char>|
                                #[trigger] lookup(duplicates.entries(), q) == if q == type_i@ {
                                    Some(v@)
                                } else {
                                    lookup(before, q)
                                } by {
                                lemma_insert_lookup(before, type_i@, v@, q);
                            }
                            assert forall|q: Seq<char>|
                                has_key(duplicates.entries(), q) <==> (has_key(before, q) || q == type_i@) by {
                                lemma_insert_lookup(before, type_i@, v@, q);
                            }
                            assert(files[i as int].types.contains(type_i@));
                            best = best.insert(type_i@, (i as int, j as int));
                        }
                    }
                }
                proof {
                    assert forall|t: Seq<char>, a: int, b: int|
                        #[trigger] listed_by_both(files, t, a, b) && (a < i || (a == i && b < j + 1))
                            implies best.dom().contains(t) && (a < best[t].0 || (a == best[t].0
                            && b <= best[t].1)) by {
                        if a == i && b == j {
                            let m = files[i as int].types.index_of(t);
                            assert(files[i as int].types[m] == t);
                        }
                    }
                }
            }
        }
        proof {
            assert forall|t: Seq<char>| #[trigger]
                lookup(duplicates.entries(), t) == duplicate_of(files, t) by {
                if best.dom().contains(t) {
                    lemma_greatest_pair(files, t, best[t].0, best[t].1);
                } else {
                    lemma_no_pair(files, t);
                }
            }
        }
        duplicates
    }

    /// The module declaration of all the types in the jar, file by file.
    pub fn generate_typescript(&self) -> (res: String)
        ensures
            res@ == typescript_of(self@),
    {
        let ghost files = self@;
        let mut body = String::new();
        assert(files.take(0).map_values(|f: FileTypesSpec| file_section(f)) =~= Seq::<Seq<char>>::empty());
        for i in 0..self.types.len()
            invariant
                files == self@,
                body@ == concat_all(files.take(i as int).map_values(|f: FileTypesSpec| file_section(f))),
        {
            let f = &self.types[i];
            assert(files[i as int] == f@);
            body.append("// START [");
            body.append(f.file_path.as_str());
            body.append("]\n");
            body.append(f.types_as_string.as_str());
            body.append("// END [");
            body.append(f.file_path.as_str());
            body.append("]\n");
            proof {
                let sections = files.take(i + 1).map_values(|f: FileTypesSpec| file_section(f));
                assert(sections.drop_last() =~= files.take(i as int).map_values(|f: FileTypesSpec| file_section(f)));
                assert(sections.last() == file_section(files[i as int]));
            }
        }
        assert(files.take(files.len() as int) =~= files);
        let mut res = owned("declare module \"tuono/types\" {\n");
        res.append(body.as_str());
        res.append("}\n");
        res
    }
}

} // verus!
