//! Environment variables from `.env` files.
//!
//! The files of a mode are read in a fixed order; each line `KEY=value`
//! sets `KEY` unless the process environment already had it, so a later
//! file overrides an earlier one and the process environment wins over all.
use vstd::prelude::*;
use crate::mode::{Mode, spec_mode_name};
use crate::strmap::{StrMap, lookup, insert_entry, keys_distinct, lemma_insert_lookup, keys_of};
use crate::text::{views, lines, split_once_char, trim, lines_of, split_once, trim_str, owned, concat_str, str_eq};
use crate::text::{has_char, lemma_split_once_at};

verus! {

broadcast use vstd::string::group_string_axioms;

/// The environment files of a mode, in the order they are read.
pub open spec fn env_file_names(mode: Mode) -> Seq<Seq<char>> {
    seq![
        ".env"@,
        ".env.local"@,
        ".env."@ + spec_mode_name(mode),
        ".env.local"@,
        ".env."@ + spec_mode_name(mode) + ".local"@,
    ]
}

/// A value without the double quotes around it.
pub open spec fn unquote(v: Seq<char>) -> Seq<char> {
    if v.len() >= 2 && v[0] == '"' && v.last() == '"' {
        v.subrange(1, v.len() - 1)
    } else {
        v
    }
}

/// A line whose value is a lone double quote, which has no quoted content.
pub open spec fn is_lone_quote_line(line: Seq<char>) -> bool {
    match split_once_char(line, '=') {
        Some((_, v)) => v == seq!['"'],
        None => false,
    }
}

/// The key and value that a line assigns: the text before and after its
/// first `=`, the value unquoted, both trimmed.
pub open spec fn parse_env_line(line: Seq<char>) -> Option<(Seq<char>, Seq<char>)> {
    match split_once_char(line, '=') {
        Some((k, v)) => Some((trim(k), trim(unquote(v)))),
        None => None,
    }
}

/// A line `key=value` assigns the trimmed key the trimmed value; a value
/// written between double quotes is taken without them. (The key holds no
/// `=`.)
pub proof fn law_line_assigns_its_value(k: Seq<char>, v: Seq<char>)
    requires
        !has_char(k, '='),
    ensures
        parse_env_line(k + "="@ + "\""@ + v + "\""@) == Some((trim(k), trim(v))),
        (v.len() == 0 || v[0] != '"') ==> parse_env_line(k + "="@ + v) == Some((trim(k), trim(v))),
{
    reveal_strlit("=");
    reveal_strlit("\"");
    let q = "\""@ + v + "\""@;
    assert(k + "="@ + "\""@ + v + "\""@ =~= k + seq!['='] + q);
    lemma_split_once_at(k, q, '=');
    assert(q[0] == '"' && q.last() == '"');
    assert(q.subrange(1, q.len() - 1) =~= v);
    assert(unquote(q) == v);
    assert(k + "="@ + v =~= k + seq!['='] + v);
    lemma_split_once_at(k, v, '=');
}

/// The variables after one line: an assignment to a key of the process
/// environment is ignored.
pub open spec fn apply_env_line(
    vars: Seq<(Seq<char>, Seq<char>)>,
    system: Seq<Seq<char>>,
    line: Seq<char>,
) -> Seq<(Seq<char>, Seq<char>)> {
    match parse_env_line(line) {
        Some((k, v)) => if system.contains(k) {
            vars
        } else {
            insert_entry(vars, k, v)
        },
        None => vars,
    }
}

/// The variables after the lines, in order.
pub open spec fn apply_env_lines(
    vars: Seq<(Seq<char>, Seq<char>)>,
    system: Seq<Seq<char>>,
    ls: Seq<Seq<char>>,
) -> Seq<(Seq<char>, Seq<char>)>
    decreases ls.len(),
{
    if ls.len() == 0 {
        vars
    } else {
        apply_env_line(apply_env_lines(vars, system, ls.drop_last()), system, ls.last())
    }
}

/// The variables after the files that could be read, in order.
pub open spec fn apply_env_files(
    vars: Seq<(Seq<char>, Seq<char>)>,
    system: Seq<Seq<char>>,
    files: Seq<Option<Seq<char>>>,
) -> Seq<(Seq<char>, Seq<char>)>
    decreases files.len(),
{
    if files.len() == 0 {
        vars
    } else {
        let acc = apply_env_files(vars, system, files.drop_last());
        match files.last() {
            Some(c) => apply_env_lines(acc, system, lines(c)),
            None => acc,
        }
    }
}

/// No line of a readable file has a lone double quote as its value.
pub open spec fn files_well_quoted(files: Seq<Option<Seq<char>>>) -> bool {
    forall|i: int, j: int|
        0 <= i < files.len() && files[i] is Some && 0 <= j < lines(files[i]->0).len()
            ==> !is_lone_quote_line(#[trigger] lines(files[i]->0)[j])
}

/// The contents of files that were read (`None` for a file that could not be).
pub open spec fn contents_views(files: Seq<Option<String>>) -> Seq<Option<Seq<char>>> {
    files.map_values(|f: Option<String>| match f {
        Some(s) => Some(s@),
        None => None,
    })
}

/// Pairs of strings by their views.
pub open spec fn pair_views(v: Seq<(String, String)>) -> Seq<(Seq<char>, Seq<char>)> {
    v.map_values(|e: (String, String)| (e.0@, e.1@))
}

/// The map that inserting the pairs in order gives.
pub open spec fn insert_all(s: Seq<(Seq<char>, Seq<char>)>) -> Seq<(Seq<char>, Seq<char>)>
    decreases s.len(),
{
    if s.len() == 0 {
        Seq::empty()
    } else {
        insert_entry(insert_all(s.drop_last()), s.last().0, s.last().1)
    }
}

/// The variables whose names the process environment does not set, in map
/// order.
pub open spec fn not_in(vars: Seq<(Seq<char>, Seq<char>)>, names: Seq<Seq<char>>) -> Seq<(Seq<char>, Seq<char>)>
    decreases vars.len(),
{
    if vars.len() == 0 {
        vars
    } else {
        let rest = not_in(vars.drop_last(), names);
        if names.contains(vars.last().0) {
            rest
        } else {
            rest.push(vars.last())
        }
    }
}

/// Whether a line's value is a lone double quote.
pub fn lone_quote_line(line: &str) -> (res: bool)
    ensures
        res == is_lone_quote_line(line@),
{
    match split_once(line, '=') {
        Some((_, value)) => {
            let chars = crate::text::chars_of(value.as_str());
            let res = chars.len() == 1 && chars[0] == '"';
            proof {
                if res {
                    assert(chars@ =~= seq!['"']);
                }
            }
            res
        },
        None => false,
    }
}

/// Whether no line of a file that was read has a lone double quote as its
/// value (such a line cannot be unquoted).
pub fn well_quoted(contents: &Vec<Option<String>>) -> (res: bool)
    ensures
        res == files_well_quoted(contents_views(contents@)),
{
    let ghost cv = contents_views(contents@);
    for i in 0..contents.len()
        invariant
            cv == contents_views(contents@),
            forall|a: int, j: int|
                0 <= a < i && cv[a] is Some && 0 <= j < lines(cv[a]->0).len()
                    ==> !is_lone_quote_line(#[trigger] lines(cv[a]->0)[j]),
    {
        match &contents[i] {
            Some(c) => {
                assert(cv[i as int] == Some(c@));
                let ls = lines_of(c.as_str());
                for j in 0..ls.len()
                    invariant
                        i < contents@.len(),
                        cv == contents_views(contents@),
                        cv[i as int] == Some(c@),
                        views(ls@) == lines(c@),
                        forall|m: int| 0 <= m < j ==> !is_lone_quote_line(#[trigger] lines(c@)[m]),
                {
                    assert(views(ls@)[j as int] == ls@[j as int]@);
                    if lone_quote_line(ls[j].as_str()) {
                        assert(is_lone_quote_line(lines(cv[i as int]->0)[j as int]));
                        return false;
                    }
                }
            },
            None => {},
        }
    }
    true
}

/// The environment files of a mode, in the order they are read.
pub fn env_file_list(mode: Mode) -> (res: Vec<String>)
    ensures
        views(res@) == env_file_names(mode),
{
    let name = mode.name();
    let mode_file = concat_str(".env.", name);
    let mode_local = concat_str(mode_file.as_str(), ".local");
    let mut res: Vec<String> = Vec::new();
    res.push(owned(".env"));
    res.push(owned(".env.local"));
    res.push(mode_file);
    res.push(owned(".env.local"));
    res.push(mode_local);
    assert(views(res@) =~= env_file_names(mode));
    res
}

/// Whether `name` is one of `names`.
pub fn contains_name(names: &Vec<String>, name: &str) -> (res: bool)
    ensures
        res == views(names@).contains(name@),
{
    for i in 0..names.len()
        invariant
            forall|j: int| 0 <= j < i ==> names@[j]@ != name@,
    {
        if str_eq(names[i].as_str(), name) {
            assert(views(names@)[i as int] == name@);
            return true;
        }
    }
    assert forall|j: int| 0 <= j < views(names@).len() implies views(names@)[j] != name@ by {
        assert(views(names@)[j] == names@[j]@);
    }
    false
}

/// The key and value that a line assigns, if any.
pub fn parse_line(line: &str) -> (res: Option<(String, String)>)
    requires
        !is_lone_quote_line(line@),
    ensures
        match parse_env_line(line@) {
            Some((k, v)) => res matches Some((a, b)) && a@ == k && b@ == v,
            None => res is None,
        },
{
    match split_once(line, '=') {
        Some((key, value)) => {
            let chars = crate::text::chars_of(value.as_str());
            let n = chars.len();
            let unquoted = if n >= 1 && chars[0] == '"' && chars[n - 1] == '"' {
                if n == 1 {
                    assert(chars@ =~= seq!['"']);
                }
                assert(n >= 2);
                let mut inner: Vec<char> = Vec::new();
                let mut k: usize = 1;
                while k < n - 1
                    invariant
                        n == chars@.len(),
                        n >= 2,
                        1 <= k <= n - 1,
                        inner@ == chars@.subrange(1, k as int),
                    decreases n - 1 - k,
                {
                    inner.push(chars[k]);
                    assert(inner@ =~= chars@.subrange(1, k + 1));
                    k = k + 1;
                }
                crate::text::string_from_chars(inner.as_slice())
            } else {
                value
            };
            assert(unquoted@ == unquote(value@));
            Some((trim_str(key.as_str()), trim_str(unquoted.as_str())))
        },
        None => None,
    }
}

/// Variables loaded from the process environment and the `.env` files of a mode.
#[derive(Debug)]
pub struct EnvVarManager {
    env_files: Vec<String>,
    system_env_names: Vec<String>,
    env_vars: StrMap<String>,
}

impl EnvVarManager {
    /// The environment files, in the order they are read.
    pub closed spec fn files(&self) -> Seq<Seq<char>> {
        views(self.env_files@)
    }

    /// The names set in the process environment.
    pub closed spec fn system_names(&self) -> Seq<Seq<char>> {
        views(self.system_env_names@)
    }

    /// The variables.
    pub closed spec fn vars(&self) -> Seq<(Seq<char>, Seq<char>)> {
        self.env_vars.entries()
    }

    /// A manager holding the process environment `system_vars` and the file
    /// list of `mode`, before any file is read.
    pub fn from_system_env(mode: Mode, system_vars: Vec<(String, String)>) -> (res: Self)
        ensures
            res.files() == env_file_names(mode),
            res.system_names() == keys_of(pair_views(system_vars@)),
            res.vars() == insert_all(pair_views(system_vars@)),
    {
        let env_files = env_file_list(mode);
        let mut names: Vec<String> = Vec::new();
        let mut vars: StrMap<String> = StrMap::new();
        let ghost pv = pair_views(system_vars@);
        assert(pv.take(0) =~= Seq::<(Seq<char>, Seq<char>)>::empty());
        assert(keys_of(pv.take(0)) =~= Seq::<Seq<char>>::empty());
        for i in 0..system_vars.len()
            invariant
                pv == pair_views(system_vars@),
                views(names@) == keys_of(pv.take(i as int)),
                vars.entries() == insert_all(pv.take(i as int)),
        {
            let k = system_vars[i].0.clone();
            let v = system_vars[i].1.clone();
            assert(pv[i as int] == (k@, v@));
            let ghost before = names@;
            names.push(k.clone());
            assert(pv.take(i + 1).drop_last() =~= pv.take(i as int));
            assert(pv.take(i + 1).last() == pv[i as int]);
            assert(views(names@) =~= views(before).push(k@));
            assert(keys_of(pv.take(i + 1)) =~= keys_of(pv.take(i as int)).push(k@));
            vars.insert(k, v);
        }
        assert(pv.take(pv.len() as int) =~= pv);
        EnvVarManager { env_files, system_env_names: names, env_vars: vars }
    }

    /// The environment files, in the order they are read.
    pub fn env_files(&self) -> (res: &Vec<String>)
        ensures
            views(res@) == self.files(),
    {
        &self.env_files
    }

    /// Applies the lines of one file.
    fn apply_contents(&mut self, contents: &str)
        requires
            forall|j: int|
                0 <= j < lines(contents@).len() ==> !is_lone_quote_line(#[trigger] lines(contents@)[j]),
        ensures
            final(self).vars() == apply_env_lines(old(self).vars(), old(self).system_names(), lines(contents@)),
            final(self).system_names() == old(self).system_names(),
            final(self).files() == old(self).files(),
    {
        let ls = lines_of(contents);
        let ghost lv = views(ls@);
        let ghost start = self.vars();
        assert(lv.take(0) =~= Seq::<Seq<char>>::empty());
        for i in 0..ls.len()
            invariant
                lv == views(ls@),
                lv == lines(contents@),
                forall|j: int| 0 <= j < lv.len() ==> !is_lone_quote_line(#[trigger] lv[j]),
                self.system_names() == old(self).system_names(),
                self.files() == old(self).files(),
                self.vars() == apply_env_lines(start, self.system_names(), lv.take(i as int)),
        {
            assert(lv[i as int] == ls@[i as int]@);
            assert(lv.take(i + 1).drop_last() =~= lv.take(i as int));
            assert(lv.take(i + 1).last() == lv[i as int]);
            match parse_line(ls[i].as_str()) {
                Some((key, value)) => {
                    if !contains_name(&self.system_env_names, key.as_str()) {
                        self.env_vars.insert(key, value);
                    }
                },
                None => {},
            }
        }
        assert(lv.take(lv.len() as int) =~= lv);
    }

    /// Applies the `.env` files that could be read, in order: `contents[i]`
    /// is what reading the `i`-th file gave (`None` when it could not be read).
    pub fn reload_from_contents(&mut self, contents: &Vec<Option<String>>)
        requires
            files_well_quoted(contents_views(contents@)),
        ensures
            final(self).vars() == apply_env_files(
                old(self).vars(),
                old(self).system_names(),
                contents_views(contents@),
            ),
            final(self).system_names() == old(self).system_names(),
            final(self).files() == old(self).files(),
    {
        let ghost cv = contents_views(contents@);
        let ghost start = self.vars();
        assert(cv.take(0) =~= Seq::<Option<Seq<char>>>::empty());
        for i in 0..contents.len()
            invariant
                cv == contents_views(contents@),
                files_well_quoted(cv),
                self.system_names() == old(self).system_names(),
                self.files() == old(self).files(),
                self.vars() == apply_env_files(start, self.system_names(), cv.take(i as int)),
        {
            assert(cv.take(i + 1).drop_last() =~= cv.take(i as int));
            assert(cv.take(i + 1).last() == cv[i as int]);
            match &contents[i] {
                Some(c) => {
                    assert(cv[i as int] == Some(c@));
                    assert forall|j: int| 0 <= j < lines(c@).len() implies !is_lone_quote_line(
                        #[trigger] lines(c@)[j],
                    ) by {
                        assert(lines(cv[i as int]->0)[j] == lines(c@)[j]);
                    }
                    self.apply_contents(c.as_str());
                },
                None => {},
            }
        }
        assert(cv.take(cv.len() as int) =~= cv);
    }

    /// The variables.
    pub fn get_env_vars(&self) -> (res: &StrMap<String>)
        ensures
            res.entries() == self.vars(),
    {
        &self.env_vars
    }

    /// The variables that the `.env` files set, that is those whose names the
    /// process environment does not set, in map order.
    pub fn file_variables(&self) -> (res: Vec<(String, String)>)
        ensures
            pair_views(res@) == not_in(self.vars(), self.system_names()),
    {
        let mut res: Vec<(String, String)> = Vec::new();
        let ghost vs = self.vars();
        let n = self.env_vars.len();
        assert(vs.take(0) =~= Seq::<(Seq<char>, Seq<char>)>::empty());
        for i in 0..n
            invariant
                n == vs.len(),
                vs == self.vars(),
                pair_views(res@) == not_in(vs.take(i as int), self.system_names()),
        {
            let key = self.env_vars.key_at(i);
            let value = self.env_vars.value_at(i);
            assert(vs.take(i + 1).drop_last() =~= vs.take(i as int));
            assert(vs.take(i + 1).last() == (key@, value@));
            if !contains_name(&self.system_env_names, key.as_str()) {
                let ghost before = res@;
                res.push((key.clone(), value.clone()));
                assert(pair_views(res@) =~= pair_views(before).push((key@, value@)));
            }
        }
        assert(vs.take(vs.len() as int) =~= vs);
        res
    }
}


proof fn lemma_lines_distinct(
    vars: Seq<(Seq<char>, Seq<char>)>,
    system: Seq<Seq<char>>,
    ls: Seq<Seq<char>>,
)
    requires
        keys_distinct(vars),
    ensures
        keys_distinct(apply_env_lines(vars, system, ls)),
    decreases ls.len(),
{
    if ls.len() > 0 {
        lemma_lines_distinct(vars, system, ls.drop_last());
        let acc = apply_env_lines(vars, system, ls.drop_last());
        if let Some((k, v)) = parse_env_line(ls.last()) {
            lemma_insert_lookup(acc, k, v, k);
        }
    }
}

proof fn lemma_lines_keep_system(
    vars: Seq<(Seq<char>, Seq<char>)>,
    system: Seq<Seq<char>>,
    ls: Seq<Seq<char>>,
    q: Seq<char>,
)
    requires
        keys_distinct(vars),
        system.contains(q),
    ensures
        lookup(apply_env_lines(vars, system, ls), q) == lookup(vars, q),
    decreases ls.len(),
{
    if ls.len() > 0 {
        lemma_lines_keep_system(vars, system, ls.drop_last(), q);
        lemma_lines_distinct(vars, system, ls.drop_last());
        let acc = apply_env_lines(vars, system, ls.drop_last());
        if let Some((k, v)) = parse_env_line(ls.last()) {
            if !system.contains(k) {
                lemma_insert_lookup(acc, k, v, q);
            }
        }
    }
}

/// A variable of the process environment keeps its value whatever the
/// `.env` files assign to it.
pub proof fn law_system_env_wins(
    vars: Seq<(Seq<char>, Seq<char>)>,
    system: Seq<Seq<char>>,
    files: Seq<Option<Seq<char>>>,
    q: Seq<char>,
)
    requires
        keys_distinct(vars),
        system.contains(q),
    ensures
        lookup(apply_env_files(vars, system, files), q) == lookup(vars, q),
        keys_distinct(apply_env_files(vars, system, files)),
    decreases files.len(),
{
    if files.len() > 0 {
        law_system_env_wins(vars, system, files.drop_last(), q);
        let acc = apply_env_files(vars, system, files.drop_last());
        if let Some(c) = files.last() {
            lemma_lines_keep_system(acc, system, lines(c), q);
            lemma_lines_distinct(acc, system, lines(c));
        }
    }
}

proof fn lemma_lines_append(
    vars: Seq<(Seq<char>, Seq<char>)>,
    system: Seq<Seq<char>>,
    a: Seq<Seq<char>>,
    b: Seq<Seq<char>>,
)
    ensures
        apply_env_lines(vars, system, a + b) == apply_env_lines(
            apply_env_lines(vars, system, a),
            system,
            b,
        ),
    decreases b.len(),
{
    if b.len() == 0 {
        assert(a + b =~= a);
    } else {
        lemma_lines_append(vars, system, a, b.drop_last());
        assert((a + b).drop_last() =~= a + b.drop_last());
        assert((a + b).last() == b.last());
    }
}

proof fn lemma_lines_keep_unassigned(
    vars: Seq<(Seq<char>, Seq<char>)>,
    system: Seq<Seq<char>>,
    ls: Seq<Seq<char>>,
    q: Seq<char>,
)
    requires
        keys_distinct(vars),
        forall|j: int| 0 <= j < ls.len() ==> !(#[trigger] parse_env_line(ls[j]) matches Some((k, _)) && k == q),
    ensures
        lookup(apply_env_lines(vars, system, ls), q) == lookup(vars, q),
    decreases ls.len(),
{
    if ls.len() > 0 {
        lemma_lines_keep_unassigned(vars, system, ls.drop_last(), q);
        lemma_lines_distinct(vars, system, ls.drop_last());
        let acc = apply_env_lines(vars, system, ls.drop_last());
        assert(parse_env_line(ls[ls.len() - 1]) == parse_env_line(ls.last()));
        if let Some((k, v)) = parse_env_line(ls.last()) {
            if !system.contains(k) {
                lemma_insert_lookup(acc, k, v, q);
            }
        }
    }
}

/// The last line that assigns a key decides its value, unless the key
/// belongs to the process environment.
pub proof fn law_last_assignment_wins(
    vars: Seq<(Seq<char>, Seq<char>)>,
    system: Seq<Seq<char>>,
    before: Seq<Seq<char>>,
    line: Seq<char>,
    after: Seq<Seq<char>>,
    k: Seq<char>,
    v: Seq<char>,
)
    requires
        keys_distinct(vars),
        parse_env_line(line) == Some((k, v)),
        !system.contains(k),
        forall|j: int| 0 <= j < after.len() ==> !(#[trigger] parse_env_line(after[j]) matches Some((
            key,
            _,
        )) && key == k),
    ensures
        lookup(apply_env_lines(vars, system, before.push(line) + after), k) == Some(v),
{
    lemma_lines_append(vars, system, before.push(line), after);
    lemma_lines_distinct(vars, system, before);
    let mid = apply_env_lines(vars, system, before.push(line));
    assert(before.push(line).drop_last() =~= before);
    lemma_insert_lookup(apply_env_lines(vars, system, before), k, v, k);
    lemma_lines_distinct(vars, system, before.push(line));
    lemma_lines_keep_unassigned(mid, system, after, k);
}

/// The value that the last pair with key `k` gives, if any.
pub open spec fn last_value(pairs: Seq<(Seq<char>, Seq<char>)>, k: Seq<char>) -> Option<Seq<char>>
    decreases pairs.len(),
{
    if pairs.len() == 0 {
        None
    } else if pairs.last().0 == k {
        Some(pairs.last().1)
    } else {
        last_value(pairs.drop_last(), k)
    }
}

/// Inserting pairs in order keeps each key once, with the value of its last
/// pair.
pub proof fn law_insert_all_last_wins(pairs: Seq<(Seq<char>, Seq<char>)>, k: Seq<char>)
    ensures
        keys_distinct(insert_all(pairs)),
        lookup(insert_all(pairs), k) == last_value(pairs, k),
    decreases pairs.len(),
{
    if pairs.len() > 0 {
        law_insert_all_last_wins(pairs.drop_last(), k);
        lemma_insert_lookup(insert_all(pairs.drop_last()), pairs.last().0, pairs.last().1, k);
    }
}

/// The value that the last of the lines assigning `q` gives, unless `q` is
/// set in the process environment.
pub open spec fn line_assignment(ls: Seq<Seq<char>>, system: Seq<Seq<char>>, q: Seq<char>) -> Option<Seq<char>>
    decreases ls.len(),
{
    if ls.len() == 0 {
        None
    } else {
        match parse_env_line(ls.last()) {
            Some((k, v)) => if k == q && !system.contains(k) {
                Some(v)
            } else {
                line_assignment(ls.drop_last(), system, q)
            },
            None => line_assignment(ls.drop_last(), system, q),
        }
    }
}

/// The value that the last line of the readable files assigning `q` gives,
/// unless `q` is set in the process environment.
pub open spec fn file_assignment(files: Seq<Option<Seq<char>>>, system: Seq<Seq<char>>, q: Seq<char>) -> Option<Seq<char>>
    decreases files.len(),
{
    if files.len() == 0 {
        None
    } else {
        match files.last() {
            Some(c) => match line_assignment(lines(c), system, q) {
                Some(v) => Some(v),
                None => file_assignment(files.drop_last(), system, q),
            },
            None => file_assignment(files.drop_last(), system, q),
        }
    }
}

proof fn lemma_lines_lookup(
    vars: Seq<(Seq<char>, Seq<char>)>,
    system: Seq<Seq<char>>,
    ls: Seq<Seq<char>>,
    q: Seq<char>,
)
    requires
        keys_distinct(vars),
    ensures
        lookup(apply_env_lines(vars, system, ls), q) == match line_assignment(ls, system, q) {
            Some(v) => Some(v),
            None => lookup(vars, q),
        },
    decreases ls.len(),
{
    if ls.len() > 0 {
        lemma_lines_lookup(vars, system, ls.drop_last(), q);
        lemma_lines_distinct(vars, system, ls.drop_last());
        let acc = apply_env_lines(vars, system, ls.drop_last());
        if let Some((k, v)) = parse_env_line(ls.last()) {
            if !system.contains(k) {
                lemma_insert_lookup(acc, k, v, q);
            }
        }
    }
}

proof fn lemma_files_lookup(
    vars: Seq<(Seq<char>, Seq<char>)>,
    system: Seq<Seq<char>>,
    files: Seq<Option<Seq<char>>>,
    q: Seq<char>,
)
    requires
        keys_distinct(vars),
    ensures
        keys_distinct(apply_env_files(vars, system, files)),
        lookup(apply_env_files(vars, system, files), q) == match file_assignment(files, system, q) {
            Some(v) => Some(v),
            None => lookup(vars, q),
        },
    decreases files.len(),
{
    if files.len() > 0 {
        lemma_files_lookup(vars, system, files.drop_last(), q);
        let acc = apply_env_files(vars, system, files.drop_last());
        if let Some(c) = files.last() {
            lemma_lines_lookup(acc, system, lines(c), q);
            lemma_lines_distinct(acc, system, lines(c));
        }
    }
}

/// Reading the same files a second time changes no variable: every key
/// looks up the same value after a second reload as after the first.
pub proof fn law_reload_twice_same(
    vars: Seq<(Seq<char>, Seq<char>)>,
    system: Seq<Seq<char>>,
    files: Seq<Option<Seq<char>>>,
    q: Seq<char>,
)
    requires
        keys_distinct(vars),
    ensures
        lookup(apply_env_files(apply_env_files(vars, system, files), system, files), q) == lookup(
            apply_env_files(vars, system, files),
            q,
        ),
{
    lemma_files_lookup(vars, system, files, q);
    lemma_files_lookup(apply_env_files(vars, system, files), system, files, q);
}

} // verus!
