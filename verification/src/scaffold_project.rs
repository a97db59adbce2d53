//! Scaffolding a new project from an example of the framework's repository:
//! which addresses are fetched, which files of the repository make up the
//! project, where they go and how their versions are pinned.
use vstd::prelude::*;
use crate::text::{views, owned, str_eq, starts_with, has_prefix, replace_str, replace_all, concat_str};

verus! {

broadcast use vstd::string::group_string_axioms;

/// The tag references of the repository.
pub const GITHUB_TUONO_TAGS_URL: &'static str = "https://api.github.com/repos/tuono-labs/tuono/git/ref/tags/";

/// The commit trees of the repository.
pub const GITHUB_TUONO_TAG_COMMIT_TREES_URL: &'static str = "https://api.github.com/repos/tuono-labs/tuono/git/trees/";

/// The raw files of the repository.
pub const GITHUB_RAW_CONTENT_URL: &'static str = "https://raw.githubusercontent.com/tuono-labs/tuono";

/// The example that a project starts from when none is named.
pub const DEFAULT_TEMPLATE: &'static str = "tuono-app";

/// What the tag request of `version` asks for.
pub open spec fn tag_url_spec(base: Seq<char>, version: Seq<char>) -> Seq<char> {
    base + "v"@ + version
}

/// The recursive tree of a commit.
pub open spec fn commit_tree_url(sha: Seq<char>) -> Seq<char> {
    GITHUB_TUONO_TAG_COMMIT_TREES_URL@ + sha + "?recursive=1"@
}

/// Where an example's files lie in the repository.
pub open spec fn template_prefix(template: Seq<char>) -> Seq<char> {
    "examples/"@ + template + "/"@
}

/// A file or folder of the repository tree.
#[derive(Debug, Clone, Copy, PartialEq, Eq, Structural)]
pub enum GithubFileType {
    Blob,
    Tree,
}

/// An entry of the repository tree.
#[derive(Debug)]
pub struct GithubFile {
    pub path: String,
    pub element_type: GithubFileType,
}

/// The entries of the example `template`, in tree order.
pub open spec fn template_entries(tree: Seq<GithubFile>, template: Seq<char>) -> Seq<GithubFile>
    decreases tree.len(),
{
    if tree.len() == 0 {
        Seq::empty()
    } else {
        let rest = template_entries(tree.drop_last(), template);
        if has_prefix(tree.last().path@, template_prefix(template)) {
            rest.push(tree.last())
        } else {
            rest
        }
    }
}

/// The paths of the entries.
pub open spec fn entry_paths(files: Seq<GithubFile>) -> Seq<Seq<char>> {
    files.map_values(|f: GithubFile| f.path@)
}

/// The path of an example's entry within the new project.
pub open spec fn local_path(path: Seq<char>, template: Seq<char>) -> Seq<char> {
    replace_all(path, template_prefix(template), Seq::empty())
}

/// The raw address of a file of the repository at `tag`.
pub open spec fn raw_file_url(tag: Seq<char>, path: Seq<char>) -> Seq<char> {
    GITHUB_RAW_CONTENT_URL@ + "/"@ + tag + "/"@ + path
}

/// `package.json` with the framework's package pinned to `version`.
pub open spec fn pinned_package_json(contents: Seq<char>, version: Seq<char>) -> Seq<char> {
    replace_all(contents, "link:../../packages/tuono"@, version)
}

/// `Cargo.toml` with the framework's crate pinned to `version`.
pub open spec fn pinned_cargo_toml(contents: Seq<char>, version: Seq<char>) -> Seq<char> {
    replace_all(contents, "{ path = \"../../crates/tuono_lib/\"}"@, "\""@ + version + "\""@)
}

/// The address that the tag of `version` is asked at.
pub fn tag_url(base: &str, version: &str) -> (res: String)
    ensures
        res@ == tag_url_spec(base@, version@),
{
    let mut res = concat_str(base, "v");
    res.append(version);
    res
}

/// The tree that a new project is listed from: the main branch's when the
/// main branch was asked for, otherwise that of the commit `sha` that the
/// version's tag points at.
pub fn generate_tree_url(select_main_branch_template: Option<bool>, sha: &str) -> (res: String)
    ensures
        res@ == if select_main_branch_template is Some {
            GITHUB_TUONO_TAG_COMMIT_TREES_URL@ + "main?recursive=1"@
        } else {
            commit_tree_url(sha@)
        },
{
    if select_main_branch_template.is_some() {
        concat_str(GITHUB_TUONO_TAG_COMMIT_TREES_URL, "main?recursive=1")
    } else {
        let mut res = concat_str(GITHUB_TUONO_TAG_COMMIT_TREES_URL, sha);
        res.append("?recursive=1");
        res
    }
}

/// The entries of the repository tree that belong to the example
/// `template`, in tree order.
pub fn new_project_files(tree: &Vec<GithubFile>, template: &str) -> (res: Vec<GithubFile>)
    ensures
        entry_paths(res@) == entry_paths(template_entries(tree@, template@)),
        forall|i: int| 0 <= i < res@.len() ==> #[trigger] res@[i].element_type == template_entries(tree@, template@)[i].element_type,
        res@.len() == template_entries(tree@, template@).len(),
{
    let prefix = template_prefix_string(template);
    let mut res: Vec<GithubFile> = Vec::new();
    assert(tree@.take(0) =~= Seq::<GithubFile>::empty());
    for i in 0..tree.len()
        invariant
            prefix@ == template_prefix(template@),
            res@.len() == template_entries(tree@.take(i as int), template@).len(),
            entry_paths(res@) == entry_paths(template_entries(tree@.take(i as int), template@)),
            forall|j: int| 0 <= j < res@.len() ==> #[trigger] res@[j].element_type == template_entries(tree@.take(i as int), template@)[j].element_type,
    {
        assert(tree@.take(i + 1).drop_last() =~= tree@.take(i as int));
        assert(tree@.take(i + 1).last() == tree@[i as int]);
        let f = &tree[i];
        if starts_with(f.path.as_str(), prefix.as_str()) {
            let ghost before = res@;
            let ghost prev = template_entries(tree@.take(i as int), template@);
            res.push(GithubFile { path: f.path.clone(), element_type: f.element_type });
            assert(template_entries(tree@.take(i + 1), template@) == prev.push(tree@[i as int]));
            assert(entry_paths(res@) =~= entry_paths(before).push(f.path@));
            assert(entry_paths(prev.push(tree@[i as int])) =~= entry_paths(prev).push(f.path@));
        }
    }
    assert(tree@.take(tree@.len() as int) =~= tree@);
    res
}

/// `examples/<template>/`.
pub fn template_prefix_string(template: &str) -> (res: String)
    ensures
        res@ == template_prefix(template@),
{
    let mut res = concat_str("examples/", template);
    res.append("/");
    res
}

/// Where an entry of the example goes within the new project.
pub fn project_path(path: &str, template: &str) -> (res: String)
    ensures
        res@ == local_path(path@, template@),
{
    proof {
        reveal_strlit("examples/");
        reveal_strlit("");
        assert(""@ =~= Seq::<char>::empty());
    }
    let prefix = template_prefix_string(template);
    replace_str(path, prefix.as_str(), "")
}

/// The address of a file of the example: at the main branch when asked
/// for, at the version's tag otherwise (also when no choice was made).
pub fn file_url(select_main_branch_template: Option<bool>, version: &str, path: &str) -> (res: String)
    ensures
        res@ == raw_file_url(
            if select_main_branch_template == Some(true) { "main"@ } else { "v"@ + version@ },
            path@,
        ),
{
    let tag = match select_main_branch_template {
        Some(true) => owned("main"),
        _ => concat_str("v", version),
    };
    let mut res = concat_str(GITHUB_RAW_CONTENT_URL, "/");
    res.append(tag.as_str());
    res.append("/");
    res.append(path);
    res
}

/// `package.json` with the framework's package pinned to `version`.
pub fn update_package_json_version(contents: &str, version: &str) -> (res: String)
    ensures
        res@ == pinned_package_json(contents@, version@),
{
    proof {
        reveal_strlit("link:../../packages/tuono");
    }
    replace_str(contents, "link:../../packages/tuono", version)
}

/// `Cargo.toml` with the framework's crate pinned to `version`.
pub fn update_cargo_toml_version(contents: &str, version: &str) -> (res: String)
    ensures
        res@ == pinned_cargo_toml(contents@, version@),
{
    proof {
        reveal_strlit("{ path = \"../../crates/tuono_lib/\"}");
    }
    let mut quoted = concat_str("\"", version);
    quoted.append("\"");
    replace_str(contents, "{ path = \"../../crates/tuono_lib/\"}", quoted.as_str())
}

/// The lines that close the scaffolding: how to enter the folder (unless
/// the project was made in place), install and run.
pub fn outro(folder_name: &str) -> (res: Vec<String>)
    ensures
        views(res@) == if folder_name@ == "."@ {
            seq!["Success! 🎉"@, "\nInstall the dependencies:"@, "npm install"@, "\nRun the local environment:"@, "tuono dev"@]
        } else {
            seq![
                "Success! 🎉"@,
                "\nGo to the project directory:"@,
                "cd "@ + folder_name@ + "/"@,
                "\nInstall the dependencies:"@,
                "npm install"@,
                "\nRun the local environment:"@,
                "tuono dev"@,
            ]
        },
{
    let mut res: Vec<String> = Vec::new();
    res.push(owned("Success! 🎉"));
    if !str_eq(folder_name, ".") {
        res.push(owned("\nGo to the project directory:"));
        let mut cd = concat_str("cd ", folder_name);
        cd.append("/");
        res.push(cd);
    }
    res.push(owned("\nInstall the dependencies:"));
    res.push(owned("npm install"));
    res.push(owned("\nRun the local environment:"));
    res.push(owned("tuono dev"));
    assert(views(res@) =~= if folder_name@ == "."@ {
        seq!["Success! 🎉"@, "\nInstall the dependencies:"@, "npm install"@, "\nRun the local environment:"@, "tuono dev"@]
    } else {
        seq![
            "Success! 🎉"@,
            "\nGo to the project directory:"@,
            "cd "@ + folder_name@ + "/"@,
            "\nInstall the dependencies:"@,
            "npm install"@,
            "\nRun the local environment:"@,
            "tuono dev"@,
        ]
    });
    res
}

} // verus!
