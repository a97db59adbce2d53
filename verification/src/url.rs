//! The addresses of the repository that a new project is fetched from, as
//! the scaffolding reads them.
use vstd::prelude::*;
use crate::text::{owned, str_eq, concat_str};
use crate::external_url::external_urls;

verus! {

broadcast use vstd::string::group_string_axioms;

/// The addresses of the framework's repository.
#[derive(Debug)]
pub struct ExternalUrl {
    pub github_tuono_tags_url: String,
    pub github_tuono_tag_commit_trees_url: String,
    pub github_raw_content_url: String,
}

/// The addresses for the value of `ENVIRONMENT` and of `MOCK_URI`, which a
/// test environment must set: under test all of them are the mock server's
/// address followed by `/`; otherwise GitHub's.
pub fn get_url(environment: &str, mock_uri: Option<&str>) -> (res: ExternalUrl)
    requires
        environment@ == "test"@ ==> mock_uri is Some,
    ensures
        (res.github_tuono_tags_url@, res.github_tuono_tag_commit_trees_url@, res.github_raw_content_url@)
            == external_urls(environment@, match mock_uri { Some(m) => Some(m@), None => None }),
{
    let mut github_tuono_tags_url = owned("https://api.github.com/repos/tuono-labs/tuono/git/ref/tags/");
    let mut github_tuono_tag_commit_trees_url = owned("https://api.github.com/repos/tuono-labs/tuono/git/trees/");
    let mut github_raw_content_url = owned("https://raw.githubusercontent.com/tuono-labs/tuono/");
    if str_eq(environment, "test") {
        let mock = match mock_uri {
            Some(m) => m,
            None => "",
        };
        let mock_url = concat_str(mock, "/");
        github_tuono_tags_url = mock_url.clone();
        github_tuono_tag_commit_trees_url = mock_url.clone();
        github_raw_content_url = mock_url;
    }
    ExternalUrl { github_tuono_tags_url, github_tuono_tag_commit_trees_url, github_raw_content_url }
}

} // verus!
