//! The addresses that a new project is fetched from.
use vstd::prelude::*;
use crate::text::{owned, str_eq, concat_str};

verus! {

broadcast use vstd::string::group_string_axioms;

/// The addresses of the framework's repository.
#[derive(Debug)]
pub struct ExternalUrl {
    pub github_tuono_tags_url: String,
    pub github_tuono_tag_commit_trees_url: String,
    pub github_raw_content_url: String,
}

/// The three addresses for the environment: under test all of them are the
/// mock server's address followed by `/`; otherwise GitHub's.
pub open spec fn external_urls(environment: Seq<char>, mock_uri: Option<Seq<char>>) -> (Seq<char>, Seq<char>, Seq<char>) {
    if environment == "test"@ {
        let m = mock_uri.unwrap() + "/"@;
        (m, m, m)
    } else {
        (
            "https://api.github.com/repos/tuono-labs/tuono/git/ref/tags/"@,
            "https://api.github.com/repos/tuono-labs/tuono/git/trees/"@,
            "https://raw.githubusercontent.com/tuono-labs/tuono/"@,
        )
    }
}

impl ExternalUrl {
    /// The addresses for the value of `ENVIRONMENT` (empty when unset) and
    /// of `MOCK_URI`, which a test environment must set.
    pub fn new(environment: &str, mock_uri: Option<&str>) -> (res: Self)
        requires
            environment@ == "test"@ ==> mock_uri is Some,
        ensures
            (res.github_tuono_tags_url@, res.github_tuono_tag_commit_trees_url@, res.github_raw_content_url@)
                == external_urls(environment@, match mock_uri { Some(m) => Some(m@), None => None }),
    {
        if str_eq(environment, "test") {
            let mock = match mock_uri {
                Some(m) => m,
                None => "",
            };
            let mock_url = concat_str(mock, "/");
            return ExternalUrl {
                github_tuono_tags_url: mock_url.clone(),
                github_tuono_tag_commit_trees_url: mock_url.clone(),
                github_raw_content_url: mock_url,
            };
        }
        let base_uri = "https://api.github.com/repos/tuono-labs/tuono/";
        let tags = concat_str(base_uri, "git/ref/tags/");
        let trees = concat_str(base_uri, "git/trees/");
        proof {
            reveal_strlit("https://api.github.com/repos/tuono-labs/tuono/");
            reveal_strlit("git/ref/tags/");
            reveal_strlit("git/trees/");
            reveal_strlit("https://api.github.com/repos/tuono-labs/tuono/git/ref/tags/");
            reveal_strlit("https://api.github.com/repos/tuono-labs/tuono/git/trees/");
            assert(tags@ =~= "https://api.github.com/repos/tuono-labs/tuono/git/ref/tags/"@);
            assert(trees@ =~= "https://api.github.com/repos/tuono-labs/tuono/git/trees/"@);
        }
        ExternalUrl {
            github_tuono_tags_url: tags,
            github_tuono_tag_commit_trees_url: trees,
            github_raw_content_url: owned("https://raw.githubusercontent.com/tuono-labs/tuono/"),
        }
    }
}

} // verus!
