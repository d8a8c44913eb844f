//! Configuration loading: validate the presence of the host URL, the auth
//! token and the target filename, and derive the graph-query endpoint from
//! the host URL.

use vstd::prelude::*;
use crate::text::{trim_trailing, trim_trailing_slashes};

verus! {

/// The immutable process configuration: host base URL, auth token, the
/// filename to search for, and the derived graph-query endpoint URL.
pub struct Config {
    pub ghe_url: String,
    pub token: String,
    pub filename: String,
    pub graphql_url: String,
}

/// A required configuration value was absent. Each variant names the value.
#[derive(Clone, Copy, Debug, PartialEq, Eq, Structural)]
pub enum ConfigError {
    MissingHostUrl,
    MissingToken,
    MissingFilename,
}

/// The graph-query endpoint derived from a host base URL: the URL with
/// trailing slashes removed, followed by the fixed API path segment.
pub open spec fn graphql_url_of(ghe_url: Seq<char>) -> Seq<char> {
    trim_trailing_slashes(ghe_url) + "/api/graphql"@
}

/// Which error `Config::build` owes for a given combination of absent
/// values: the host URL is checked first, then the token, then the filename.
pub open spec fn spec_config_error(
    ghe_url: Option<String>,
    token: Option<String>,
    filename: Option<String>,
) -> ConfigError {
    if ghe_url is None {
        ConfigError::MissingHostUrl
    } else if token is None {
        ConfigError::MissingToken
    } else {
        ConfigError::MissingFilename
    }
}

impl ConfigError {
    /// A descriptive message naming the missing value.
    pub fn message(&self) -> (r: String)
        ensures
            r@ == match *self {
                ConfigError::MissingHostUrl => "environment variable GHE_URL is not set"@,
                ConfigError::MissingToken => "environment variable GITHUB_TOKEN is not set"@,
                ConfigError::MissingFilename => "usage: git-searcher <filename>"@,
            },
    {
        match self {
            ConfigError::MissingHostUrl => "environment variable GHE_URL is not set".to_owned(),
            ConfigError::MissingToken => "environment variable GITHUB_TOKEN is not set".to_owned(),
            ConfigError::MissingFilename => "usage: git-searcher <filename>".to_owned(),
        }
    }
}

impl Config {
    /// Build the configuration from the values read out of the process
    /// environment and the argument list. Succeeds exactly when all three
    /// values are present; the derived endpoint is the host URL, trailing
    /// slashes trimmed, with the fixed API path appended.
    pub fn build(
        ghe_url: Option<String>,
        token: Option<String>,
        filename: Option<String>,
    ) -> (r: Result<Config, ConfigError>)
        ensures
            r is Ok <==> ghe_url is Some && token is Some && filename is Some,
            r matches Ok(c) ==> {
                &&& c.ghe_url@ == ghe_url->0@
                &&& c.token@ == token->0@
                &&& c.filename@ == filename->0@
                &&& c.graphql_url@ == graphql_url_of(ghe_url->0@)
            },
            r matches Err(e) ==> e == spec_config_error(ghe_url, token, filename),
    {
        let ghe_url = match ghe_url {
            Some(u) => u,
            None => {
                return Err(ConfigError::MissingHostUrl);
            },
        };
        let token = match token {
            Some(t) => t,
            None => {
                return Err(ConfigError::MissingToken);
            },
        };
        let filename = match filename {
            Some(f) => f,
            None => {
                return Err(ConfigError::MissingFilename);
            },
        };
        let mut graphql_url = trim_trailing(ghe_url.as_str()).to_owned();
        graphql_url.append("/api/graphql");
        Ok(Config { ghe_url, token, filename, graphql_url })
    }

    /// The code-search endpoint derived from the host URL.
    pub fn search_url(&self) -> (r: String)
        ensures
            r@ == trim_trailing_slashes(self.ghe_url@) + "/api/v3/search/code"@,
    {
        let mut u = trim_trailing(self.ghe_url.as_str()).to_owned();
        u.append("/api/v3/search/code");
        u
    }

    /// The repository-metadata endpoint for one target.
    pub fn repo_info_url(&self, owner: &str, repo: &str) -> (r: String)
        ensures
            r@ == trim_trailing_slashes(self.ghe_url@) + "/api/v3/repos/"@ + owner@ + "/"@
                + repo@,
    {
        let mut u = trim_trailing(self.ghe_url.as_str()).to_owned();
        u.append("/api/v3/repos/");
        u.append(owner);
        u.append("/");
        u.append(repo);
        u
    }

    /// The search query filtering by the configured filename.
    pub fn search_query(&self) -> (r: String)
        ensures
            r@ == "filename:"@ + self.filename@,
    {
        let mut q = "filename:".to_owned();
        q.append(self.filename.as_str());
        q
    }
}

} // verus!
