//! The settings record that drives a run: the build command, the output
//! directory, the upload domain, and the auth token. Also the rules that
//! resolve a prompted value and normalize the domain.

use vstd::prelude::*;
use vstd::string::StrSliceExecFns;
use vstd::string::StringExecFns;

use crate::text::is_prefix_of;
use crate::text::str_starts_with;
use crate::text::trim_spec;
use crate::text::trimmed;

verus! {

/// The persisted settings, each field optional until the user supplies it.
pub struct Config {
    pub build_command: Option<String>,
    pub directory: Option<String>,
    pub domain: Option<String>,
    pub auth: Option<String>,
}

/// The field's characters, or `not set` where the field is missing.
pub open spec fn displayed_field(o: Option<String>) -> Seq<char> {
    match o {
        Some(s) => s@,
        None => "not set"@,
    }
}

/// The summary that `Config::to_string` prints: one line per user-facing field.
pub open spec fn config_display(c: Config) -> Seq<char> {
    "\tDomain: "@ + displayed_field(c.domain) + ",\n\tOutput Directory: "@ + displayed_field(
        c.directory,
    ) + ",\n\tBuild Command: "@ + displayed_field(c.build_command) + "\n\n"@
}

/// The fields the archive and upload steps read are all present.
pub open spec fn deploy_ready(c: Config) -> bool {
    c.directory is Some && c.domain is Some && c.auth is Some
}

impl Config {
    /// The starting settings: a conventional build command and output
    /// directory, with the domain and auth token left for the user.
    pub fn default() -> (c: Config)
        ensures
            c.build_command matches Some(b) && b@ == "npm run build"@,
            c.directory matches Some(d) && d@ == "build"@,
            c.domain is None,
            c.auth is None,
    {
        Config {
            build_command: Some(String::from_str("npm run build")),
            directory: Some(String::from_str("build")),
            domain: None,
            auth: None,
        }
    }

    /// One readable summary of the settings, `not set` standing in for a
    /// missing field.
    pub fn to_string(&self) -> (r: String)
        ensures
            r@ == config_display(*self),
    {
        let mut r = String::from_str("\tDomain: ");
        match &self.domain {
            Some(d) => r.append(d.as_str()),
            None => r.append("not set"),
        }
        r.append(",\n\tOutput Directory: ");
        match &self.directory {
            Some(d) => r.append(d.as_str()),
            None => r.append("not set"),
        }
        r.append(",\n\tBuild Command: ");
        match &self.build_command {
            Some(b) => r.append(b.as_str()),
            None => r.append("not set"),
        }
        r.append("\n\n");
        proof {
            assert(r@ =~= config_display(*self));
        }
        r
    }

    /// Whether the archive and upload steps may run on these settings.
    pub fn ready_for_deploy(&self) -> (r: bool)
        ensures
            r == deploy_ready(*self),
    {
        self.directory.is_some() && self.domain.is_some() && self.auth.is_some()
    }
}

/// The file in the project root that holds the persisted settings.
pub fn config_file_name() -> (r: &'static str)
    ensures
        r@ == ".uploader"@,
{
    ".uploader"
}

/// The domain as the uploader will use and persist it: kept as given when it
/// already starts with `http`, prefixed with `https://` otherwise.
pub fn normalize_domain(domain: &str) -> (r: String)
    ensures
        is_prefix_of("http"@, domain@) ==> r@ == domain@,
        !is_prefix_of("http"@, domain@) ==> r@ == "https://"@ + domain@,
{
    if str_starts_with(domain, "http") {
        domain.to_owned()
    } else {
        let mut r = String::from_str("https://");
        r.append(domain);
        r
    }
}

/// What one answer at a prompt resolves to: the trimmed answer when it is
/// non-empty, the default otherwise, and nothing when both are empty.
pub fn resolve_input(line: &str, default: &Option<String>) -> (r: Option<String>)
    ensures
        trim_spec(line@).len() > 0 ==> (r matches Some(v) && v@ == trim_spec(line@)),
        trim_spec(line@).len() == 0 ==> (match default {
            Some(d) => r matches Some(v) && v@ == d@,
            None => r is None,
        }),
{
    let t = trimmed(line);
    if t.as_str().unicode_len() > 0 {
        Some(t)
    } else {
        match default {
            Some(d) => Some(d.clone()),
            None => None,
        }
    }
}

} // verus!
