//! Connection and UI settings read from the configuration file, and the
//! values they take once the environment is taken into account.
use vstd::prelude::*;
use crate::text::{copy_str, copy_opt};

verus! {

broadcast use vstd::string::group_string_axioms;

/// Endpoint used when neither `S3_ENDPOINT` nor the configuration gives one.
pub const DEFAULT_ENDPOINT: &'static str = "http://pi:4566";

/// Region used when neither the environment nor the configuration gives one.
pub const DEFAULT_REGION: &'static str = "us-east-1";

/// Contents of the configuration file written on first run.
pub const DEFAULT_CONFIG_TOML: &'static str = r#"# s3-tui configuration
#
# Every value can also be given from the command line (--region, --endpoint,
# --profile, --access-key, --secret-key) or via the usual AWS/S3 environment
# variables (AWS_REGION, AWS_DEFAULT_REGION, S3_ENDPOINT, AWS_PROFILE,
# AWS_ACCESS_KEY_ID, AWS_SECRET_ACCESS_KEY). Precedence: CLI > env > config.
region = "us-east-1"

# Uncomment for S3-compatible services (LocalStack, MinIO, etc.).
# endpoint = "http://localhost:4566"
# force_path_style = true

[ui]
# Theme ID (built-ins: catppuccin, dracula, gruvbox, nord, one-dark, solarized,
# tailwind, tokyo-night, rose-pine, terminal). Override at runtime with
# S3TUI_THEME; NO_COLOR disables colours entirely.
theme = "catppuccin"

# Uncomment to use static credentials. When omitted, the standard AWS
# credential chain is used (env vars, ~/.aws/credentials, IAM roles, etc.).
# [credentials]
# access_key_id = ""
# secret_access_key = ""
"#;

/// The optional string as a character sequence.
pub open spec fn opt_view(o: Option<String>) -> Option<Seq<char>> {
    match o {
        Some(s) => Some(s@),
        None => None,
    }
}

/// `a` when present, else `b`.
pub open spec fn first_of(a: Option<Seq<char>>, b: Option<Seq<char>>) -> Option<Seq<char>> {
    match a {
        Some(x) => Some(x),
        None => b,
    }
}

/// The value, unless it is absent or empty.
pub open spec fn non_empty(o: Option<Seq<char>>) -> Option<Seq<char>> {
    match o {
        Some(s) => if s.len() > 0 { Some(s) } else { None },
        None => None,
    }
}

/// UI preferences of the configuration file.
#[derive(Debug)]
pub struct UiConfig {
    /// Theme used when `S3TUI_THEME` and `NO_COLOR` do not decide.
    pub theme: Option<String>,
}

impl Default for UiConfig {
    fn default() -> (r: Self)
        ensures
            r.theme is None,
    {
        UiConfig { theme: None }
    }
}

impl Clone for UiConfig {
    fn clone(&self) -> (r: Self)
        ensures
            r == *self,
    {
        UiConfig { theme: copy_opt(&self.theme) }
    }
}

/// Static credentials for the S3 client.
#[derive(Debug)]
pub struct StaticCredentials {
    pub access_key_id: Option<String>,
    pub secret_access_key: Option<String>,
    pub session_token: Option<String>,
}

impl StaticCredentials {
    /// Both the access key and the secret key are present and non-empty.
    pub open spec fn complete(self) -> bool {
        &&& non_empty(opt_view(self.access_key_id)) is Some
        &&& non_empty(opt_view(self.secret_access_key)) is Some
    }
}

impl Default for StaticCredentials {
    fn default() -> (r: Self)
        ensures
            r.access_key_id is None,
            r.secret_access_key is None,
            r.session_token is None,
    {
        StaticCredentials { access_key_id: None, secret_access_key: None, session_token: None }
    }
}

impl Clone for StaticCredentials {
    fn clone(&self) -> (r: Self)
        ensures
            r == *self,
    {
        StaticCredentials {
            access_key_id: copy_opt(&self.access_key_id),
            secret_access_key: copy_opt(&self.secret_access_key),
            session_token: copy_opt(&self.session_token),
        }
    }
}

/// The environment variables the settings depend on, each as read (present,
/// possibly empty, or absent).
#[derive(Debug)]
pub struct Environment {
    /// `AWS_REGION`.
    pub aws_region: Option<String>,
    /// `AWS_DEFAULT_REGION`.
    pub aws_default_region: Option<String>,
    /// `S3_ENDPOINT`.
    pub s3_endpoint: Option<String>,
}

impl Default for Environment {
    fn default() -> (r: Self)
        ensures
            r.aws_region is None,
            r.aws_default_region is None,
            r.s3_endpoint is None,
    {
        Environment { aws_region: None, aws_default_region: None, s3_endpoint: None }
    }
}

/// Contents of the configuration file.
#[derive(Debug)]
pub struct AwsConfig {
    pub region: Option<String>,
    pub endpoint: Option<String>,
    pub profile: Option<String>,
    pub force_path_style: Option<bool>,
    pub credentials: Option<StaticCredentials>,
    pub ui: Option<UiConfig>,
}

impl Default for AwsConfig {
    fn default() -> (r: Self)
        ensures
            r.region is None,
            r.endpoint is None,
            r.profile is None,
            r.force_path_style is None,
            r.credentials is None,
            r.ui is None,
    {
        AwsConfig { region: None, endpoint: None, profile: None, force_path_style: None, credentials: None, ui: None }
    }
}

impl Clone for AwsConfig {
    fn clone(&self) -> (r: Self)
        ensures
            r == *self,
    {
        AwsConfig {
            region: copy_opt(&self.region),
            endpoint: copy_opt(&self.endpoint),
            profile: copy_opt(&self.profile),
            force_path_style: self.force_path_style,
            credentials: match &self.credentials {
                Some(c) => Some(c.clone()),
                None => None,
            },
            ui: match &self.ui {
                Some(u) => Some(u.clone()),
                None => None,
            },
        }
    }
}

impl AwsConfig {
    /// `AWS_REGION`, else `AWS_DEFAULT_REGION`, else the configured region,
    /// else [`DEFAULT_REGION`].
    pub open spec fn region_spec(self, env: Environment) -> Seq<char> {
        match first_of(opt_view(env.aws_region), first_of(opt_view(env.aws_default_region), opt_view(self.region))) {
            Some(r) => r,
            None => DEFAULT_REGION@,
        }
    }

    /// `S3_ENDPOINT`, else the configured endpoint, else [`DEFAULT_ENDPOINT`].
    pub open spec fn endpoint_spec(self, env: Environment) -> Seq<char> {
        match first_of(opt_view(env.s3_endpoint), opt_view(self.endpoint)) {
            Some(e) => e,
            None => DEFAULT_ENDPOINT@,
        }
    }

    /// The theme of the `[ui]` table, when set.
    pub open spec fn theme_spec(self) -> Option<Seq<char>> {
        match self.ui {
            Some(ui) => opt_view(ui.theme),
            None => None,
        }
    }

    /// Effective region: `AWS_REGION` > `AWS_DEFAULT_REGION` > config > default.
    pub fn effective_region(&self, env: &Environment) -> (r: String)
        ensures
            r@ == self.region_spec(*env),
    {
        match &env.aws_region {
            Some(r) => copy_str(r.as_str()),
            None => match &env.aws_default_region {
                Some(r) => copy_str(r.as_str()),
                None => match &self.region {
                    Some(r) => copy_str(r.as_str()),
                    None => copy_str(DEFAULT_REGION),
                },
            },
        }
    }

    /// Effective endpoint: `S3_ENDPOINT` > config > default.
    pub fn effective_endpoint(&self, env: &Environment) -> (r: String)
        ensures
            r@ == self.endpoint_spec(*env),
    {
        match &env.s3_endpoint {
            Some(e) => copy_str(e.as_str()),
            None => match &self.endpoint {
                Some(e) => copy_str(e.as_str()),
                None => copy_str(DEFAULT_ENDPOINT),
            },
        }
    }

    /// Theme ID from the configuration (`[ui] theme`), if set.
    pub fn effective_theme(&self) -> (r: Option<String>)
        ensures
            opt_view(r) == self.theme_spec(),
    {
        match &self.ui {
            Some(ui) => copy_opt(&ui.theme),
            None => None,
        }
    }
}

} // verus!
