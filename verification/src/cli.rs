//! Command-line options and the connection settings resolved from them, the
//! environment and the configuration file.
use vstd::prelude::*;
use crate::config::{DEFAULT_ENDPOINT, DEFAULT_REGION, AwsConfig, Environment, StaticCredentials, opt_view, first_of, non_empty};
use crate::text::{copy_opt, is_empty_str};

verus! {

broadcast use vstd::string::group_string_axioms;

/// Options given on the command line (`AWS_PROFILE`, `AWS_ACCESS_KEY_ID`,
/// `AWS_SECRET_ACCESS_KEY` and `AWS_SESSION_TOKEN` fill the matching options
/// when they are not given).
#[derive(Debug)]
pub struct Cli {
    pub region: Option<String>,
    pub endpoint: Option<String>,
    pub profile: Option<String>,
    pub access_key: Option<String>,
    pub secret_key: Option<String>,
    pub session_token: Option<String>,
    pub force_path_style: bool,
    pub no_path_style: bool,
}

/// Connection settings after applying the precedence
/// `CLI options > environment > config file > defaults`.
#[derive(Debug)]
pub struct ResolvedSettings {
    pub region: String,
    pub endpoint: Option<String>,
    pub profile: Option<String>,
    pub force_path_style: bool,
    pub credentials: Option<StaticCredentials>,
}

/// Region: the option, else the configuration's effective region.
pub open spec fn resolved_region(cli: Cli, cfg: AwsConfig, env: Environment) -> Seq<char> {
    match cli.region {
        Some(r) => r@,
        None => cfg.region_spec(env),
    }
}

/// Endpoint: the option, else the effective endpoint; none when that is empty.
pub open spec fn resolved_endpoint(cli: Cli, cfg: AwsConfig, env: Environment) -> Option<Seq<char>> {
    non_empty(first_of(opt_view(cli.endpoint), Some(cfg.endpoint_spec(env))))
}

/// Profile: the option, else the configured one; none when that is empty.
pub open spec fn resolved_profile(cli: Cli, cfg: AwsConfig) -> Option<Seq<char>> {
    non_empty(first_of(opt_view(cli.profile), opt_view(cfg.profile)))
}

/// Path-style addressing: off with `--no-path-style`, on with
/// `--force-path-style`, else the configuration's choice, on by default.
pub open spec fn resolved_path_style(cli: Cli, cfg: AwsConfig) -> bool {
    if cli.no_path_style {
        false
    } else if cli.force_path_style {
        true
    } else {
        match cfg.force_path_style {
            Some(b) => b,
            None => true,
        }
    }
}

/// Both keys were given on the command line, non-empty.
pub open spec fn cli_keys_given(cli: Cli) -> bool {
    &&& non_empty(opt_view(cli.access_key)) is Some
    &&& non_empty(opt_view(cli.secret_key)) is Some
}

/// Credentials: the command line's keys when both are given (with its session
/// token unless empty), else the configuration's when complete, else none.
pub open spec fn credentials_post(cli: Cli, cfg: AwsConfig, r: Option<StaticCredentials>) -> bool {
    if cli_keys_given(cli) {
        &&& r is Some
        &&& r->0.access_key_id == cli.access_key
        &&& r->0.secret_access_key == cli.secret_key
        &&& opt_view(r->0.session_token) == non_empty(opt_view(cli.session_token))
    } else {
        r == match cfg.credentials {
            Some(c) => if c.complete() { Some(c) } else { None },
            None => None,
        }
    }
}

/// The optional string unless it is empty.
fn keep_non_empty(o: Option<String>) -> (r: Option<String>)
    ensures
        opt_view(r) == non_empty(opt_view(o)),
        r is Some ==> r == o,
{
    match o {
        Some(s) => {
            if is_empty_str(s.as_str()) {
                None
            } else {
                Some(s)
            }
        },
        None => None,
    }
}

/// Whether the optional string is present and non-empty.
fn present(o: &Option<String>) -> (r: bool)
    ensures
        r == (non_empty(opt_view(*o)) is Some),
{
    match o {
        Some(s) => !is_empty_str(s.as_str()),
        None => false,
    }
}

impl ResolvedSettings {
    /// Resolve every connection setting from the command line, the
    /// environment and the configuration file, in that order of precedence.
    pub fn from_parts(cli: &Cli, cfg: &AwsConfig, env: &Environment) -> (s: Self)
        ensures
            s.region@ == resolved_region(*cli, *cfg, *env),
            opt_view(s.endpoint) == resolved_endpoint(*cli, *cfg, *env),
            opt_view(s.profile) == resolved_profile(*cli, *cfg),
            s.force_path_style == resolved_path_style(*cli, *cfg),
            credentials_post(*cli, *cfg, s.credentials),
    {
        let endpoint = match &cli.endpoint {
            Some(e) => keep_non_empty(Some(e.clone())),
            None => keep_non_empty(Some(cfg.effective_endpoint(env))),
        };
        let region = match &cli.region {
            Some(r) => r.clone(),
            None => cfg.effective_region(env),
        };
        let profile = match &cli.profile {
            Some(p) => keep_non_empty(Some(p.clone())),
            None => keep_non_empty(copy_opt(&cfg.profile)),
        };
        let force_path_style = if cli.no_path_style {
            false
        } else if cli.force_path_style {
            true
        } else {
            match cfg.force_path_style {
                Some(b) => b,
                None => true,
            }
        };
        let credentials = if present(&cli.access_key) && present(&cli.secret_key) {
            Some(StaticCredentials {
                access_key_id: copy_opt(&cli.access_key),
                secret_access_key: copy_opt(&cli.secret_key),
                session_token: keep_non_empty(copy_opt(&cli.session_token)),
            })
        } else {
            match &cfg.credentials {
                Some(c) => {
                    if present(&c.access_key_id) && present(&c.secret_access_key) {
                        Some(c.clone())
                    } else {
                        None
                    }
                },
                None => None,
            }
        };
        ResolvedSettings { region, endpoint, profile, force_path_style, credentials }
    }
}

/// Precedence of the connection settings: a command-line option wins over
/// everything else; without it the environment wins over the configuration
/// file (`AWS_REGION` before `AWS_DEFAULT_REGION`), and the configuration file
/// wins over the defaults. `--no-path-style` wins over `--force-path-style`,
/// and path-style addressing is on when nothing decides.
pub proof fn lemma_settings_precedence(cli: Cli, cfg: AwsConfig, env: Environment)
    ensures
        cli.region is Some ==> resolved_region(cli, cfg, env) == cli.region->0@,
        cli.region is None && env.aws_region is Some
            ==> resolved_region(cli, cfg, env) == env.aws_region->0@,
        cli.region is None && env.aws_region is None && env.aws_default_region is Some
            ==> resolved_region(cli, cfg, env) == env.aws_default_region->0@,
        cli.region is None && env.aws_region is None && env.aws_default_region is None && cfg.region is Some
            ==> resolved_region(cli, cfg, env) == cfg.region->0@,
        cli.region is None && env.aws_region is None && env.aws_default_region is None && cfg.region is None
            ==> resolved_region(cli, cfg, env) == DEFAULT_REGION@,
        cli.endpoint is Some && cli.endpoint->0@.len() > 0
            ==> resolved_endpoint(cli, cfg, env) == Some(cli.endpoint->0@),
        cli.endpoint is None && env.s3_endpoint is Some && env.s3_endpoint->0@.len() > 0
            ==> resolved_endpoint(cli, cfg, env) == Some(env.s3_endpoint->0@),
        cli.endpoint is None && env.s3_endpoint is None && cfg.endpoint is Some && cfg.endpoint->0@.len() > 0
            ==> resolved_endpoint(cli, cfg, env) == Some(cfg.endpoint->0@),
        cli.endpoint is None && env.s3_endpoint is None && cfg.endpoint is None
            ==> resolved_endpoint(cli, cfg, env) == Some(DEFAULT_ENDPOINT@),
        cli.profile is Some && cli.profile->0@.len() > 0 ==> resolved_profile(cli, cfg) == Some(cli.profile->0@),
        cli.no_path_style ==> !resolved_path_style(cli, cfg),
        !cli.no_path_style && cli.force_path_style ==> resolved_path_style(cli, cfg),
        !cli.no_path_style && !cli.force_path_style && cfg.force_path_style is None ==> resolved_path_style(cli, cfg),
{
    reveal_strlit("http://pi:4566");
}

} // verus!
