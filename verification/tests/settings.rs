use s3_tui::cli::{Cli, ResolvedSettings};
use s3_tui::config::{AwsConfig, Environment, StaticCredentials, UiConfig, DEFAULT_CONFIG_TOML, DEFAULT_REGION};

fn no_cli() -> Cli {
    Cli {
        region: None,
        endpoint: None,
        profile: None,
        access_key: None,
        secret_key: None,
        session_token: None,
        force_path_style: false,
        no_path_style: false,
    }
}

fn no_env() -> Environment {
    Environment::default()
}

fn sample_config() -> AwsConfig {
    AwsConfig {
        region: Some("eu-west-1".to_string()),
        endpoint: Some("http://cfg:9000".to_string()),
        profile: Some("dev".to_string()),
        force_path_style: Some(false),
        credentials: Some(StaticCredentials {
            access_key_id: Some("cfg-ak".to_string()),
            secret_access_key: Some("cfg-sk".to_string()),
            session_token: None,
        }),
        ui: None,
    }
}

#[test]
fn cli_flags_override_config() {
    let cli = Cli {
        region: Some("us-west-2".to_string()),
        endpoint: Some("http://cli:9000".to_string()),
        profile: Some("prod".to_string()),
        ..no_cli()
    };
    let s = ResolvedSettings::from_parts(&cli, &sample_config(), &no_env());
    assert_eq!(s.region, "us-west-2");
    assert_eq!(s.endpoint.as_deref(), Some("http://cli:9000"));
    assert_eq!(s.profile.as_deref(), Some("prod"));
}

#[test]
fn config_values_used_when_cli_absent() {
    let s = ResolvedSettings::from_parts(&no_cli(), &sample_config(), &no_env());
    assert_eq!(s.region, "eu-west-1");
    assert_eq!(s.endpoint.as_deref(), Some("http://cfg:9000"));
    assert_eq!(s.profile.as_deref(), Some("dev"));
    assert!(!s.force_path_style, "config force_path_style=false respected");
}

#[test]
fn static_credentials_from_config_are_valid() {
    let s = ResolvedSettings::from_parts(&no_cli(), &sample_config(), &no_env());
    let creds = s.credentials.expect("config credentials used");
    assert_eq!(creds.access_key_id.as_deref(), Some("cfg-ak"));
    assert_eq!(creds.secret_access_key.as_deref(), Some("cfg-sk"));
}

#[test]
fn cli_credentials_override_config() {
    let cli = Cli {
        access_key: Some("cli-ak".to_string()),
        secret_key: Some("cli-sk".to_string()),
        ..no_cli()
    };
    let s = ResolvedSettings::from_parts(&cli, &sample_config(), &no_env());
    let creds = s.credentials.expect("cli credentials used");
    assert_eq!(creds.access_key_id.as_deref(), Some("cli-ak"));
    assert_eq!(creds.secret_access_key.as_deref(), Some("cli-sk"));
}

#[test]
fn no_path_style_flag_wins() {
    let cli = Cli { force_path_style: true, no_path_style: true, ..no_cli() };
    let s = ResolvedSettings::from_parts(&cli, &sample_config(), &no_env());
    assert!(!s.force_path_style);
}

#[test]
fn endpoint_env_var_falls_back_before_config() {
    let env = Environment { s3_endpoint: Some("http://env:4566".to_string()), ..no_env() };
    let s = ResolvedSettings::from_parts(&no_cli(), &AwsConfig::default(), &env);
    assert_eq!(s.endpoint.as_deref(), Some("http://env:4566"));
}

#[test]
fn profile_env_var_is_picked_up() {
    // `AWS_PROFILE` fills the profile option when it is not given.
    let cli = Cli { profile: Some("envprofile".to_string()), ..no_cli() };
    let s = ResolvedSettings::from_parts(&cli, &AwsConfig::default(), &no_env());
    assert_eq!(s.profile.as_deref(), Some("envprofile"));
}

#[test]
fn defaults_apply_with_empty_config() {
    let s = ResolvedSettings::from_parts(&no_cli(), &AwsConfig::default(), &no_env());
    assert_eq!(s.region, "us-east-1");
    assert_eq!(s.endpoint.as_deref(), Some("http://pi:4566"));
    assert!(s.force_path_style);
}

#[test]
fn incomplete_cli_credentials_are_ignored() {
    let cli = Cli { access_key: Some("only-ak".to_string()), ..no_cli() };
    let s = ResolvedSettings::from_parts(&cli, &AwsConfig::default(), &no_env());
    assert!(s.credentials.is_none());
}

#[test]
fn effective_region_prefers_env_vars_over_config() {
    let cfg = AwsConfig { region: Some("us-west-2".to_string()), ..AwsConfig::default() };
    let env = Environment {
        aws_region: Some("sa-east-1".to_string()),
        aws_default_region: Some("eu-central-1".to_string()),
        s3_endpoint: None,
    };
    assert_eq!(cfg.effective_region(&env), "sa-east-1", "AWS_REGION wins");
    let env = Environment { aws_region: None, ..env };
    assert_eq!(cfg.effective_region(&env), "eu-central-1", "AWS_DEFAULT_REGION is the next fallback");
    let env = Environment { aws_default_region: None, ..env };
    assert_eq!(cfg.effective_region(&env), "us-west-2", "config region");
    assert_eq!(AwsConfig::default().effective_region(&env), DEFAULT_REGION, "default region");
}

#[test]
fn default_config_toml_is_parseable() {
    let table: toml::Table = toml::from_str(DEFAULT_CONFIG_TOML).unwrap();
    assert_eq!(table.get("region").and_then(|v| v.as_str()), Some("us-east-1"));
    let theme = table
        .get("ui")
        .and_then(|ui| ui.get("theme"))
        .and_then(|t| t.as_str())
        .map(str::to_string);
    let cfg = AwsConfig {
        region: Some("us-east-1".to_string()),
        ui: Some(UiConfig { theme }),
        ..AwsConfig::default()
    };
    assert_eq!(cfg.effective_theme().as_deref(), Some("catppuccin"), "default config ships with a theme");
    assert!(table.get("credentials").is_none(), "standard AWS: default config has no static credentials");
    assert!(table.get("endpoint").is_none(), "standard AWS: no endpoint in default config");
}

#[test]
fn empty_cli_values_do_not_count() {
    let cli = Cli {
        endpoint: Some(String::new()),
        profile: Some(String::new()),
        access_key: Some("ak".to_string()),
        secret_key: Some(String::new()),
        ..no_cli()
    };
    let s = ResolvedSettings::from_parts(&cli, &sample_config(), &no_env());
    assert_eq!(s.endpoint, None, "an empty endpoint option disables the endpoint");
    assert_eq!(s.profile, None);
    let creds = s.credentials.expect("config credentials used when the CLI pair is incomplete");
    assert_eq!(creds.access_key_id.as_deref(), Some("cfg-ak"));
}

#[test]
fn cli_session_token_kept_unless_empty() {
    let mut cli = Cli {
        access_key: Some("ak".to_string()),
        secret_key: Some("sk".to_string()),
        session_token: Some("tok".to_string()),
        ..no_cli()
    };
    let s = ResolvedSettings::from_parts(&cli, &AwsConfig::default(), &no_env());
    assert_eq!(s.credentials.unwrap().session_token.as_deref(), Some("tok"));
    cli.session_token = Some(String::new());
    let s = ResolvedSettings::from_parts(&cli, &AwsConfig::default(), &no_env());
    assert_eq!(s.credentials.unwrap().session_token, None);
}

#[test]
fn incomplete_config_credentials_are_ignored() {
    let cfg = AwsConfig {
        credentials: Some(StaticCredentials {
            access_key_id: Some("ak".to_string()),
            secret_access_key: None,
            session_token: None,
        }),
        ..AwsConfig::default()
    };
    let s = ResolvedSettings::from_parts(&no_cli(), &cfg, &no_env());
    assert!(s.credentials.is_none());
}

#[test]
fn path_style_follows_flags_then_config() {
    let cfg = sample_config();
    let s = ResolvedSettings::from_parts(&Cli { force_path_style: true, ..no_cli() }, &cfg, &no_env());
    assert!(s.force_path_style);
    let s = ResolvedSettings::from_parts(&no_cli(), &AwsConfig { force_path_style: Some(true), ..AwsConfig::default() }, &no_env());
    assert!(s.force_path_style);
}

#[test]
fn endpoint_precedence_and_effective_values() {
    let cfg = sample_config();
    let env = Environment { s3_endpoint: Some("http://env:1".to_string()), ..no_env() };
    assert_eq!(cfg.effective_endpoint(&env), "http://env:1");
    assert_eq!(cfg.effective_endpoint(&no_env()), "http://cfg:9000");
    assert_eq!(AwsConfig::default().effective_endpoint(&no_env()), "http://pi:4566");
    assert_eq!(AwsConfig::default().effective_theme(), None);
}
