use context_shake::config::validate_model_providers;
use context_shake::config::validate_oss_provider;
use context_shake::config::validate_reserved_model_provider_ids;
use context_shake::config::AutoShakeDurationToml;
use context_shake::config::AutoShakeThresholdToml;
use context_shake::config::ConfigToml;
use context_shake::config::ExperimentalRequestUserInput;
use context_shake::config::ForcedChatgptWorkspaceIds;
use context_shake::config::ModelProviderInfo;
use context_shake::config::NetworkSandboxPolicy;
use context_shake::config::OssProviderError;
use context_shake::config::PermissionProfile;
use context_shake::config::ProjectConfig;
use context_shake::config::ProjectPath;
use context_shake::config::SandboxMode;
use context_shake::config::SandboxWorkspaceWrite;
use context_shake::config::TrustLevel;
use context_shake::config::WindowsSandboxLevel;

const WORKSPACE_ID_A: &str = "123e4567-e89b-42d3-a456-426614174000";
const WORKSPACE_ID_B: &str = "123e4567-e89b-42d3-a456-426614174001";

fn read(line: &str) -> toml::Value {
    let table = toml::from_str::<toml::Table>(line).expect("valid TOML");
    table.values().next().expect("one value").clone()
}

fn read_threshold(raw: &str) -> Result<AutoShakeThresholdToml, String> {
    match read(&format!("threshold = {raw}\n")) {
        toml::Value::Integer(n) => AutoShakeThresholdToml::from_bare_int(n),
        toml::Value::String(s) => AutoShakeThresholdToml::parse_str(&s),
        other => panic!("neither a number nor a string: {other:?}"),
    }
}

#[test]
fn forced_chatgpt_workspace_id_accepts_single_string() {
    let value = read(&format!(
        r#"forced_chatgpt_workspace_id = "{WORKSPACE_ID_A}""#
    ));
    let ids = ForcedChatgptWorkspaceIds::from_single(value.as_str().unwrap().to_string())
        .expect("single workspace id");
    assert_eq!(ids.into_vec(), vec![WORKSPACE_ID_A.to_string()]);
}

#[test]
fn forced_chatgpt_workspace_id_accepts_string_list() {
    let value = read(&format!(
        r#"forced_chatgpt_workspace_id = ["{WORKSPACE_ID_A}", "{WORKSPACE_ID_B}"]"#
    ));
    let ids = value
        .as_array()
        .unwrap()
        .iter()
        .map(|id| id.as_str().unwrap().to_string())
        .collect();
    assert_eq!(
        ForcedChatgptWorkspaceIds::Multiple(ids).into_vec(),
        vec![WORKSPACE_ID_A.to_string(), WORKSPACE_ID_B.to_string()]
    );
}

#[test]
fn forced_chatgpt_workspace_id_rejects_comma_separated_string() {
    let value = read(&format!(
        r#"forced_chatgpt_workspace_id = "{WORKSPACE_ID_A},{WORKSPACE_ID_B}""#
    ));
    let message = ForcedChatgptWorkspaceIds::from_single(value.as_str().unwrap().to_string())
        .expect_err("comma-separated string should be rejected");
    assert!(message.contains("TOML list of strings"));
    assert!(message.contains("comma-separated strings are not supported"));
}

fn provider(name: &str, aws: bool, auth_command: Option<&str>) -> ModelProviderInfo {
    ModelProviderInfo {
        name: name.to_string(),
        aws,
        auth_command: auth_command.map(str::to_string),
    }
}

fn on_its_own(provider: &ModelProviderInfo) -> Result<(), String> {
    provider.validate()
}

#[test]
fn amazon_bedrock_auth_command_must_not_be_empty() {
    let providers = vec![(
        "amazon-bedrock".to_string(),
        provider("", false, Some("   ")),
    )];
    let error = validate_model_providers(&providers, &on_its_own)
        .expect_err("empty Amazon Bedrock auth command should be rejected");
    assert!(error
        .contains("model_providers.amazon-bedrock: provider auth.command must not be empty"));
}

#[test]
fn auto_shake_threshold_accepts_every_documented_spelling() {
    let cases: &[(&str, AutoShakeThresholdToml)] = &[
        ("\"off\"", AutoShakeThresholdToml::Off),
        ("\"inherit\"", AutoShakeThresholdToml::Inherit),
        ("40", AutoShakeThresholdToml::Percent(40)),
        ("\"40\"", AutoShakeThresholdToml::Percent(40)),
        ("\"40%\"", AutoShakeThresholdToml::Percent(40)),
        ("100", AutoShakeThresholdToml::Percent(100)),
        ("\"100%\"", AutoShakeThresholdToml::Percent(100)),
        ("160000", AutoShakeThresholdToml::Tokens(160_000)),
        ("\"160000\"", AutoShakeThresholdToml::Tokens(160_000)),
        ("\"160k\"", AutoShakeThresholdToml::Tokens(160_000)),
        ("\"160K\"", AutoShakeThresholdToml::Tokens(160_000)),
        ("101", AutoShakeThresholdToml::Tokens(101)),
        ("\"200000\"", AutoShakeThresholdToml::Tokens(200_000)),
    ];
    for (raw, expected) in cases {
        let parsed =
            read_threshold(raw).unwrap_or_else(|error| panic!("failed to parse {raw}: {error}"));
        assert_eq!(parsed, *expected, "input {raw}");
    }
}

#[test]
fn auto_shake_threshold_rejects_zero_and_negative_values() {
    for raw in [
        "0", "-1", "\"0\"", "\"-5\"", "\"0%\"", "\"-10%\"", "\"0k\"", "\"-1k\"",
    ] {
        let message = match read_threshold(raw) {
            Ok(_) => panic!("{raw} should be rejected"),
            Err(message) => message,
        };
        assert!(
            message.contains("positive") || message.contains("invalid auto_shake threshold"),
            "unexpected error for {raw}: {message}"
        );
    }
}

#[test]
fn auto_shake_threshold_rejects_garbage_strings() {
    for raw in ["\"banana\"", "\"40x\"", "\"\""] {
        let error = match read_threshold(raw) {
            Ok(_) => panic!("{raw} should be rejected"),
            Err(error) => error,
        };
        assert!(error.contains("invalid auto_shake threshold"), "{error}");
    }
}

#[test]
fn errors_quote_what_was_written() {
    assert_eq!(
        AutoShakeThresholdToml::parse_str("a\"b"),
        Err("invalid auto_shake threshold \"a\\\"b\": expected \"off\", \"inherit\", an integer percent, a percent string like \"40%\", or an absolute token count like \"160k\"".to_string())
    );
    assert_eq!(
        AutoShakeThresholdToml::parse_str("0%"),
        Err("invalid auto_shake threshold \"0%\": percent must be positive".to_string())
    );
    assert_eq!(
        AutoShakeThresholdToml::parse_str("-1k"),
        Err(
            "invalid auto_shake threshold \"-1k\": absolute token count must be positive"
                .to_string()
        )
    );
    assert_eq!(
        AutoShakeDurationToml::from_int(-5),
        Err("invalid auto_shake duration \"-5\": must not be negative".to_string())
    );
    assert_eq!(
        AutoShakeDurationToml::parse_str("soon"),
        Err("invalid auto_shake duration \"soon\": expected a number of seconds (e.g. 300) or a duration string like \"5m\", \"1h\" or \"2d\"".to_string())
    );
}

#[test]
fn durations_take_white_space_and_saturate() {
    assert_eq!(
        AutoShakeDurationToml::parse_str(" 2 h ").map(|d| d.as_secs()),
        Ok(7_200)
    );
    assert_eq!(
        AutoShakeDurationToml::parse_str("9223372036854775807d").map(|d| d.as_secs()),
        Ok(i64::MAX)
    );
    assert!(ExperimentalRequestUserInput::default().enabled);
}

#[test]
fn reserved_providers_cannot_be_overridden() {
    let providers = vec![
        ("openai".to_string(), provider("mine", false, None)),
        ("custom".to_string(), provider("custom", false, None)),
        ("lmstudio".to_string(), provider("mine", false, None)),
    ];
    assert_eq!(
        validate_reserved_model_provider_ids(&providers),
        Err("model_providers contains reserved built-in provider IDs: `lmstudio`, `openai`. Built-in providers cannot be overridden. Rename your custom provider (for example, `openai-custom`).".to_string())
    );
    assert_eq!(
        validate_reserved_model_provider_ids(&vec![(
            "amazon-bedrock".to_string(),
            provider("", true, None)
        )]),
        Ok(())
    );
}

#[test]
fn providers_have_names_and_no_foreign_settings() {
    assert_eq!(
        validate_model_providers(
            &vec![("custom".to_string(), provider(" ", false, None))],
            &on_its_own
        ),
        Err("model_providers.custom: provider name must not be empty".to_string())
    );
    let error = validate_model_providers(
        &vec![("custom".to_string(), provider("custom", true, None))],
        &on_its_own,
    )
    .expect_err("aws is for Bedrock only");
    assert_eq!(
        error,
        "model_providers.custom: provider aws is only supported for `amazon-bedrock` or `amazon-bedrock-runtime`"
    );
    assert_eq!(
        validate_model_providers(
            &vec![
                ("custom".to_string(), provider("custom", false, None)),
                (
                    "amazon-bedrock-runtime".to_string(),
                    provider("", true, Some("token"))
                ),
            ],
            &on_its_own
        ),
        Ok(())
    );
}

#[test]
fn the_check_of_a_provider_has_the_last_word() {
    let refuse = |provider: &ModelProviderInfo| Err(format!("{} is refused", provider.name));
    assert_eq!(
        validate_model_providers(
            &vec![
                ("one".to_string(), provider("first", false, None)),
                ("two".to_string(), provider("second", false, None)),
            ],
            &refuse
        ),
        Err("model_providers.one: first is refused".to_string())
    );
    assert_eq!(
        validate_model_providers(
            &vec![("two".to_string(), provider("second", true, None))],
            &refuse
        ),
        Err("model_providers.two: provider aws is only supported for `amazon-bedrock` or `amazon-bedrock-runtime`".to_string())
    );
    assert_eq!(validate_model_providers(&vec![], &refuse), Ok(()));
}

#[test]
fn oss_providers_are_known_ones() {
    assert_eq!(validate_oss_provider("ollama"), Ok(()));
    assert_eq!(validate_oss_provider("lmstudio"), Ok(()));
    assert_eq!(
        validate_oss_provider("ollama-chat"),
        Err(OssProviderError::OllamaChatRemoved)
    );
    assert_eq!(
        validate_oss_provider("other"),
        Err(OssProviderError::Unknown(
            "Invalid OSS provider 'other'. Must be one of: lmstudio, ollama".to_string()
        ))
    );
}

fn settings(mode: Option<SandboxMode>, write: Option<SandboxWorkspaceWrite>) -> ConfigToml {
    ConfigToml {
        sandbox_mode: mode,
        sandbox_workspace_write: write,
        projects: None,
    }
}

fn allow_all(_profile: &PermissionProfile) -> bool {
    true
}

fn allow_none(_profile: &PermissionProfile) -> bool {
    false
}

#[test]
fn trust_decides_the_default_sandbox() {
    let trusted = ProjectConfig {
        trust_level: Some(TrustLevel::Trusted),
    };
    let untrusted = ProjectConfig {
        trust_level: Some(TrustLevel::Untrusted),
    };
    assert!(trusted.is_trusted() && !trusted.is_untrusted());
    assert!(untrusted.is_untrusted() && !untrusted.is_trusted());
    let derive = |project: Option<ProjectConfig>, level: WindowsSandboxLevel, windows: bool| {
        settings(None, None).derive_permission_profile(
            None,
            level,
            project,
            Some(&allow_all),
            windows,
        )
    };
    let off = WindowsSandboxLevel::Disabled;
    assert_eq!(derive(None, off, false), PermissionProfile::ReadOnly);
    assert_eq!(
        derive(Some(trusted), off, false),
        PermissionProfile::WorkspaceWrite
    );
    assert_eq!(
        derive(Some(untrusted), off, false),
        PermissionProfile::WorkspaceWrite
    );
    assert_eq!(derive(Some(trusted), off, true), PermissionProfile::ReadOnly);
    assert_eq!(
        derive(Some(trusted), WindowsSandboxLevel::Elevated, true),
        PermissionProfile::WorkspaceWrite
    );
    assert_eq!(
        derive(Some(ProjectConfig { trust_level: None }), off, false),
        PermissionProfile::ReadOnly
    );
}

#[test]
fn explicit_sandboxes_win_over_constraints() {
    let write = || {
        Some(SandboxWorkspaceWrite {
            writable_roots: vec!["/data".to_string()],
            network_access: true,
            exclude_tmpdir_env_var: true,
            exclude_slash_tmp: false,
        })
    };
    let expected = PermissionProfile::WorkspaceWriteWith {
        writable_roots: vec!["/data".to_string()],
        network: NetworkSandboxPolicy::Enabled,
        exclude_tmpdir_env_var: true,
        exclude_slash_tmp: false,
    };
    let off = WindowsSandboxLevel::Disabled;
    assert_eq!(
        settings(Some(SandboxMode::WorkspaceWrite), write()).derive_permission_profile(
            None,
            off,
            None,
            Some(&allow_none),
            false
        ),
        expected
    );
    assert_eq!(
        settings(Some(SandboxMode::ReadOnly), write()).derive_permission_profile(
            Some(SandboxMode::DangerFullAccess),
            off,
            None,
            Some(&allow_none),
            false
        ),
        PermissionProfile::Disabled
    );
    let trusted = ProjectConfig {
        trust_level: Some(TrustLevel::Trusted),
    };
    assert_eq!(
        settings(None, write()).derive_permission_profile(
            None,
            off,
            Some(trusted),
            Some(&allow_none),
            false
        ),
        PermissionProfile::ReadOnly
    );
}

#[test]
fn projects_are_found_by_their_paths() {
    let trusted = ProjectConfig {
        trust_level: Some(TrustLevel::Trusted),
    };
    let untrusted = ProjectConfig {
        trust_level: Some(TrustLevel::Untrusted),
    };
    let config = ConfigToml {
        sandbox_mode: None,
        sandbox_workspace_write: None,
        projects: Some(vec![
            ("/work/app".to_string(), trusted),
            ("C:\\Work".to_string(), untrusted),
        ]),
    };
    let at = |path: &str, canonical: Option<&str>| ProjectPath {
        path: path.to_string(),
        canonical: canonical.map(str::to_string),
    };
    assert_eq!(
        config.get_active_project(&at("/work/app", None), None, false),
        Some(trusted)
    );
    assert_eq!(
        config.get_active_project(&at("/link", Some("/work/app")), None, false),
        Some(trusted)
    );
    assert_eq!(
        config.get_active_project(&at("/work/app/src", None), None, false),
        None
    );
    assert_eq!(
        config.get_active_project(
            &at("/work/app/src", None),
            Some(&at("/work/app", None)),
            false
        ),
        Some(trusted)
    );
    assert_eq!(
        config.get_active_project(&at("c:\\WORK", None), None, true),
        Some(untrusted)
    );
    assert_eq!(
        config.get_active_project(&at("c:\\WORK", None), None, false),
        None
    );
}
