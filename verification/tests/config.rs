use llm_gateway::model::anthropic::decode_model_config;
use llm_gateway::model::anthropic::AnthropicModel;
use llm_gateway::model::anthropic::ConfigError;
use llm_gateway::model::bedrock::ClientPlan;
use llm_gateway::model::bedrock::CredentialSource;
use llm_gateway::model::AwsConfig;

#[test]
fn direct_api_config_is_decoded() {
    let cfg = decode_model_config(
        "{\"api_key\":\"sk\",\"api_version\":\"2023-06-01\",\"model\":\"m-large\"}",
    )
    .expect("expected a direct configuration");
    match cfg {
        AnthropicModel::Anthropic { api_key, api_version, model } => {
            assert_eq!(api_key, "sk");
            assert_eq!(api_version, "2023-06-01");
            assert_eq!(model, "m-large");
        },
        AnthropicModel::Bedrock { .. } => panic!("expected the direct backend"),
    }
}

#[test]
fn bedrock_profile_config_is_decoded() {
    let cfg = decode_model_config(
        "{\"aws_config\":{\"profile_name\":\"p\",\"region\":\"us-east-1\"},\"api_version\":\"v\",\"model\":\"m\"}",
    )
    .expect("expected a managed-runtime configuration");
    match cfg {
        AnthropicModel::Bedrock { aws_config, api_version, model } => {
            assert_eq!(api_version, "v");
            assert_eq!(model, "m");
            match aws_config {
                Some(AwsConfig::Profile { profile_name, region }) => {
                    assert_eq!(profile_name, "p");
                    assert_eq!(region.as_deref(), Some("us-east-1"));
                },
                _ => panic!("expected a profile credential"),
            }
        },
        AnthropicModel::Anthropic { .. } => panic!("expected the managed runtime"),
    }
}

#[test]
fn absent_credentials_resolve_from_ambient() {
    let cfg = decode_model_config("{\"api_version\":\"v\",\"model\":\"m\"}")
        .expect("expected a managed-runtime configuration");
    match cfg {
        AnthropicModel::Bedrock { aws_config, .. } => assert!(aws_config.is_none()),
        AnthropicModel::Anthropic { .. } => panic!("expected the managed runtime"),
    }
}

#[test]
fn both_credential_fields_are_mutually_exclusive() {
    let err = decode_model_config(
        "{\"api_key\":\"x\",\"aws_config\":{\"profile_name\":\"p\"},\"api_version\":\"v\",\"model\":\"m\"}",
    )
    .expect_err("expected the mutual-exclusivity failure");
    assert_eq!(err, ConfigError::MutuallyExclusiveFields);
    let err = decode_model_config(
        "{\"aws_config\":{\"profile_name\":\"p\"},\"api_key\":\"x\",\"api_version\":\"v\",\"model\":\"m\"}",
    )
    .expect_err("expected the mutual-exclusivity failure in either order");
    assert_eq!(err, ConfigError::MutuallyExclusiveFields);
}

#[test]
fn duplicate_and_unknown_fields_are_refused() {
    let err = decode_model_config(
        "{\"api_key\":\"x\",\"api_key\":\"y\",\"api_version\":\"v\",\"model\":\"m\"}",
    )
    .expect_err("expected the duplicate-field failure");
    assert_eq!(err, ConfigError::DuplicateField);
    let err = decode_model_config("{\"api_key\":\"x\",\"extra\":1}")
        .expect_err("expected the unknown-field failure");
    assert_eq!(err, ConfigError::UnknownField);
}

#[test]
fn missing_fields_are_named() {
    let err = decode_model_config("{\"api_key\":\"x\",\"model\":\"m\"}")
        .expect_err("expected the missing-version failure");
    assert_eq!(err, ConfigError::MissingApiVersion);
    let err = decode_model_config("{\"api_key\":\"x\",\"api_version\":\"v\"}")
        .expect_err("expected the missing-model failure");
    assert_eq!(err, ConfigError::MissingModel);
}

#[test]
fn malformed_config_text_is_refused() {
    let err = decode_model_config("[1,2]").expect_err("expected the malformed failure");
    assert_eq!(err, ConfigError::Malformed);
    let err = decode_model_config("nonsense").expect_err("expected the malformed failure");
    assert_eq!(err, ConfigError::Malformed);
    let err = decode_model_config("{\"api_key\":7,\"api_version\":\"v\",\"model\":\"m\"}")
        .expect_err("expected the invalid-value failure");
    assert_eq!(err, ConfigError::InvalidValue);
}

#[test]
fn profile_plan_overrides_region() {
    let plan = ClientPlan::resolve(&Some(AwsConfig::Profile {
        profile_name: String::from("p"),
        region: Some(String::from("eu-west-1")),
    }));
    match plan.source {
        CredentialSource::Profile(name) => assert_eq!(name, "p"),
        _ => panic!("expected the profile source"),
    }
    assert_eq!(plan.region.as_deref(), Some("eu-west-1"));
}

#[test]
fn full_key_pair_becomes_a_static_source() {
    let plan = ClientPlan::resolve(&Some(AwsConfig::Credential {
        access_key: Some(String::from("ak")),
        secret_key: Some(String::from("sk")),
        region: None,
    }));
    match plan.source {
        CredentialSource::Static { access_key, secret_key } => {
            assert_eq!(access_key, "ak");
            assert_eq!(secret_key, "sk");
        },
        _ => panic!("expected the static source"),
    }
    assert!(plan.region.is_none());
}

#[test]
fn lone_region_keeps_ambient_credentials() {
    let plan = ClientPlan::resolve(&Some(AwsConfig::Credential {
        access_key: Some(String::from("ak")),
        secret_key: None,
        region: Some(String::from("us-west-2")),
    }));
    assert!(matches!(plan.source, CredentialSource::Ambient));
    assert_eq!(plan.region.as_deref(), Some("us-west-2"));
}

#[test]
fn no_declaration_means_ambient() {
    let plan = ClientPlan::resolve(&None);
    assert!(matches!(plan.source, CredentialSource::Ambient));
    assert!(plan.region.is_none());
}

#[test]
fn null_profile_name_falls_through_to_credentials() {
    let cfg = decode_model_config(
        "{\"aws_config\":{\"profile_name\":null,\"region\":\"us-east-1\"},\"api_version\":\"v\",\"model\":\"m\"}",
    )
    .expect("expected a managed-runtime configuration");
    match cfg {
        AnthropicModel::Bedrock { aws_config, .. } => match aws_config {
            Some(AwsConfig::Credential { access_key, secret_key, region }) => {
                assert!(access_key.is_none());
                assert!(secret_key.is_none());
                assert_eq!(region.as_deref(), Some("us-east-1"));
            },
            _ => panic!("expected the credential shape"),
        },
        AnthropicModel::Anthropic { .. } => panic!("expected the managed runtime"),
    }
}
