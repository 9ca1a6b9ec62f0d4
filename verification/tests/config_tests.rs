use qwen_coder_web::config::{
    config_from_env, default_timeout, env_file_contents, mask_api_key, masked_config, AppConfig,
};

fn sample() -> AppConfig {
    AppConfig {
        api_endpoint: "http://localhost:8080/v1".to_string(),
        api_key: "sk-abcdefghijkl".to_string(),
        model_name: "qwen-coder".to_string(),
        organization_id: Some("org-7".to_string()),
        timeout_secs: 90,
    }
}

#[test]
fn default_configuration() {
    let c = AppConfig::default();
    assert_eq!(c.api_endpoint, "https://api.openai.com/v1");
    assert_eq!(c.api_key, "");
    assert_eq!(c.model_name, "gpt-3.5-turbo");
    assert_eq!(c.organization_id, None);
    assert_eq!(c.timeout_secs, 60);
    assert_eq!(default_timeout(), 60);
}

#[test]
fn unset_environment_gives_default() {
    let c = config_from_env(None, None, None, None, None);
    let d = AppConfig::default();
    assert_eq!(c.api_endpoint, d.api_endpoint);
    assert_eq!(c.api_key, d.api_key);
    assert_eq!(c.model_name, d.model_name);
    assert_eq!(c.organization_id, d.organization_id);
    assert_eq!(c.timeout_secs, d.timeout_secs);
}

#[test]
fn environment_values_are_taken() {
    let c = config_from_env(
        Some("http://e".to_string()),
        Some("k".to_string()),
        Some("m".to_string()),
        Some("o".to_string()),
        Some("15".to_string()),
    );
    assert_eq!(c.api_endpoint, "http://e");
    assert_eq!(c.api_key, "k");
    assert_eq!(c.model_name, "m");
    assert_eq!(c.organization_id.as_deref(), Some("o"));
    assert_eq!(c.timeout_secs, 15);
}

#[test]
fn bad_timeout_falls_back_to_sixty() {
    for v in ["", "abc", "-5", "1.5", "99999999999999999999"] {
        let c = config_from_env(None, None, None, None, Some(v.to_string()));
        assert_eq!(c.timeout_secs, 60, "value {:?}", v);
    }
    let c = config_from_env(None, None, None, None, Some("+30".to_string()));
    assert_eq!(c.timeout_secs, 30);
}

#[test]
fn env_file_lists_every_setting() {
    assert_eq!(
        env_file_contents(&sample()),
        "API_ENDPOINT=http://localhost:8080/v1\nAPI_KEY=sk-abcdefghijkl\nMODEL_NAME=qwen-coder\nORGANIZATION_ID=org-7\nTIMEOUT_SECS=90\n"
    );
    let mut c = sample();
    c.organization_id = None;
    c.timeout_secs = 0;
    assert_eq!(
        env_file_contents(&c),
        "API_ENDPOINT=http://localhost:8080/v1\nAPI_KEY=sk-abcdefghijkl\nMODEL_NAME=qwen-coder\nTIMEOUT_SECS=0\n"
    );
}

#[test]
fn saved_config_reads_back() {
    let c = sample();
    let text = env_file_contents(&c);
    let value = |name: &str| -> Option<String> {
        text.lines()
            .find_map(|l| l.strip_prefix(&format!("{}=", name)).map(|v| v.to_string()))
    };
    let back = config_from_env(
        value("API_ENDPOINT"),
        value("API_KEY"),
        value("MODEL_NAME"),
        value("ORGANIZATION_ID"),
        value("TIMEOUT_SECS"),
    );
    assert_eq!(back.api_endpoint, c.api_endpoint);
    assert_eq!(back.api_key, c.api_key);
    assert_eq!(back.model_name, c.model_name);
    assert_eq!(back.organization_id, c.organization_id);
    assert_eq!(back.timeout_secs, c.timeout_secs);
}

#[test]
fn api_key_masking() {
    assert_eq!(mask_api_key(""), "");
    assert_eq!(mask_api_key("abc"), "****");
    assert_eq!(mask_api_key("12345678"), "****");
    assert_eq!(mask_api_key("123456789"), "1234...6789");
    assert_eq!(mask_api_key("sk-abcdefghijkl"), "sk-a...ijkl");
    // ten bytes of two-byte characters: slicing at bytes 4 and 6 is fine
    assert_eq!(mask_api_key("ééééé"), "éé...éé");
}

#[test]
fn masking_is_idempotent() {
    for k in ["", "abc", "123456789", "sk-abcdefghijkl"] {
        let once = mask_api_key(k);
        assert_eq!(mask_api_key(&once), once);
    }
}

#[test]
fn masked_config_keeps_other_settings() {
    let c = sample();
    let m = masked_config(&c);
    assert_eq!(m.api_key, "sk-a...ijkl");
    assert_eq!(m.api_endpoint, c.api_endpoint);
    assert_eq!(m.model_name, c.model_name);
    assert_eq!(m.organization_id, c.organization_id);
    assert_eq!(m.timeout_secs, c.timeout_secs);
}

#[test]
fn saved_config_loads_back_through_dotenv() {
    for org in [Some("org-7".to_string()), None] {
        let mut c = sample();
        c.organization_id = org;
        let text = env_file_contents(&c);
        let pairs: Vec<(String, String)> =
            dotenvy::from_read_iter(text.as_bytes()).map(|item| item.unwrap()).collect();
        let value = |name: &str| -> Option<String> {
            pairs.iter().find(|(k, _)| k == name).map(|(_, v)| v.clone())
        };
        let back = config_from_env(
            value("API_ENDPOINT"),
            value("API_KEY"),
            value("MODEL_NAME"),
            value("ORGANIZATION_ID"),
            value("TIMEOUT_SECS"),
        );
        assert_eq!(back.api_endpoint, c.api_endpoint);
        assert_eq!(back.api_key, c.api_key);
        assert_eq!(back.model_name, c.model_name);
        assert_eq!(back.organization_id, c.organization_id);
        assert_eq!(back.timeout_secs, c.timeout_secs);
    }
}
