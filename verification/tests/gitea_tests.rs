use qwen_coder_web::errors::ErrorStatus;
use qwen_coder_web::gitea::{
    contains, env_with_gitea_url, gitea_read_headers, gitea_settings, gitea_write_headers,
    repo_issues_url, repo_pulls_url, token_header, user_repos_url, GiteaConfig, GiteaState,
};

fn replaced_by_regex(content: &str, url: &str) -> String {
    regex::Regex::new(r"GITEA_URL=.*\n")
        .unwrap()
        .replace(content, &format!("GITEA_URL={}\n", url))
        .to_string()
}

#[test]
fn default_gitea_config() {
    let c = GiteaConfig::default();
    assert_eq!(c.base_url, "https://gitea.com");
    assert_eq!(c.token, "");
    assert!(c.default_owner.is_none());
}

#[test]
fn settings_from_environment() {
    let (u, t) = gitea_settings(None, None);
    assert_eq!((u.as_str(), t.as_str()), ("https://gitea.com", ""));
    let (u, t) = gitea_settings(Some("http://git".to_string()), Some("tok".to_string()));
    assert_eq!((u.as_str(), t.as_str()), ("http://git", "tok"));
}

#[test]
fn config_status_hides_token() {
    let s = GiteaState::from_env(None, Some("secret".to_string()), Some("me".to_string())).status();
    assert_eq!(s.base_url, "https://gitea.com");
    assert!(s.token_set);
    assert_eq!(s.default_owner.as_deref(), Some("me"));
    let s = GiteaState::from_env(Some("u".to_string()), Some(String::new()), None).status();
    assert_eq!(s.base_url, "u");
    assert!(!s.token_set);
    let s = GiteaState::new().status();
    assert_eq!(s.base_url, "https://gitea.com");
    assert!(!s.token_set);
    assert!(s.default_owner.is_none());
}

#[test]
fn saved_gitea_settings_are_used() {
    let mut state = GiteaState::from_env(None, None, None);
    state.save(GiteaConfig {
        base_url: "https://git.example".to_string(),
        token: "tok".to_string(),
        default_owner: Some("team".to_string()),
    });
    let s = state.status();
    assert_eq!(s.base_url, "https://git.example");
    assert!(s.token_set);
    assert_eq!(s.default_owner.as_deref(), Some("team"));
    let auth = ("Authorization".to_string(), "token tok".to_string());
    let c = state.issues_call("me", "r");
    assert_eq!(c.url, "https://git.example/api/v1/repos/me/r/issues");
    assert_eq!(c.headers, vec![auth.clone()]);
    let c = state.pulls_call("me", "r");
    assert_eq!(c.url, "https://git.example/api/v1/repos/me/r/pulls");
    assert_eq!(c.headers, vec![auth.clone()]);
    let c = state.repos_call();
    assert_eq!(c.url, "https://git.example/api/v1/user/repos");
    assert_eq!(c.headers, vec![auth.clone()]);
    let c = state.create_issue_call("me", "r").unwrap();
    assert_eq!(c.url, "https://git.example/api/v1/repos/me/r/issues");
    assert_eq!(c.headers, vec![auth, ("Content-Type".to_string(), "application/json".to_string())]);
}

#[test]
fn gitea_calls_without_token() {
    let state = GiteaState::new();
    assert!(state.issues_call("o", "r").headers.is_empty());
    assert_eq!(state.repos_call().headers, vec![("Authorization".to_string(), "token ".to_string())]);
    let e = state.create_issue_call("o", "r").unwrap_err();
    assert_eq!(e.status, ErrorStatus::Unauthorized);
    assert_eq!(e.message, "Gitea token is required");
}

#[test]
fn api_urls() {
    assert_eq!(user_repos_url("https://gitea.com"), "https://gitea.com/api/v1/user/repos");
    assert_eq!(repo_issues_url("http://g", "me", "r"), "http://g/api/v1/repos/me/r/issues");
    assert_eq!(repo_pulls_url("http://g/", "o", "x"), "http://g//api/v1/repos/o/x/pulls");
}

#[test]
fn request_headers() {
    assert_eq!(token_header(""), ("Authorization".to_string(), "token ".to_string()));
    assert!(gitea_read_headers("").is_empty());
    assert_eq!(gitea_read_headers("t1"), vec![("Authorization".to_string(), "token t1".to_string())]);
    let e = gitea_write_headers("").unwrap_err();
    assert_eq!(e.status, ErrorStatus::Unauthorized);
    assert_eq!(e.message, "Gitea token is required");
    let h = gitea_write_headers("t").unwrap();
    assert_eq!(h[0].1, "token t");
    assert_eq!(h[1], ("Content-Type".to_string(), "application/json".to_string()));
}

#[test]
fn substring_search() {
    assert!(contains("a GITEA_URL=x", "GITEA_URL="));
    assert!(contains("abc", ""));
    assert!(!contains("ab", "abc"));
    assert!(!contains("GITEA_URL", "GITEA_URL="));
    assert!(contains("ééx", "éx"));
}

#[test]
fn env_line_is_appended_or_replaced() {
    assert_eq!(env_with_gitea_url("A=1\n", "http://g"), "A=1\nGITEA_URL=http://g\n");
    assert_eq!(env_with_gitea_url("", "u"), "GITEA_URL=u\n");
    assert_eq!(env_with_gitea_url("GITEA_URL=old\nB=2\n", "new"), "GITEA_URL=new\nB=2\n");
    // the last line has no line feed, so the pattern finds no match
    assert_eq!(env_with_gitea_url("B=2\nGITEA_URL=old", "new"), "B=2\nGITEA_URL=old");
    for (content, url) in [
        ("GITEA_URL=a\nGITEA_URL=b\n", "c"),
        ("X=1\nGITEA_URL=old\n", "http://h/$0"),
        ("GITEA_URL=old\n", "$$x"),
        ("a GITEA_URL=old\nz", "${0}|$0a|${+0}|$00|${00}|$1|${name}|$"),
        ("GITEA_URL=o\n", "${|$-|$ |${}|$$$0"),
        ("x\r\nGITEA_URL=\r\nGITEA_URL=2\n", "é$0é"),
        ("GITEA_URL=no line feed", "zz"),
    ] {
        assert_eq!(env_with_gitea_url(content, url), replaced_by_regex(content, url));
    }
}
