use qwen_coder_web::errors::ErrorStatus;
use qwen_coder_web::prompts::{
    add_prompt, create_prompt, delete_prompt, extract_variables, get_prompt, list_prompts,
    update_prompt, update_prompt_at, Prompt, PromptFields,
};
use qwen_coder_web::stamps::Timestamp;

fn fields(name: Option<&str>, content: Option<&str>, system: Option<&str>) -> PromptFields {
    PromptFields {
        name: name.map(|s| s.to_string()),
        content: content.map(|s| s.to_string()),
        system_message: system.map(|s| s.to_string()),
    }
}

fn regex_variables(s: &str) -> Vec<String> {
    let re = regex::Regex::new(r"\{\{(\w+)\}\}").unwrap();
    re.captures_iter(s).filter_map(|c| c.get(1)).map(|m| m.as_str().to_string()).collect()
}

#[test]
fn variables_of_templates() {
    assert_eq!(extract_variables("Hello {{name}}, you are {{age}}."), vec!["name", "age"]);
    assert_eq!(extract_variables("no placeholders here"), Vec::<String>::new());
    assert_eq!(extract_variables("{{a}}{{a}}"), vec!["a", "a"]);
    assert_eq!(extract_variables("{{x}"), Vec::<String>::new());
    assert_eq!(extract_variables("{{}}"), Vec::<String>::new());
    assert_eq!(extract_variables("{{{inner}}}"), vec!["inner"]);
}

#[test]
fn variables_agree_with_the_pattern() {
    for s in [
        "", "{{", "}}", "{{a b}}", "{{snake_case_1}} and {{CamelCase}}", "{{a}{{b}}",
        "{{héllo}} {{日本}} {{a-b}}", "{{{x}}}}{{y}}", "{{ spaced }}", "{{٣}}",
    ] {
        assert_eq!(extract_variables(s), regex_variables(s), "template {:?}", s);
    }
}

#[test]
fn single_placeholder_names_its_variable() {
    assert_eq!(extract_variables("{{topic_2}}"), vec!["topic_2"]);
}

#[test]
fn plain_text_has_no_variables() {
    assert!(extract_variables("just text }} with closing braces").is_empty());
}

#[test]
fn new_prompt_fields() {
    let p = Prompt::new("n".to_string(), "c".to_string(), None);
    assert_eq!(p.name, "n");
    assert_eq!(p.content, "c");
    assert!(p.variables.is_empty());
    assert_eq!(p.created_at, p.updated_at);
    assert_eq!(p.id.len(), 36);
}

#[test]
fn create_requires_name_and_content() {
    let mut store = Vec::new();
    assert_eq!(create_prompt(&mut store, fields(None, Some("c"), None)).unwrap_err(), ErrorStatus::BadRequest);
    assert_eq!(create_prompt(&mut store, fields(Some("n"), None, None)).unwrap_err(), ErrorStatus::BadRequest);
    assert!(store.is_empty());
}

#[test]
fn created_prompt_is_found() {
    let mut store = Vec::new();
    let p = create_prompt(&mut store, fields(Some("greet"), Some("Hi {{who}}"), Some("be kind"))).unwrap();
    assert_eq!(p.variables, vec!["who"]);
    assert_eq!(p.system_message.as_deref(), Some("be kind"));
    assert_eq!(store.len(), 1);
    let got = get_prompt(&store, &p.id).unwrap();
    assert_eq!(got.id, p.id);
    assert_eq!(got.name, "greet");
    assert_eq!(got.content, "Hi {{who}}");
    assert_eq!(got.created_at, p.created_at);
    assert_eq!(get_prompt(&store, "missing").unwrap_err(), ErrorStatus::NotFound);
    let all = list_prompts(&store);
    assert_eq!(all.len(), 1);
    assert_eq!(all[0].id, p.id);
}

#[test]
fn update_changes_given_fields_only() {
    let mut store = Vec::new();
    let p = create_prompt(&mut store, fields(Some("a"), Some("{{x}}"), None)).unwrap();
    let other = create_prompt(&mut store, fields(Some("b"), Some("text"), None)).unwrap();
    let u = update_prompt(&mut store, &p.id, fields(None, Some("{{y}} {{z}}"), Some("sys"))).unwrap();
    assert_eq!(u.id, p.id);
    assert_eq!(u.name, "a");
    assert_eq!(u.content, "{{y}} {{z}}");
    assert_eq!(u.variables, vec!["y", "z"]);
    assert_eq!(u.system_message.as_deref(), Some("sys"));
    assert_eq!(u.created_at, p.created_at);
    let again = get_prompt(&store, &p.id).unwrap();
    assert_eq!(again.content, "{{y}} {{z}}");
    let o = get_prompt(&store, &other.id).unwrap();
    assert_eq!(o.name, "b");
    let renamed = update_prompt(&mut store, &p.id, fields(Some("renamed"), None, None)).unwrap();
    assert_eq!(renamed.variables, vec!["y", "z"]);
    assert_eq!(renamed.system_message.as_deref(), Some("sys"));
    assert_eq!(update_prompt(&mut store, "nope", fields(Some("x"), None, None)).unwrap_err(), ErrorStatus::NotFound);
}

#[test]
fn deleted_prompt_is_gone() {
    let mut store = Vec::new();
    let p = create_prompt(&mut store, fields(Some("a"), Some("1"), None)).unwrap();
    let q = create_prompt(&mut store, fields(Some("b"), Some("2"), None)).unwrap();
    assert_eq!(delete_prompt(&mut store, &p.id), Ok(()));
    assert_eq!(get_prompt(&store, &p.id).unwrap_err(), ErrorStatus::NotFound);
    assert_eq!(get_prompt(&store, &q.id).unwrap().name, "b");
    assert_eq!(delete_prompt(&mut store, &p.id), Err(ErrorStatus::NotFound));
    assert_eq!(store.len(), 1);
}

#[test]
fn delete_removes_every_prompt_with_the_id() {
    let mut store = Vec::new();
    let p = create_prompt(&mut store, fields(Some("a"), Some("1"), None)).unwrap();
    let mut twin = p.duplicate();
    twin.name = "twin".to_string();
    store.push(twin);
    create_prompt(&mut store, fields(Some("c"), Some("3"), None)).unwrap();
    assert_eq!(get_prompt(&store, &p.id).unwrap().name, "a");
    assert_eq!(delete_prompt(&mut store, &p.id), Ok(()));
    assert_eq!(store.len(), 1);
    assert_eq!(store[0].name, "c");
}

#[test]
fn prompt_with_given_identity() {
    let at = Timestamp { secs: 1_700_000_000, nanos: 42 };
    let p = Prompt::with_identity("p-1".to_string(), at, "n".to_string(), "c".to_string(), Some("s".to_string()));
    assert_eq!(p.id, "p-1");
    assert_eq!(p.created_at, at);
    assert_eq!(p.updated_at, at);
    assert_eq!(p.system_message.as_deref(), Some("s"));
    assert!(p.variables.is_empty());
}

#[test]
fn added_prompt_carries_given_id_and_time() {
    let mut store = Vec::new();
    let at = Timestamp { secs: 10, nanos: 0 };
    let p = add_prompt(&mut store, fields(Some("n"), Some("{{a}} and {{b}}"), None), "id-a".to_string(), at).unwrap();
    assert_eq!(p.id, "id-a");
    assert_eq!(p.created_at, at);
    assert_eq!(p.updated_at, at);
    assert_eq!(p.variables, vec!["a", "b"]);
    assert_eq!(store.len(), 1);
    assert_eq!(store[0].id, "id-a");
    assert_eq!(
        add_prompt(&mut store, fields(None, Some("c"), None), "id-b".to_string(), at).unwrap_err(),
        ErrorStatus::BadRequest
    );
    assert_eq!(store.len(), 1);
}

#[test]
fn update_stamps_given_time() {
    let mut store = Vec::new();
    let created = Timestamp { secs: 10, nanos: 0 };
    let later = Timestamp { secs: 20, nanos: 7 };
    add_prompt(&mut store, fields(Some("n"), Some("c"), None), "id-a".to_string(), created).unwrap();
    let u = update_prompt_at(&mut store, "id-a", fields(Some("m"), None, None), later).unwrap();
    assert_eq!(u.name, "m");
    assert_eq!(u.created_at, created);
    assert_eq!(u.updated_at, later);
    assert_eq!(store[0].updated_at, later);
    assert_eq!(
        update_prompt_at(&mut store, "id-x", fields(Some("m"), None, None), later).unwrap_err(),
        ErrorStatus::NotFound
    );
}

#[test]
fn created_prompt_stays_found_after_other_calls() {
    let mut store = Vec::new();
    let p = create_prompt(&mut store, fields(Some("keep"), Some("{{k}}"), None)).unwrap();
    let q = create_prompt(&mut store, fields(Some("other"), Some("o"), None)).unwrap();
    update_prompt(&mut store, &q.id, fields(Some("changed"), None, None)).unwrap();
    assert!(create_prompt(&mut store, fields(None, None, None)).is_err());
    create_prompt(&mut store, fields(Some("third"), Some("t"), None)).unwrap();
    delete_prompt(&mut store, &q.id).unwrap();
    assert!(delete_prompt(&mut store, "absent").is_err());
    let got = get_prompt(&store, &p.id).unwrap();
    assert_eq!(got.id, p.id);
    assert_eq!(got.name, p.name);
    assert_eq!(got.content, p.content);
    assert_eq!(got.variables, p.variables);
    assert_eq!(got.created_at, p.created_at);
    assert_eq!(got.updated_at, p.updated_at);
}

#[test]
fn list_follows_creation_order() {
    let mut store = Vec::new();
    let a = create_prompt(&mut store, fields(Some("a"), Some("1"), None)).unwrap();
    assert!(create_prompt(&mut store, fields(Some("x"), None, None)).is_err());
    let b = create_prompt(&mut store, fields(Some("b"), Some("2"), None)).unwrap();
    let c = create_prompt(&mut store, fields(Some("c"), Some("3"), None)).unwrap();
    let ids: Vec<String> = list_prompts(&store).into_iter().map(|p| p.id).collect();
    assert_eq!(ids, vec![a.id, b.id, c.id]);
    assert_eq!(store.len(), 3);
}
