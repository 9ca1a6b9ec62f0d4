use qwen_coder_web::config::AppConfig;
use qwen_coder_web::errors::ErrorStatus;
use qwen_coder_web::stamps::Timestamp;
use qwen_coder_web::tasks::{
    assemble_decomposition, completion_text, decompose_completion, decompose_task,
    decomposition_messages, plan_subtasks, CallOutcome, ChatChoice, ChatCompletionResponse,
    ChatMessage, DecomposeStep, DecomposeTaskRequest, DecomposeTaskResponse, SubtaskDraft,
    TaskStatus,
};

/// The subtasks as the decomposition endpoint reads them, written with std.
fn reference_plan(answer: &str) -> Vec<(String, String)> {
    let mut out = Vec::new();
    for (i, line) in answer.lines().enumerate() {
        let t = line.trim();
        if t.starts_with(char::is_numeric) || t.starts_with('-') || t.starts_with('*') {
            let d = t
                .trim_start_matches(|c: char| c.is_numeric() || c == '.' || c == '-' || c == '*')
                .trim();
            out.push((format!("Subtask {}", i + 1), d.to_string()));
        }
    }
    if out.is_empty() {
        out.push(("Main Task".to_string(), answer.to_string()));
    }
    out
}

fn plan(answer: &str) -> Vec<(String, String)> {
    plan_subtasks(answer).into_iter().map(|d| (d.title, d.description)).collect()
}

fn response(content: Option<&str>) -> ChatCompletionResponse {
    ChatCompletionResponse {
        id: "cmpl-1".to_string(),
        object: "chat.completion".to_string(),
        created: 1,
        model: "m".to_string(),
        choices: content
            .map(|c| {
                vec![ChatChoice {
                    index: 0,
                    message: ChatMessage { role: "assistant".to_string(), content: c.to_string(), name: None },
                    finish_reason: Some("stop".to_string()),
                }]
            })
            .unwrap_or_default(),
        usage: None,
    }
}

fn is_uuid_v4(s: &str) -> bool {
    let b = s.as_bytes();
    b.len() == 36
        && b.iter().enumerate().all(|(i, c)| {
            if [8, 13, 18, 23].contains(&i) { *c == b'-' } else { c.is_ascii_digit() || (b'a'..=b'f').contains(c) }
        })
        && b[14] == b'4'
        && b"89ab".contains(&b[19])
}

#[test]
fn numbered_and_bulleted_lines_become_subtasks() {
    let answer = "Here is the plan:\n1. Design the schema\n2) Write the code\n- Test it\n* Ship it\nThanks";
    assert_eq!(
        plan(answer),
        vec![
            ("Subtask 2".to_string(), "Design the schema".to_string()),
            ("Subtask 3".to_string(), ") Write the code".to_string()),
            ("Subtask 4".to_string(), "Test it".to_string()),
            ("Subtask 5".to_string(), "Ship it".to_string()),
        ]
    );
}

#[test]
fn plan_agrees_with_std_reading() {
    for a in [
        "", "\n", "plain text", "1.\n2.\n", "  10. ten\r\n- dash\r\n", "*", "-- double -- dash",
        "٣. arabic-indic three", "½ half", "* 3.5 apples", "line\n\n\n4 four",
    ] {
        assert_eq!(plan(a), reference_plan(a), "answer {:?}", a);
    }
}

#[test]
fn unstructured_answer_is_main_task() {
    assert_eq!(plan("Just do it.\nCarefully."), vec![("Main Task".to_string(), "Just do it.\nCarefully.".to_string())]);
    assert_eq!(plan(""), vec![("Main Task".to_string(), "".to_string())]);
}

#[test]
fn plan_is_never_empty() {
    for a in ["", "x", "1. y"] {
        assert!(!plan(a).is_empty());
    }
}

#[test]
fn decomposition_question_text() {
    let req = DecomposeTaskRequest { task: "Build a house".to_string(), context: None, max_subtasks: None };
    let m = decomposition_messages(&req);
    assert_eq!(m.len(), 2);
    assert_eq!(m[0].role, "system");
    assert_eq!(m[0].content, "You are an expert task planner. Break down complex tasks into clear, actionable subtasks. Each subtask should be specific, measurable, and achievable.");
    assert_eq!(m[1].role, "user");
    assert_eq!(m[1].content, "Please break down the following task into manageable subtasks:\n\nTask: Build a house\n\nContext: No additional context provided.\n\nPlease provide 5 subtasks maximum. For each subtask, include a title and description.");
    let req = DecomposeTaskRequest { task: "T".to_string(), context: Some("C".to_string()), max_subtasks: Some(12) };
    let m = decomposition_messages(&req);
    assert_eq!(m[1].content, "Please break down the following task into manageable subtasks:\n\nTask: T\n\nContext: C\n\nPlease provide 12 subtasks maximum. For each subtask, include a title and description.");
}

#[test]
fn answer_text_of_completion() {
    assert_eq!(completion_text(&response(Some("1. a"))), "1. a");
    assert_eq!(completion_text(&response(None)), "Could not generate subtasks.");
}

#[test]
fn assembled_decomposition() {
    let req = DecomposeTaskRequest { task: "T".to_string(), context: Some("ctx".to_string()), max_subtasks: None };
    let drafts = vec![
        SubtaskDraft { title: "Subtask 1".to_string(), description: "a".to_string() },
        SubtaskDraft { title: "Subtask 3".to_string(), description: "b".to_string() },
    ];
    let ids = vec!["id-1".to_string(), "id-2".to_string()];
    let at = Timestamp { secs: 1_700_000_000, nanos: 5 };
    let r = assemble_decomposition(&req, &drafts, &ids, "task-id".to_string(), at);
    assert_eq!(r.task.id, "task-id");
    assert_eq!(r.task.title, "T");
    assert_eq!(r.task.description, "ctx");
    assert_eq!(r.task.status, TaskStatus::Pending);
    assert_eq!(r.task.created_at, at);
    assert_eq!(r.task.subtasks.len(), 2);
    assert_eq!(r.task.subtasks[1].id, "id-2");
    assert_eq!(r.task.subtasks[1].title, "Subtask 3");
    assert_eq!(r.task.subtasks[1].description, "b");
    assert_eq!(r.task.subtasks[0].status, TaskStatus::Pending);
    assert!(r.task.subtasks[0].result.is_none());
    assert_eq!(
        r.suggestions,
        vec!["Review each subtask for clarity", "Assign priorities to subtasks", "Estimate time for each subtask"]
    );
}

#[test]
fn decomposition_of_a_completion() {
    let req = DecomposeTaskRequest { task: "Plan".to_string(), context: None, max_subtasks: Some(3) };
    let r = decompose_completion(&req, &response(Some("1. first\n2. second")));
    assert_eq!(r.task.title, "Plan");
    assert_eq!(r.task.description, "");
    assert!(is_uuid_v4(&r.task.id));
    assert_eq!(r.task.subtasks.len(), 2);
    assert_eq!(r.task.subtasks[0].title, "Subtask 1");
    assert_eq!(r.task.subtasks[1].description, "second");
    assert!(r.task.subtasks.iter().all(|s| is_uuid_v4(&s.id)));
    assert_ne!(r.task.subtasks[0].id, r.task.subtasks[1].id);
    let r = decompose_completion(&req, &response(None));
    assert_eq!(r.task.subtasks.len(), 1);
    assert_eq!(r.task.subtasks[0].title, "Main Task");
    assert_eq!(r.task.subtasks[0].description, "Could not generate subtasks.");
}

fn config() -> AppConfig {
    AppConfig {
        api_endpoint: "https://llm.example/v1//".to_string(),
        api_key: "sk-test".to_string(),
        model_name: "qwen-coder".to_string(),
        organization_id: Some("org-1".to_string()),
        timeout_secs: 30,
    }
}

fn finished(step: DecomposeStep) -> Result<DecomposeTaskResponse, (u16, String)> {
    match step {
        DecomposeStep::Done(r) => r.map_err(|e| (e.status.code(), e.message)),
        DecomposeStep::Send(_) => panic!("a call where an answer was expected"),
    }
}

#[test]
fn decomposition_starts_with_its_call() {
    let req = DecomposeTaskRequest { task: "Ship it".to_string(), context: None, max_subtasks: Some(4) };
    let call = match decompose_task(&config(), &req, None) {
        DecomposeStep::Send(call) => call,
        DecomposeStep::Done(_) => panic!("an answer before the call"),
    };
    assert_eq!(call.url, "https://llm.example/v1/chat/completions");
    assert_eq!(
        call.headers,
        vec![
            ("Authorization".to_string(), "Bearer sk-test".to_string()),
            ("Content-Type".to_string(), "application/json".to_string()),
        ]
    );
    assert_eq!(call.model, "qwen-coder");
    assert_eq!(call.max_tokens, 2048);
    assert_eq!(call.timeout_secs, 30);
    assert_eq!(call.messages.len(), 2);
    assert_eq!(call.messages[0].role, "system");
    assert_eq!(call.messages[1].role, "user");
    assert_eq!(call.messages[1].content, "Please break down the following task into manageable subtasks:\n\nTask: Ship it\n\nContext: No additional context provided.\n\nPlease provide 4 subtasks maximum. For each subtask, include a title and description.");
}

#[test]
fn failed_calls_end_in_bad_gateway() {
    let req = DecomposeTaskRequest { task: "T".to_string(), context: None, max_subtasks: None };
    let c = config();
    assert_eq!(
        finished(decompose_task(&c, &req, Some(CallOutcome::NotSent("connection refused".to_string())))).err(),
        Some((502, "Failed to call API: connection refused".to_string()))
    );
    assert_eq!(
        finished(decompose_task(&c, &req, Some(CallOutcome::Rejected("quota exceeded".to_string())))).err(),
        Some((502, "API returned error: quota exceeded".to_string()))
    );
    assert_eq!(
        finished(decompose_task(&c, &req, Some(CallOutcome::Unparsable("missing field `id`".to_string())))).err(),
        Some((502, "Failed to parse response: missing field `id`".to_string()))
    );
    assert_eq!(ErrorStatus::BadGateway.code(), 502);
}

#[test]
fn answered_call_is_decomposed() {
    let req = DecomposeTaskRequest { task: "Plan".to_string(), context: Some("home".to_string()), max_subtasks: None };
    let r = finished(decompose_task(&config(), &req, Some(CallOutcome::Answered(response(Some("- one\ntext\n* two"))))))
        .ok()
        .unwrap();
    assert_eq!(r.task.title, "Plan");
    assert_eq!(r.task.description, "home");
    assert_eq!(r.task.subtasks.len(), 2);
    assert_eq!(r.task.subtasks[0].title, "Subtask 1");
    assert_eq!(r.task.subtasks[0].description, "one");
    assert_eq!(r.task.subtasks[1].title, "Subtask 3");
    assert_eq!(r.task.subtasks[1].description, "two");
    assert!(is_uuid_v4(&r.task.id));
}
