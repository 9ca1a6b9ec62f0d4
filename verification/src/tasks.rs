//! Task decomposition: the chat messages that ask a model to split a task, and
//! the subtasks read back from its answer.

use vstd::prelude::*;
use crate::chars::{char_numeric, is_numeric};
use crate::decimal::{decimal, push_decimal};
use crate::api::{
    Upstream, call_failure, call_failure_prefix, chat_completions_url, completions_url,
    decomposition_headers, header_views, parse_failure, rejection, status_failure_prefix,
    valid_header_value,
};
use crate::config::AppConfig;
use crate::errors::{ErrorStatus, HandlerError};
use crate::stamps::{Timestamp, current_time, is_clock_reading, is_uuid_v4_text, new_id};
use crate::text::{
    copy_range, lines, skip_while_from, split_lines, string_of, trim, trim_chars, trim_start_by,
};

verus! {

/// Progress of a task or subtask.
#[derive(Clone, Copy, Debug, PartialEq, Eq, Structural)]
pub enum TaskStatus {
    Pending,
    InProgress,
    Completed,
    Failed,
}

/// One step of a decomposed task.
#[derive(Debug)]
pub struct SubTask {
    pub id: String,
    pub title: String,
    pub description: String,
    pub status: TaskStatus,
    pub result: Option<String>,
}

/// A task together with the subtasks it was split into.
#[derive(Debug)]
pub struct Task {
    pub id: String,
    pub title: String,
    pub description: String,
    pub subtasks: Vec<SubTask>,
    pub status: TaskStatus,
    pub created_at: Timestamp,
}

/// A subtask as read from the model's answer, before it gets an identifier.
#[derive(Debug)]
pub struct SubtaskDraft {
    pub title: String,
    pub description: String,
}

/// Whether `c` is stripped from the front of a subtask line: a numeric
/// character, `.`, `-` or `*`.
pub open spec fn is_marker_char(c: char) -> bool {
    char_numeric(c) || c == '.' || c == '-' || c == '*'
}

/// The class of [`is_marker_char`], for trimming.
pub open spec fn marker_chars() -> spec_fn(char) -> bool {
    |c: char| is_marker_char(c)
}

/// Whether a line of the answer opens a subtask: trimmed, it starts with a
/// numeric character, `-` or `*`.
pub open spec fn opens_subtask(line: Seq<char>) -> bool {
    let t = trim(line);
    t.len() > 0 && (char_numeric(t[0]) || t[0] == '-' || t[0] == '*')
}

/// The description of a subtask line: the trimmed line without its leading
/// markers, trimmed again.
pub open spec fn subtask_text(line: Seq<char>) -> Seq<char> {
    trim(trim_start_by(trim(line), marker_chars()))
}

/// The title of the subtask read from the line with (0-based) index `i`.
pub open spec fn subtask_title(i: nat) -> Seq<char> {
    "Subtask "@ + decimal(i + 1)
}

/// Title and description of the subtasks among the first `n` lines.
pub open spec fn planned_among(ls: Seq<Seq<char>>, n: int) -> Seq<(Seq<char>, Seq<char>)>
    decreases n,
{
    if n <= 0 {
        seq![]
    } else {
        let before = planned_among(ls, n - 1);
        if opens_subtask(ls[n - 1]) {
            before.push((subtask_title((n - 1) as nat), subtask_text(ls[n - 1])))
        } else {
            before
        }
    }
}

/// The subtasks, as (title, description), that an answer of the model splits
/// into: one per line that opens a subtask, or, where no line does, a single
/// "Main Task" described by the whole answer.
pub open spec fn subtask_plan(answer: Seq<char>) -> Seq<(Seq<char>, Seq<char>)> {
    let ls = lines(answer);
    let found = planned_among(ls, ls.len() as int);
    if found.len() == 0 {
        seq![("Main Task"@, answer)]
    } else {
        found
    }
}

/// The views of a sequence of drafts, as (title, description).
pub open spec fn draft_views(d: Seq<SubtaskDraft>) -> Seq<(Seq<char>, Seq<char>)> {
    d.map_values(|x: SubtaskDraft| (x.title@, x.description@))
}

/// The description of a subtask line, if the line opens a subtask.
fn read_subtask_line(line: &[char]) -> (r: Option<String>)
    ensures
        opens_subtask(line@) ==> (r matches Some(d) && d@ == subtask_text(line@)),
        !opens_subtask(line@) ==> r is None,
{
    let t = trim_chars(line);
    if t.len() == 0 {
        return None;
    }
    let first = t[0];
    if !(is_numeric(first) || first == '-' || first == '*') {
        return None;
    }
    let ghost p = marker_chars();
    let n = t.len();
    let mut k: usize = 0;
    while k < n && (is_numeric(t[k]) || t[k] == '.' || t[k] == '-' || t[k] == '*')
        invariant
            0 <= k <= n == t@.len(),
            p == marker_chars(),
            skip_while_from(t@, p, 0) == skip_while_from(t@, p, k as int),
        decreases n - k,
    {
        assert(p(t@[k as int]));
        k = k + 1;
    }
    proof {
        assert(k < n ==> !p(t@[k as int]));
        assert(skip_while_from(t@, p, k as int) == k);
    }
    let rest = copy_range(&t, k, n);
    assert(rest@ =~= trim_start_by(t@, p));
    let d = trim_chars(&rest);
    Some(string_of(&d))
}

/// Splits the model's answer into subtask drafts, as the decomposition
/// endpoint does.
pub fn plan_subtasks(answer: &str) -> (r: Vec<SubtaskDraft>)
    ensures
        draft_views(r@) == subtask_plan(answer@),
        forall|i: int|
            0 <= i < lines(answer@).len() && #[trigger] opens_subtask(lines(answer@)[i]) ==> exists|
                k: int,
            |
                0 <= k < r@.len() && #[trigger] read_from_line(
                    lines(answer@),
                    i,
                    draft_views(r@)[k],
                ),
{
    let cs = crate::text::chars_of(answer);
    let ls = split_lines(&cs);
    let ghost lv = lines(answer@);
    let mut r: Vec<SubtaskDraft> = Vec::new();
    let mut i: usize = 0;
    while i < ls.len()
        invariant
            cs@ == answer@,
            crate::text::line_views(ls@) == lv,
            lv == lines(answer@),
            0 <= i <= ls@.len(),
            draft_views(r@) == planned_among(lv, i as int),
        decreases ls.len() - i,
    {
        assert(ls@[i as int]@ == lv[i as int]);
        let found = read_subtask_line(&ls[i]);
        match found {
            Some(description) => {
                let mut title = String::from_str("Subtask ");
                push_decimal(&mut title, (i as u64) + 1);
                let ghost before = r@;
                r.push(SubtaskDraft { title, description });
                proof {
                    assert(draft_views(r@) =~= draft_views(before).push(
                        (subtask_title(i as nat), subtask_text(lv[i as int])),
                    ));
                }
            },
            None => {},
        }
        i = i + 1;
    }
    if r.len() == 0 {
        r.push(SubtaskDraft {
            title: String::from_str("Main Task"),
            description: String::from_str(answer),
        });
        assert(draft_views(r@) =~= seq![("Main Task"@, answer@)]);
    }
    proof {
        law_every_subtask_line_is_planned(answer@);
    }
    r
}


/// A message of a chat completion (OpenAI-compatible).
#[derive(Debug)]
pub struct ChatMessage {
    pub role: String,
    pub content: String,
    pub name: Option<String>,
}

/// One choice of a chat completion response.
#[derive(Debug)]
pub struct ChatChoice {
    pub index: u32,
    pub message: ChatMessage,
    pub finish_reason: Option<String>,
}

/// Token counts of a chat completion.
#[derive(Clone, Copy, Debug, PartialEq, Eq, Structural)]
pub struct UsageInfo {
    pub prompt_tokens: u32,
    pub completion_tokens: u32,
    pub total_tokens: u32,
}

/// A chat completion response (OpenAI-compatible).
#[derive(Debug)]
pub struct ChatCompletionResponse {
    pub id: String,
    pub object: String,
    pub created: i64,
    pub model: String,
    pub choices: Vec<ChatChoice>,
    pub usage: Option<UsageInfo>,
}

/// A request to decompose a task.
#[derive(Debug)]
pub struct DecomposeTaskRequest {
    pub task: String,
    pub context: Option<String>,
    pub max_subtasks: Option<usize>,
}

/// The decomposed task, with advice on how to go on.
#[derive(Debug)]
pub struct DecomposeTaskResponse {
    pub task: Task,
    pub suggestions: Vec<String>,
}

/// The system message of a decomposition request.
pub open spec fn planner_instructions() -> Seq<char> {
    "You are an expert task planner. Break down complex tasks into clear, actionable subtasks. Each subtask should be specific, measurable, and achievable."@
}

/// The context that a decomposition request names, or the stand-in text.
pub open spec fn context_text(context: Option<String>) -> Seq<char> {
    match context {
        Some(c) => c@,
        None => "No additional context provided."@,
    }
}

/// The most subtasks that a decomposition request asks for (5 by default).
pub open spec fn subtask_limit(max_subtasks: Option<usize>) -> nat {
    match max_subtasks {
        Some(n) => n as nat,
        None => 5,
    }
}

/// The user message of a decomposition request.
pub open spec fn decomposition_question(request: DecomposeTaskRequest) -> Seq<char> {
    "Please break down the following task into manageable subtasks:\n\nTask: "@ + request.task@
        + "\n\nContext: "@ + context_text(request.context) + "\n\nPlease provide "@
        + decimal(subtask_limit(request.max_subtasks))
        + " subtasks maximum. For each subtask, include a title and description."@
}

/// The two messages, system then user, that ask the model to decompose the
/// requested task.
pub fn decomposition_messages(request: &DecomposeTaskRequest) -> (r: Vec<ChatMessage>)
    ensures
        r@.len() == 2,
        r@[0].role@ == "system"@,
        r@[0].content@ == planner_instructions(),
        r@[0].name is None,
        r@[1].role@ == "user"@,
        r@[1].content@ == decomposition_question(*request),
        r@[1].name is None,
{
    let system = ChatMessage {
        role: String::from_str("system"),
        content: String::from_str(
            "You are an expert task planner. Break down complex tasks into clear, actionable subtasks. Each subtask should be specific, measurable, and achievable.",
        ),
        name: None,
    };
    let mut question = String::from_str(
        "Please break down the following task into manageable subtasks:\n\nTask: ",
    );
    question.append(request.task.as_str());
    question.append("\n\nContext: ");
    match &request.context {
        Some(c) => question.append(c.as_str()),
        None => question.append("No additional context provided."),
    }
    question.append("\n\nPlease provide ");
    let limit: usize = match request.max_subtasks {
        Some(n) => n,
        None => 5,
    };
    push_decimal(&mut question, limit as u64);
    question.append(" subtasks maximum. For each subtask, include a title and description.");
    let user = ChatMessage { role: String::from_str("user"), content: question, name: None };
    let r = vec![system, user];
    assert(r@[1].content@ =~= decomposition_question(*request));
    r
}

/// The text of the model's answer: the content of the first choice, or a
/// notice where there is no choice.
pub open spec fn answer_text(response: ChatCompletionResponse) -> Seq<char> {
    if response.choices@.len() > 0 {
        response.choices@[0].message.content@
    } else {
        "Could not generate subtasks."@
    }
}

/// The text of the model's answer in `response`.
pub fn completion_text(response: &ChatCompletionResponse) -> (r: String)
    ensures
        r@ == answer_text(*response),
{
    if response.choices.len() > 0 {
        response.choices[0].message.content.clone()
    } else {
        String::from_str("Could not generate subtasks.")
    }
}

/// The advice sent back with every decomposition.
pub open spec fn decomposition_advice() -> Seq<Seq<char>> {
    seq![
        "Review each subtask for clarity"@,
        "Assign priorities to subtasks"@,
        "Estimate time for each subtask"@,
    ]
}

/// The views of a sequence of strings.
pub open spec fn string_views(v: Seq<String>) -> Seq<Seq<char>> {
    v.map_values(|s: String| s@)
}

/// The (title, description) pairs of a sequence of subtasks.
pub open spec fn subtask_views(v: Seq<SubTask>) -> Seq<(Seq<char>, Seq<char>)> {
    v.map_values(|t: SubTask| (t.title@, t.description@))
}

/// Builds the decomposition of `request` from the drafts read off the model's
/// answer, the identifiers for the subtasks and the task, and the time.
pub fn assemble_decomposition(
    request: &DecomposeTaskRequest,
    drafts: &[SubtaskDraft],
    subtask_ids: &[String],
    task_id: String,
    created_at: Timestamp,
) -> (r: DecomposeTaskResponse)
    requires
        subtask_ids@.len() == drafts@.len(),
    ensures
        r.task.id == task_id,
        r.task.title@ == request.task@,
        r.task.description@ == (match request.context {
            Some(c) => c@,
            None => Seq::<char>::empty(),
        }),
        r.task.status == TaskStatus::Pending,
        r.task.created_at == created_at,
        subtask_views(r.task.subtasks@) == draft_views(drafts@),
        forall|i: int|
            0 <= i < drafts@.len() ==> {
                &&& (#[trigger] r.task.subtasks@[i]).id == subtask_ids@[i]
                &&& r.task.subtasks@[i].status == TaskStatus::Pending
                &&& r.task.subtasks@[i].result is None
            },
        string_views(r.suggestions@) == decomposition_advice(),
{
    let mut subtasks: Vec<SubTask> = Vec::new();
    let mut i: usize = 0;
    while i < drafts.len()
        invariant
            subtask_ids@.len() == drafts@.len(),
            0 <= i <= drafts@.len(),
            subtasks@.len() == i,
            forall|j: int|
                0 <= j < i ==> {
                    &&& (#[trigger] subtasks@[j]).id == subtask_ids@[j]
                    &&& subtasks@[j].title@ == drafts@[j].title@
                    &&& subtasks@[j].description@ == drafts@[j].description@
                    &&& subtasks@[j].status == TaskStatus::Pending
                    &&& subtasks@[j].result is None
                },
        decreases drafts.len() - i,
    {
        subtasks.push(
            SubTask {
                id: subtask_ids[i].clone(),
                title: drafts[i].title.clone(),
                description: drafts[i].description.clone(),
                status: TaskStatus::Pending,
                result: None,
            },
        );
        i = i + 1;
    }
    assert(subtask_views(subtasks@) =~= draft_views(drafts@));
    let description = match &request.context {
        Some(c) => c.clone(),
        None => String::new(),
    };
    let task = Task {
        id: task_id,
        title: request.task.clone(),
        description,
        subtasks,
        status: TaskStatus::Pending,
        created_at,
    };
    let suggestions = vec![
        String::from_str("Review each subtask for clarity"),
        String::from_str("Assign priorities to subtasks"),
        String::from_str("Estimate time for each subtask"),
    ];
    assert(string_views(suggestions@) =~= decomposition_advice());
    DecomposeTaskResponse { task, suggestions }
}

/// Whether `r` decomposes `request` given the model's completion: the
/// subtasks are read off the answer, the task and each subtask carry a fresh
/// identifier, and the task is stamped with the time it was made.
pub open spec fn decomposes(
    r: DecomposeTaskResponse,
    request: DecomposeTaskRequest,
    completion: ChatCompletionResponse,
) -> bool {
    &&& is_uuid_v4_text(r.task.id@)
    &&& r.task.title@ == request.task@
    &&& r.task.description@ == (match request.context {
        Some(c) => c@,
        None => Seq::<char>::empty(),
    })
    &&& r.task.status == TaskStatus::Pending
    &&& is_clock_reading(r.task.created_at)
    &&& r.task.created_at.secs >= 0
    &&& r.task.created_at.nanos < 1_000_000_000
    &&& subtask_views(r.task.subtasks@) == subtask_plan(answer_text(completion))
    &&& forall|i: int|
        0 <= i < r.task.subtasks@.len() ==> {
            &&& is_uuid_v4_text((#[trigger] r.task.subtasks@[i]).id@)
            &&& r.task.subtasks@[i].status == TaskStatus::Pending
            &&& r.task.subtasks@[i].result is None
        }
    &&& string_views(r.suggestions@) == decomposition_advice()
}

/// Decomposes `request` given the model's completion: reads the subtasks off
/// the answer, gives the task and each subtask a fresh identifier and stamps
/// the task with the current time.
pub fn decompose_completion(request: &DecomposeTaskRequest, completion: &ChatCompletionResponse) -> (r:
    DecomposeTaskResponse)
    ensures
        decomposes(r, *request, *completion),
{
    let answer = completion_text(completion);
    let drafts = plan_subtasks(answer.as_str());
    let mut ids: Vec<String> = Vec::new();
    let mut i: usize = 0;
    while i < drafts.len()
        invariant
            0 <= i <= drafts@.len(),
            ids@.len() == i,
            forall|j: int| 0 <= j < i ==> is_uuid_v4_text((#[trigger] ids@[j])@),
        decreases drafts.len() - i,
    {
        ids.push(new_id());
        i = i + 1;
    }
    let task_id = new_id();
    let created_at = current_time();
    let r = assemble_decomposition(request, &drafts, &ids, task_id, created_at);
    assert(subtask_views(r.task.subtasks@).len() == drafts@.len());
    r
}

/// A call to the chat completions endpoint: where it goes, its headers, the
/// model, messages and token limit of its body, and how many seconds it may
/// take.
#[derive(Debug)]
pub struct CompletionCall {
    pub url: String,
    pub headers: Vec<(String, String)>,
    pub model: String,
    pub messages: Vec<ChatMessage>,
    pub max_tokens: u32,
    pub timeout_secs: u64,
}

/// How a call to the chat completions endpoint came out.
#[derive(Debug)]
pub enum CallOutcome {
    /// It could not be sent; the error's text.
    NotSent(String),
    /// It was answered with an error status; the body's text.
    Rejected(String),
    /// It was answered, but the body is no chat completion; the error's text.
    Unparsable(String),
    /// The completion that came back.
    Answered(ChatCompletionResponse),
}

/// What handling a decomposition request does next.
#[derive(Debug)]
pub enum DecomposeStep {
    /// Send this call and come back with its outcome.
    Send(CompletionCall),
    /// Answer the request with this.
    Done(Result<DecomposeTaskResponse, HandlerError>),
}

/// Whether `call` is the call that asks the model configured in `c` to
/// decompose `request`: a post to the endpoint's chat completions URL with
/// the bearer token and the JSON content type, the configured model, the
/// planner's system message and the question, at most 2048 tokens, and the
/// configured request timeout.
pub open spec fn is_decomposition_call(
    call: CompletionCall,
    c: AppConfig,
    request: DecomposeTaskRequest,
) -> bool {
    &&& call.url@ == completions_url(c.api_endpoint@)
    &&& header_views(call.headers@) == seq![
        ("Authorization"@, "Bearer "@ + c.api_key@),
        ("Content-Type"@, "application/json"@),
    ]
    &&& call.model@ == c.model_name@
    &&& call.messages@.len() == 2
    &&& call.messages@[0].role@ == "system"@
    &&& call.messages@[0].content@ == planner_instructions()
    &&& call.messages@[0].name is None
    &&& call.messages@[1].role@ == "user"@
    &&& call.messages@[1].content@ == decomposition_question(request)
    &&& call.messages@[1].name is None
    &&& call.max_tokens == 2048
    &&& call.timeout_secs == c.timeout_secs
}

/// Handles a request to decompose a task, with the configuration `config`:
/// without an outcome yet, the call to make; with the outcome of that call,
/// the answer. A call that fails, is refused or brings back no completion
/// ends in a bad gateway error; a completion is decomposed.
pub fn decompose_task(
    config: &AppConfig,
    request: &DecomposeTaskRequest,
    outcome: Option<CallOutcome>,
) -> (r: DecomposeStep)
    requires
        valid_header_value("Bearer "@ + config.api_key@),
    ensures
        match outcome {
            None => r matches DecomposeStep::Send(call) && is_decomposition_call(
                call,
                *config,
                *request,
            ),
            Some(CallOutcome::NotSent(e)) => r matches DecomposeStep::Done(Err(err))
                && err.status == ErrorStatus::BadGateway && err.message@ == call_failure_prefix(
                Upstream::Completions,
            ) + e@,
            Some(CallOutcome::Rejected(body)) => r matches DecomposeStep::Done(Err(err))
                && err.status == ErrorStatus::BadGateway && err.message@ == status_failure_prefix(
                Upstream::Completions,
            ) + body@,
            Some(CallOutcome::Unparsable(e)) => r matches DecomposeStep::Done(Err(err))
                && err.status == ErrorStatus::BadGateway && err.message@
                == "Failed to parse response: "@ + e@,
            Some(CallOutcome::Answered(c)) => r matches DecomposeStep::Done(Ok(d)) && decomposes(
                d,
                *request,
                c,
            ),
        },
{
    match outcome {
        None => {
            let call = CompletionCall {
                url: chat_completions_url(config.api_endpoint.as_str()),
                headers: decomposition_headers(config),
                model: config.model_name.clone(),
                messages: decomposition_messages(request),
                max_tokens: 2048,
                timeout_secs: config.timeout_secs,
            };
            DecomposeStep::Send(call)
        },
        Some(CallOutcome::NotSent(e)) => DecomposeStep::Done(
            Err(call_failure(Upstream::Completions, e.as_str())),
        ),
        Some(CallOutcome::Rejected(body)) => DecomposeStep::Done(
            Err(rejection(Upstream::Completions, body.as_str())),
        ),
        Some(CallOutcome::Unparsable(e)) => DecomposeStep::Done(Err(parse_failure(e.as_str()))),
        Some(CallOutcome::Answered(c)) => DecomposeStep::Done(Ok(decompose_completion(request, &c))),
    }
}


/// Every answer decomposes into at least one subtask.
pub proof fn law_plan_is_never_empty(answer: Seq<char>)
    ensures
        subtask_plan(answer).len() >= 1,
{
}

/// An answer none of whose lines opens a subtask decomposes into the single
/// "Main Task", described by the whole answer.
pub proof fn law_unstructured_answer_is_main_task(answer: Seq<char>)
    requires
        forall|i: int| 0 <= i < lines(answer).len() ==> !opens_subtask(#[trigger] lines(answer)[i]),
    ensures
        subtask_plan(answer) == seq![("Main Task"@, answer)],
{
    lemma_no_subtask_among(lines(answer), lines(answer).len() as int);
}

proof fn lemma_no_subtask_among(ls: Seq<Seq<char>>, n: int)
    requires
        n <= ls.len(),
        forall|i: int| 0 <= i < ls.len() ==> !opens_subtask(#[trigger] ls[i]),
    ensures
        planned_among(ls, n).len() == 0,
    decreases n,
{
    if n > 0 {
        lemma_no_subtask_among(ls, n - 1);
    }
}

/// Unfolds one step of [`planned_among`].
proof fn lemma_planned_step(ls: Seq<Seq<char>>, n: int)
    requires
        0 < n <= ls.len(),
    ensures
        opens_subtask(ls[n - 1]) ==> planned_among(ls, n) == planned_among(ls, n - 1).push(
            (subtask_title((n - 1) as nat), subtask_text(ls[n - 1])),
        ),
        !opens_subtask(ls[n - 1]) ==> planned_among(ls, n) == planned_among(ls, n - 1),
{
}

/// Whether `e` is the subtask that line `i` of `ls` opens.
pub open spec fn read_from_line(ls: Seq<Seq<char>>, i: int, e: (Seq<char>, Seq<char>)) -> bool {
    &&& 0 <= i < ls.len()
    &&& opens_subtask(ls[i])
    &&& e == (subtask_title(i as nat), subtask_text(ls[i]))
}

/// The index of the line that the `k`-th subtask among the first `n` lines
/// was read from.
pub open spec fn subtask_line(ls: Seq<Seq<char>>, n: int, k: int) -> int
    decreases n,
{
    if n <= 0 {
        -1
    } else if opens_subtask(ls[n - 1]) && k == planned_among(ls, n - 1).len() {
        n - 1
    } else {
        subtask_line(ls, n - 1, k)
    }
}

/// The subtasks found among the lines come in the order of the lines, each
/// titled after its line's position and described by that line's text.
pub proof fn law_subtasks_follow_their_lines(ls: Seq<Seq<char>>, n: int)
    requires
        0 <= n <= ls.len(),
    ensures
        forall|k: int|
            0 <= k < planned_among(ls, n).len() ==> 0 <= #[trigger] subtask_line(ls, n, k) < n
                && read_from_line(ls, subtask_line(ls, n, k), planned_among(ls, n)[k]),
        forall|j: int, k: int|
            0 <= j < k < planned_among(ls, n).len() ==> #[trigger] subtask_line(ls, n, j)
                < #[trigger] subtask_line(ls, n, k),
    decreases n,
{
    if n > 0 {
        law_subtasks_follow_their_lines(ls, n - 1);
        lemma_planned_step(ls, n);
        let before = planned_among(ls, n - 1);
        let now_ = planned_among(ls, n);
        let entry = (subtask_title((n - 1) as nat), subtask_text(ls[n - 1]));
        assert forall|k: int| 0 <= k < now_.len() implies 0 <= #[trigger] subtask_line(ls, n, k) < n
            && read_from_line(ls, subtask_line(ls, n, k), now_[k]) by {
            if k < before.len() {
                assert(subtask_line(ls, n, k) == subtask_line(ls, n - 1, k));
                if opens_subtask(ls[n - 1]) {
                    assert(now_ == before.push(entry));
                    assert(now_[k] == before[k]);
                } else {
                    assert(now_ == before);
                }
            } else {
                assert(opens_subtask(ls[n - 1]));
                assert(now_ == before.push(entry));
                assert(k == before.len());
                assert(now_[k] == entry);
                assert(subtask_line(ls, n, k) == n - 1);
            }
        }
        assert forall|j: int, k: int| 0 <= j < k < now_.len() implies #[trigger] subtask_line(
            ls,
            n,
            j,
        ) < #[trigger] subtask_line(ls, n, k) by {
            assert(subtask_line(ls, n, j) == subtask_line(ls, n - 1, j));
            if k < before.len() {
                assert(subtask_line(ls, n, k) == subtask_line(ls, n - 1, k));
            } else {
                assert(opens_subtask(ls[n - 1]));
                assert(subtask_line(ls, n, k) == n - 1);
                assert(0 <= subtask_line(ls, n - 1, j) < n - 1);
            }
        }
    }
}


/// The subtasks among the first `j` lines come first, in the same order,
/// among those of any longer run of lines.
proof fn lemma_planned_prefix(ls: Seq<Seq<char>>, j: int, m: int)
    requires
        0 <= j <= m <= ls.len(),
    ensures
        planned_among(ls, j).len() <= planned_among(ls, m).len(),
        forall|k: int|
            0 <= k < planned_among(ls, j).len() ==> #[trigger] planned_among(ls, m)[k]
                == planned_among(ls, j)[k],
    decreases m - j,
{
    if j < m {
        lemma_planned_prefix(ls, j, m - 1);
        lemma_planned_step(ls, m);
    }
}

/// No line that opens a subtask is left out: for every such line of the
/// answer, the plan holds the subtask titled after that line's position and
/// described by its text, however many such lines there are.
pub proof fn law_every_subtask_line_is_planned(answer: Seq<char>)
    ensures
        forall|i: int|
            0 <= i < lines(answer).len() && #[trigger] opens_subtask(lines(answer)[i]) ==> exists|
                k: int,
            |
                0 <= k < subtask_plan(answer).len() && #[trigger] read_from_line(
                    lines(answer),
                    i,
                    subtask_plan(answer)[k],
                ),
{
    let ls = lines(answer);
    let n = ls.len() as int;
    assert forall|i: int| 0 <= i < n && #[trigger] opens_subtask(ls[i]) implies exists|k: int|
        0 <= k < subtask_plan(answer).len() && #[trigger] read_from_line(
            ls,
            i,
            subtask_plan(answer)[k],
        ) by {
        lemma_planned_step(ls, i + 1);
        lemma_planned_prefix(ls, i + 1, n);
        let k = planned_among(ls, i).len() as int;
        let entry = (subtask_title(i as nat), subtask_text(ls[i]));
        assert(planned_among(ls, i + 1) == planned_among(ls, i).push(entry));
        assert(planned_among(ls, i + 1)[k] == entry);
        assert(planned_among(ls, n)[k] == entry);
        assert(planned_among(ls, n).len() > 0);
        assert(subtask_plan(answer) == planned_among(ls, n));
        assert(read_from_line(ls, i, subtask_plan(answer)[k]));
    }
}

} // verus!
