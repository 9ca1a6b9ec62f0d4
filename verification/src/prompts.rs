//! Prompt templates: the `{{name}}` placeholders of a template and the
//! in-memory collection of prompts that the service manages.

use vstd::prelude::*;
use crate::chars::{ascii_word_char, is_word_character, word_char};
use crate::errors::ErrorStatus;
use crate::stamps::{Timestamp, current_time, is_clock_reading, is_uuid_v4_text, new_id};
use crate::text::{chars_of, lemma_skip_while_exact, opt_view, skip_while_from, string_of_range};

verus! {

/// The class `\w`, for scanning.
pub open spec fn word_chars() -> spec_fn(char) -> bool {
    |c: char| word_char(c)
}

/// The end of the run of word characters that starts at `i`.
pub open spec fn word_run_end(s: Seq<char>, i: int) -> int {
    skip_while_from(s, word_chars(), i)
}

/// Whether a placeholder `{{name}}`, `name` one or more word characters,
/// starts at index `k` of `s`.
pub open spec fn placeholder_at(s: Seq<char>, k: int) -> bool {
    let e = word_run_end(s, k + 2);
    &&& 0 <= k
    &&& k + 2 <= s.len()
    &&& s[k] == '{'
    &&& s[k + 1] == '{'
    &&& e > k + 2
    &&& e + 2 <= s.len()
    &&& s[e] == '}'
    &&& s[e + 1] == '}'
}

/// The name of the placeholder that starts at `k`.
pub open spec fn placeholder_name(s: Seq<char>, k: int) -> Seq<char> {
    s.subrange(k + 2, word_run_end(s, k + 2))
}

/// The index just after the placeholder that starts at `k`.
pub open spec fn placeholder_end(s: Seq<char>, k: int) -> int {
    word_run_end(s, k + 2) + 2
}

pub proof fn lemma_word_run_bounds(s: Seq<char>, i: int)
    requires
        0 <= i <= s.len(),
    ensures
        i <= word_run_end(s, i) <= s.len(),
    decreases s.len() - i,
{
    if i < s.len() && word_chars()(s[i]) {
        lemma_word_run_bounds(s, i + 1);
    }
}

/// The names of the placeholders of `s` from index `i` on, in the order of
/// the matches of the pattern `\{\{(\w+)\}\}`: each match is the leftmost
/// one that starts after the end of the one before.
pub open spec fn placeholders_from(s: Seq<char>, i: int) -> Seq<Seq<char>>
    decreases s.len() - i,
{
    if i < 0 || i >= s.len() {
        seq![]
    } else if placeholder_at(s, i) {
        proof {
            lemma_word_run_bounds(s, i + 2);
        }
        seq![placeholder_name(s, i)] + placeholders_from(s, placeholder_end(s, i))
    } else {
        placeholders_from(s, i + 1)
    }
}

/// The variables of a template: the names of its `{{name}}` placeholders,
/// in order of appearance, repeats included.
pub open spec fn template_variables(s: Seq<char>) -> Seq<Seq<char>> {
    placeholders_from(s, 0)
}

/// The views of a sequence of strings.
pub open spec fn views(v: Seq<String>) -> Seq<Seq<char>> {
    v.map_values(|s: String| s@)
}

/// The end of the run of word characters of `cs` that starts at `i`.
fn word_end(cs: &[char], i: usize) -> (r: usize)
    requires
        i <= cs@.len(),
    ensures
        r == word_run_end(cs@, i as int),
        i <= r <= cs@.len(),
{
    let ghost p = word_chars();
    let mut j = i;
    while j < cs.len() && is_word_character(cs[j])
        invariant
            i <= j <= cs@.len(),
            p == word_chars(),
            skip_while_from(cs@, p, i as int) == skip_while_from(cs@, p, j as int),
        decreases cs.len() - j,
    {
        assert(p(cs@[j as int]));
        j = j + 1;
    }
    proof {
        assert(j < cs@.len() ==> !p(cs@[j as int]));
        assert(skip_while_from(cs@, p, j as int) == j);
    }
    j
}

/// The variables of the template `content`: the names in its `{{name}}`
/// placeholders, in order.
pub fn extract_variables(content: &str) -> (r: Vec<String>)
    ensures
        views(r@) == template_variables(content@),
{
    let cs = chars_of(content);
    let ghost s = cs@;
    let n = cs.len();
    let mut r: Vec<String> = Vec::new();
    let mut i: usize = 0;
    while i < n
        invariant
            s == cs@,
            s == content@,
            n == s.len(),
            i <= n,
            views(r@) + placeholders_from(s, i as int) == template_variables(s),
        decreases n - i,
    {
        let mut found = false;
        if i + 1 < n && cs[i] == '{' && cs[i + 1] == '{' {
            let e = word_end(&cs, i + 2);
            if e > i + 2 && e < n && e + 1 < n && cs[e] == '}' && cs[e + 1] == '}' {
                let name = string_of_range(&cs, i + 2, e);
                let ghost before = r@;
                r.push(name);
                proof {
                    assert(placeholder_at(s, i as int));
                    assert(views(r@) =~= views(before).push(placeholder_name(s, i as int)));
                    assert(placeholders_from(s, i as int) == seq![placeholder_name(s, i as int)]
                        + placeholders_from(s, (e + 2) as int));
                    assert(views(before) + placeholders_from(s, i as int) =~= views(r@)
                        + placeholders_from(s, (e + 2) as int));
                }
                i = e + 2;
                found = true;
            }
        }
        if !found {
            assert(!placeholder_at(s, i as int));
            i = i + 1;
        }
    }
    proof {
        assert(placeholders_from(s, i as int) =~= Seq::<Seq<char>>::empty());
        assert(views(r@) =~= template_variables(s));
    }
    r
}


/// A prompt template.
#[derive(Debug)]
pub struct Prompt {
    pub id: String,
    pub name: String,
    pub content: String,
    pub system_message: Option<String>,
    pub variables: Vec<String>,
    pub created_at: Timestamp,
    pub updated_at: Timestamp,
}

/// The fields of a request that creates or updates a prompt: each is the
/// string found under its name in the request, or `None` where there is no
/// string there.
#[derive(Debug)]
pub struct PromptFields {
    pub name: Option<String>,
    pub content: Option<String>,
    pub system_message: Option<String>,
}

/// Whether two prompts hold the same values.
pub open spec fn same_prompt(a: Prompt, b: Prompt) -> bool {
    &&& a.id@ == b.id@
    &&& a.name@ == b.name@
    &&& a.content@ == b.content@
    &&& opt_view(a.system_message) == opt_view(b.system_message)
    &&& views(a.variables@) == views(b.variables@)
    &&& a.created_at == b.created_at
    &&& a.updated_at == b.updated_at
}

fn copy_opt(o: &Option<String>) -> (r: Option<String>)
    ensures
        opt_view(r) == opt_view(*o),
{
    match o {
        Some(s) => Some(s.clone()),
        None => None,
    }
}

fn copy_strings(v: &Vec<String>) -> (r: Vec<String>)
    ensures
        views(r@) == views(v@),
{
    let mut r: Vec<String> = Vec::new();
    let mut i: usize = 0;
    while i < v.len()
        invariant
            0 <= i <= v@.len(),
            r@.len() == i,
            forall|j: int| 0 <= j < i ==> (#[trigger] r@[j])@ == v@[j]@,
        decreases v.len() - i,
    {
        r.push(v[i].clone());
        i = i + 1;
    }
    assert(views(r@) =~= views(v@));
    r
}

impl Prompt {
    /// A prompt with identifier `id`, created and updated at `at`, and no
    /// variables yet.
    pub fn with_identity(
        id: String,
        at: Timestamp,
        name: String,
        content: String,
        system_message: Option<String>,
    ) -> (r: Prompt)
        ensures
            r.id == id,
            r.name == name,
            r.content == content,
            r.system_message == system_message,
            r.variables@.len() == 0,
            r.created_at == at,
            r.updated_at == at,
    {
        Prompt { id, name, content, system_message, variables: Vec::new(), created_at: at, updated_at: at }
    }

    /// A new prompt with a fresh identifier, created and updated now, and
    /// no variables yet.
    pub fn new(name: String, content: String, system_message: Option<String>) -> (r: Prompt)
        ensures
            is_uuid_v4_text(r.id@),
            r.name == name,
            r.content == content,
            r.system_message == system_message,
            r.variables@.len() == 0,
            r.created_at == r.updated_at,
            is_clock_reading(r.created_at),
            r.created_at.secs >= 0,
            r.created_at.nanos < 1_000_000_000,
    {
        let at = current_time();
        Prompt::with_identity(new_id(), at, name, content, system_message)
    }

    /// A copy of this prompt.
    pub fn duplicate(&self) -> (r: Prompt)
        ensures
            same_prompt(r, *self),
    {
        Prompt {
            id: self.id.clone(),
            name: self.name.clone(),
            content: self.content.clone(),
            system_message: copy_opt(&self.system_message),
            variables: copy_strings(&self.variables),
            created_at: self.created_at,
            updated_at: self.updated_at,
        }
    }
}

/// The index of the first prompt at or after `i` with identifier `id`, or
/// the length where there is none.
pub open spec fn find_from(ps: Seq<Prompt>, id: Seq<char>, i: int) -> int
    decreases ps.len() - i,
{
    if i < 0 || i >= ps.len() {
        ps.len() as int
    } else if ps[i].id@ == id {
        i
    } else {
        find_from(ps, id, i + 1)
    }
}

/// The index of the first prompt with identifier `id`, or the length where
/// there is none.
pub open spec fn find_prompt(ps: Seq<Prompt>, id: Seq<char>) -> int {
    find_from(ps, id, 0)
}

/// Whether some prompt has identifier `id`.
pub open spec fn has_prompt(ps: Seq<Prompt>, id: Seq<char>) -> bool {
    exists|i: int| 0 <= i < ps.len() && (#[trigger] ps[i]).id@ == id
}

/// The prompts without those whose identifier is `id`, in their order.
pub open spec fn without_prompt(ps: Seq<Prompt>, id: Seq<char>) -> Seq<Prompt>
    decreases ps.len(),
{
    if ps.len() == 0 {
        ps
    } else {
        let rest = without_prompt(ps.drop_last(), id);
        if ps.last().id@ == id {
            rest
        } else {
            rest.push(ps.last())
        }
    }
}

/// Whether `a` and `b` hold, index by index, the same prompts.
pub open spec fn same_prompts(a: Seq<Prompt>, b: Seq<Prompt>) -> bool {
    a.len() == b.len() && forall|i: int| 0 <= i < a.len() ==> same_prompt(#[trigger] a[i], b[i])
}

/// Where the first prompt with identifier `id` is, from index `i` on.
pub proof fn lemma_find_from(ps: Seq<Prompt>, id: Seq<char>, i: int)
    requires
        0 <= i <= ps.len(),
    ensures
        i <= find_from(ps, id, i) <= ps.len(),
        find_from(ps, id, i) < ps.len() ==> ps[find_from(ps, id, i)].id@ == id,
        forall|j: int| i <= j < find_from(ps, id, i) ==> (#[trigger] ps[j]).id@ != id,
    decreases ps.len() - i,
{
    if i < ps.len() && ps[i].id@ != id {
        lemma_find_from(ps, id, i + 1);
    }
}

/// All prompts, copied (the listing endpoint).
pub fn list_prompts(prompts: &Vec<Prompt>) -> (r: Vec<Prompt>)
    ensures
        same_prompts(r@, prompts@),
{
    let mut r: Vec<Prompt> = Vec::new();
    let mut i: usize = 0;
    while i < prompts.len()
        invariant
            0 <= i <= prompts@.len(),
            r@.len() == i,
            forall|j: int| 0 <= j < i ==> same_prompt(#[trigger] r@[j], prompts@[j]),
        decreases prompts.len() - i,
    {
        r.push(prompts[i].duplicate());
        i = i + 1;
    }
    r
}

/// The index of the first prompt with identifier `id`, if there is one.
pub fn position_of(prompts: &Vec<Prompt>, id: &str) -> (r: Option<usize>)
    ensures
        match r {
            Some(k) => k as int == find_prompt(prompts@, id@) && k < prompts@.len(),
            None => find_prompt(prompts@, id@) == prompts@.len(),
        },
{
    let wanted = String::from_str(id);
    let mut i: usize = 0;
    while i < prompts.len()
        invariant
            0 <= i <= prompts@.len(),
            wanted@ == id@,
            find_prompt(prompts@, id@) == find_from(prompts@, id@, i as int),
        decreases prompts.len() - i,
    {
        if prompts[i].id == wanted {
            assert(find_from(prompts@, id@, i as int) == i);
            return Some(i);
        }
        i = i + 1;
    }
    assert(find_from(prompts@, id@, i as int) == prompts@.len());
    None
}


/// The prompt with identifier `id` (the first, where several share it).
pub fn get_prompt(prompts: &Vec<Prompt>, id: &str) -> (r: Result<Prompt, ErrorStatus>)
    ensures
        find_prompt(prompts@, id@) < prompts@.len() ==> (r matches Ok(p) && same_prompt(
            p,
            prompts@[find_prompt(prompts@, id@)],
        )),
        find_prompt(prompts@, id@) >= prompts@.len() ==> r == Err::<Prompt, ErrorStatus>(
            ErrorStatus::NotFound,
        ),
{
    proof {
        lemma_find_from(prompts@, id@, 0);
    }
    match position_of(prompts, id) {
        Some(k) => {
            assert(k == find_prompt(prompts@, id@));
            let p = prompts[k].duplicate();
            assert(same_prompt(p, prompts@[k as int]));
            Ok(p)
        },
        None => Err(ErrorStatus::NotFound),
    }
}

/// Whether `p` is the prompt that a create request with `fields` makes,
/// whatever identifier and time it got: the given name, content and system
/// message, the content's variables, created and updated at the same time.
pub open spec fn made_from(p: Prompt, fields: PromptFields) -> bool {
    &&& fields.name matches Some(name) && p.name@ == name@
    &&& fields.content matches Some(content) && p.content@ == content@
    &&& opt_view(p.system_message) == opt_view(fields.system_message)
    &&& views(p.variables@) == template_variables(p.content@)
    &&& p.created_at == p.updated_at
}

/// Makes a prompt with identifier `id` and time `at` from the fields of a
/// request and adds it at the end. A request without a name or without
/// content is refused.
pub fn add_prompt(prompts: &mut Vec<Prompt>, fields: PromptFields, id: String, at: Timestamp) -> (r:
    Result<Prompt, ErrorStatus>)
    ensures
        (fields.name is None || fields.content is None) ==> {
            &&& r == Err::<Prompt, ErrorStatus>(ErrorStatus::BadRequest)
            &&& final(prompts)@ == old(prompts)@
        },
        (fields.name is Some && fields.content is Some) ==> (r matches Ok(p) && {
            &&& final(prompts)@.len() == old(prompts)@.len() + 1
            &&& final(prompts)@.take(old(prompts)@.len() as int) == old(prompts)@
            &&& same_prompt(final(prompts)@.last(), p)
            &&& made_from(p, fields)
            &&& p.id == id
            &&& p.created_at == at
        }),
{
    let PromptFields { name, content, system_message } = fields;
    let name = match name {
        Some(n) => n,
        None => return Err(ErrorStatus::BadRequest),
    };
    let content = match content {
        Some(c) => c,
        None => return Err(ErrorStatus::BadRequest),
    };
    let mut prompt = Prompt::with_identity(id, at, name, content, system_message);
    prompt.variables = extract_variables(prompt.content.as_str());
    let ghost before = prompts@;
    prompts.push(prompt.duplicate());
    assert(prompts@.take(before.len() as int) =~= before);
    Ok(prompt)
}

/// Creates a prompt from the fields of a request, with a fresh identifier
/// and the current time, and adds it at the end. A request without a name or
/// without content is refused.
pub fn create_prompt(prompts: &mut Vec<Prompt>, fields: PromptFields) -> (r: Result<
    Prompt,
    ErrorStatus,
>)
    ensures
        (fields.name is None || fields.content is None) ==> {
            &&& r == Err::<Prompt, ErrorStatus>(ErrorStatus::BadRequest)
            &&& final(prompts)@ == old(prompts)@
        },
        (fields.name is Some && fields.content is Some) ==> (r matches Ok(p) && {
            &&& final(prompts)@.len() == old(prompts)@.len() + 1
            &&& final(prompts)@.take(old(prompts)@.len() as int) == old(prompts)@
            &&& same_prompt(final(prompts)@.last(), p)
            &&& made_from(p, fields)
            &&& is_uuid_v4_text(p.id@)
            &&& is_clock_reading(p.created_at)
            &&& p.created_at.secs >= 0
            &&& p.created_at.nanos < 1_000_000_000
        }),
{
    let at = current_time();
    add_prompt(prompts, fields, new_id(), at)
}

/// Whether `q` is `p` changed by an update request with `fields` at time
/// `at`: each field given replaces the old one (new content brings its own
/// variables), the others stay, and the prompt was updated at `at`.
pub open spec fn updated_from(q: Prompt, p: Prompt, fields: PromptFields, at: Timestamp) -> bool {
    &&& q.id@ == p.id@
    &&& q.name@ == (match fields.name {
        Some(n) => n@,
        None => p.name@,
    })
    &&& q.content@ == (match fields.content {
        Some(c) => c@,
        None => p.content@,
    })
    &&& views(q.variables@) == (match fields.content {
        Some(c) => template_variables(c@),
        None => views(p.variables@),
    })
    &&& opt_view(q.system_message) == (match fields.system_message {
        Some(m) => Some(m@),
        None => opt_view(p.system_message),
    })
    &&& q.created_at == p.created_at
    &&& q.updated_at == at
}

/// `p` changed by an update request with `fields`, at time `at`.
pub fn apply_update(p: &Prompt, fields: PromptFields, at: Timestamp) -> (r: Prompt)
    ensures
        updated_from(r, *p, fields, at),
{
    let PromptFields { name, content, system_message } = fields;
    let mut q = p.duplicate();
    match name {
        Some(n) => q.name = n,
        None => {},
    }
    match content {
        Some(c) => {
            q.variables = extract_variables(c.as_str());
            q.content = c;
        },
        None => {},
    }
    match system_message {
        Some(m) => q.system_message = Some(m),
        None => {},
    }
    q.updated_at = at;
    q
}

/// Updates the prompt with identifier `id` (the first, where several share
/// it) from the fields of a request, stamping it with the time `at`.
pub fn update_prompt_at(prompts: &mut Vec<Prompt>, id: &str, fields: PromptFields, at: Timestamp) -> (r:
    Result<Prompt, ErrorStatus>)
    ensures
        find_prompt(old(prompts)@, id@) >= old(prompts)@.len() ==> {
            &&& r == Err::<Prompt, ErrorStatus>(ErrorStatus::NotFound)
            &&& final(prompts)@ == old(prompts)@
        },
        find_prompt(old(prompts)@, id@) < old(prompts)@.len() ==> (r matches Ok(p) && {
            let k = find_prompt(old(prompts)@, id@);
            &&& final(prompts)@.len() == old(prompts)@.len()
            &&& forall|j: int|
                0 <= j < old(prompts)@.len() && j != k ==> #[trigger] final(prompts)@[j]
                    == old(prompts)@[j]
            &&& updated_from(final(prompts)@[k], old(prompts)@[k], fields, at)
            &&& same_prompt(p, final(prompts)@[k])
        }),
{
    proof {
        lemma_find_from(prompts@, id@, 0);
    }
    match position_of(prompts, id) {
        None => Err(ErrorStatus::NotFound),
        Some(k) => {
            let q = apply_update(&prompts[k], fields, at);
            let result = q.duplicate();
            prompts.set(k, q);
            Ok(result)
        },
    }
}

/// Updates the prompt with identifier `id` (the first, where several share
/// it) from the fields of a request, stamping it with the current time.
pub fn update_prompt(prompts: &mut Vec<Prompt>, id: &str, fields: PromptFields) -> (r: Result<
    Prompt,
    ErrorStatus,
>)
    ensures
        find_prompt(old(prompts)@, id@) >= old(prompts)@.len() ==> {
            &&& r == Err::<Prompt, ErrorStatus>(ErrorStatus::NotFound)
            &&& final(prompts)@ == old(prompts)@
        },
        find_prompt(old(prompts)@, id@) < old(prompts)@.len() ==> (r matches Ok(p) && {
            let k = find_prompt(old(prompts)@, id@);
            &&& final(prompts)@.len() == old(prompts)@.len()
            &&& forall|j: int|
                0 <= j < old(prompts)@.len() && j != k ==> #[trigger] final(prompts)@[j]
                    == old(prompts)@[j]
            &&& updated_from(final(prompts)@[k], old(prompts)@[k], fields, p.updated_at)
            &&& same_prompt(p, final(prompts)@[k])
            &&& is_clock_reading(p.updated_at)
            &&& p.updated_at.secs >= 0
            &&& p.updated_at.nanos < 1_000_000_000
        }),
{
    let at = current_time();
    update_prompt_at(prompts, id, fields, at)
}

proof fn lemma_without_prompt_step(ps: Seq<Prompt>, id: Seq<char>, i: int)
    requires
        0 <= i < ps.len(),
    ensures
        without_prompt(ps.take(i + 1), id) == if ps[i].id@ == id {
            without_prompt(ps.take(i), id)
        } else {
            without_prompt(ps.take(i), id).push(ps[i])
        },
{
    assert(ps.take(i + 1).drop_last() =~= ps.take(i));
}

/// Removes every prompt with identifier `id`; refused where there is none.
pub fn delete_prompt(prompts: &mut Vec<Prompt>, id: &str) -> (r: Result<(), ErrorStatus>)
    ensures
        final(prompts)@ == without_prompt(old(prompts)@, id@),
        r is Ok <==> final(prompts)@.len() < old(prompts)@.len(),
        r is Err ==> r == Err::<(), ErrorStatus>(ErrorStatus::NotFound),
{
    let wanted = String::from_str(id);
    let initial_len = prompts.len();
    let mut items: Vec<Prompt> = Vec::new();
    std::mem::swap(prompts, &mut items);
    let ghost all = items@;
    for p in it: items
        invariant
            it.seq() == all,
            wanted@ == id@,
            prompts@ == without_prompt(all.take(it.index() as int), id@),
    {
        proof {
            lemma_without_prompt_step(all, id@, it.index() as int);
        }
        if p.id != wanted {
            prompts.push(p);
        }
    }
    proof {
        assert(all.take(all.len() as int) =~= all);
    }
    if prompts.len() < initial_len {
        Ok(())
    } else {
        Err(ErrorStatus::NotFound)
    }
}


proof fn lemma_has_prompt_find(ps: Seq<Prompt>, id: Seq<char>)
    ensures
        has_prompt(ps, id) <==> find_prompt(ps, id) < ps.len(),
{
    lemma_find_from(ps, id, 0);
    if has_prompt(ps, id) {
        let i = choose|i: int| 0 <= i < ps.len() && (#[trigger] ps[i]).id@ == id;
        assert(!(find_prompt(ps, id) == ps.len()) || ps[i].id@ != id);
    }
}

proof fn lemma_without_prompt_members(ps: Seq<Prompt>, id: Seq<char>)
    ensures
        without_prompt(ps, id).len() <= ps.len(),
        without_prompt(ps, id).len() == ps.len() <==> !has_prompt(ps, id),
        !has_prompt(ps, id) ==> without_prompt(ps, id) == ps,
        forall|x: Seq<char>|
            x != id ==> (has_prompt(#[trigger] without_prompt(ps, id), x) <==> has_prompt(ps, x)),
        !has_prompt(without_prompt(ps, id), id),
    decreases ps.len(),
{
    if ps.len() > 0 {
        let init = ps.drop_last();
        let w = without_prompt(init, id);
        lemma_without_prompt_members(init, id);
        assert(ps =~= init.push(ps.last()));
        assert forall|x: Seq<char>| has_prompt(ps, x) <==> has_prompt(init, x) || ps.last().id@ == x by {
            if has_prompt(ps, x) {
                let i = choose|i: int| 0 <= i < ps.len() && (#[trigger] ps[i]).id@ == x;
                if i < ps.len() - 1 {
                    assert(init[i] == ps[i]);
                }
            }
            if has_prompt(init, x) {
                let i = choose|i: int| 0 <= i < init.len() && (#[trigger] init[i]).id@ == x;
                assert(ps[i] == init[i]);
            }
            if ps.last().id@ == x {
                assert(ps[ps.len() - 1].id@ == x);
            }
        }
        if ps.last().id@ != id {
            let ww = w.push(ps.last());
            assert forall|x: Seq<char>| has_prompt(ww, x) <==> has_prompt(w, x) || ps.last().id@ == x by {
                if has_prompt(ww, x) {
                    let i = choose|i: int| 0 <= i < ww.len() && (#[trigger] ww[i]).id@ == x;
                    if i < ww.len() - 1 {
                        assert(w[i] == ww[i]);
                    }
                }
                if has_prompt(w, x) {
                    let i = choose|i: int| 0 <= i < w.len() && (#[trigger] w[i]).id@ == x;
                    assert(ww[i] == w[i]);
                }
                if ps.last().id@ == x {
                    assert(ww[ww.len() - 1].id@ == x);
                }
            }
        }
    } else {
        assert(!has_prompt(ps, id));
    }
}

/// A prompt that create_prompt adds is the one that get_prompt finds under
/// its identifier, unless an earlier prompt already had that identifier.
pub proof fn law_created_prompt_is_found(before: Seq<Prompt>, after: Seq<Prompt>)
    requires
        after.len() == before.len() + 1,
        after.take(before.len() as int) == before,
        !has_prompt(before, after.last().id@),
    ensures
        find_prompt(after, after.last().id@) == before.len(),
{
    let id = after.last().id@;
    lemma_find_from(after, id, 0);
    assert forall|j: int| 0 <= j < before.len() implies (#[trigger] after[j]).id@ != id by {
        assert(after.take(before.len() as int)[j] == after[j]);
        assert(before[j].id@ != id);
    }
    assert(after[before.len() as int].id@ == id);
}

/// After delete_prompt removes an identifier, get_prompt finds nothing under
/// it; the prompts under every other identifier are all still there.
pub proof fn law_deleted_prompt_is_gone(ps: Seq<Prompt>, id: Seq<char>)
    ensures
        find_prompt(without_prompt(ps, id), id) == without_prompt(ps, id).len(),
        forall|x: Seq<char>|
            x != id ==> (has_prompt(#[trigger] without_prompt(ps, id), x) <==> has_prompt(ps, x)),
{
    lemma_without_prompt_members(ps, id);
    lemma_has_prompt_find(without_prompt(ps, id), id);
    lemma_find_from(without_prompt(ps, id), id, 0);
}

/// delete_prompt succeeds exactly when some prompt has the identifier, and
/// where none has it the collection stays as it was.
pub proof fn law_delete_succeeds_iff_present(ps: Seq<Prompt>, id: Seq<char>)
    ensures
        without_prompt(ps, id).len() < ps.len() <==> has_prompt(ps, id),
        !has_prompt(ps, id) ==> without_prompt(ps, id) == ps,
{
    lemma_without_prompt_members(ps, id);
}

/// An update changes no identifier, so after it get_prompt finds every
/// identifier at the same place as before: the updated prompt under its own.
pub proof fn law_update_keeps_lookup(before: Seq<Prompt>, after: Seq<Prompt>, x: Seq<char>)
    requires
        after.len() == before.len(),
        forall|j: int| 0 <= j < before.len() ==> (#[trigger] after[j]).id@ == before[j].id@,
    ensures
        find_prompt(after, x) == find_prompt(before, x),
{
    lemma_find_from(after, x, 0);
    lemma_find_from(before, x, 0);
    let a = find_prompt(after, x);
    let b = find_prompt(before, x);
    if a < b {
        assert(after[a].id@ == x);
        assert(before[a].id@ != x);
    } else if b < a {
        assert(before[b].id@ == x);
        assert(after[b].id@ != x);
    }
}


/// A template that is one placeholder `{{name}}`, with a name of ASCII
/// letters, digits and underscores, has that name as its only variable.
pub proof fn law_placeholder_names_its_variable(name: Seq<char>)
    requires
        name.len() > 0,
        forall|i: int| 0 <= i < name.len() ==> ascii_word_char(#[trigger] name[i]),
    ensures
        template_variables(seq!['{', '{'] + name + seq!['}', '}']) == seq![name],
{
    let s = seq!['{', '{'] + name + seq!['}', '}'];
    let e: int = name.len() as int + 2;
    assert forall|j: int| 2 <= j < e implies word_chars()(#[trigger] s[j]) by {
        assert(s[j] == name[j - 2]);
    }
    assert(s[e] == '}');
    assert(!word_chars()(s[e]));
    lemma_skip_while_exact(s, word_chars(), 2, e);
    assert(placeholder_at(s, 0));
    assert(placeholder_name(s, 0) =~= name);
    assert(placeholders_from(s, e + 2) =~= Seq::<Seq<char>>::empty());
    assert(template_variables(s) =~= seq![name]);
}

proof fn lemma_no_open_brace_from(s: Seq<char>, i: int)
    requires
        0 <= i,
        forall|j: int| 0 <= j < s.len() ==> #[trigger] s[j] != '{',
    ensures
        placeholders_from(s, i) == Seq::<Seq<char>>::empty(),
    decreases s.len() - i,
{
    if i < s.len() {
        assert(!placeholder_at(s, i));
        lemma_no_open_brace_from(s, i + 1);
    }
}

/// A template without `{` has no variables.
pub proof fn law_plain_text_has_no_variables(s: Seq<char>)
    requires
        forall|j: int| 0 <= j < s.len() ==> #[trigger] s[j] != '{',
    ensures
        template_variables(s) == Seq::<Seq<char>>::empty(),
{
    lemma_no_open_brace_from(s, 0);
}


/// Whether the first prompt under `p`'s identifier holds `p`'s values, so
/// that get_prompt answers with `p`.
pub open spec fn finds(ps: Seq<Prompt>, p: Prompt) -> bool {
    find_prompt(ps, p.id@) < ps.len() && same_prompt(ps[find_prompt(ps, p.id@)], p)
}

/// Whether `after` is `before` with the first prompt under `x` replaced by
/// one with the same identifier: what update_prompt does when it succeeds.
pub open spec fn updates_first(before: Seq<Prompt>, after: Seq<Prompt>, x: Seq<char>) -> bool {
    let k = find_prompt(before, x);
    &&& k < before.len()
    &&& after.len() == before.len()
    &&& after[k].id@ == before[k].id@
    &&& forall|j: int| 0 <= j < before.len() && j != k ==> #[trigger] after[j] == before[j]
}

/// Whether `after` can follow `before` through one call of the prompt
/// endpoints that neither updates nor deletes under the identifier `kept`:
/// a read or a refused request leaves the prompts as they were, a creation
/// adds one at the end, a deletion removes those under another identifier,
/// an update replaces the first prompt under another identifier.
pub open spec fn call_keeping(before: Seq<Prompt>, after: Seq<Prompt>, kept: Seq<char>) -> bool {
    ||| after == before
    ||| (after.len() == before.len() + 1 && after.take(before.len() as int) == before)
    ||| exists|x: Seq<char>| x != kept && after == #[trigger] without_prompt(before, x)
    ||| exists|x: Seq<char>| x != kept && #[trigger] updates_first(before, after, x)
}

proof fn lemma_find_exact(s: Seq<Prompt>, id: Seq<char>, k: int)
    requires
        0 <= k < s.len(),
        s[k].id@ == id,
        forall|j: int| 0 <= j < k ==> (#[trigger] s[j]).id@ != id,
    ensures
        find_prompt(s, id) == k,
{
    lemma_find_from(s, id, 0);
    let f = find_prompt(s, id);
    if f < k {
        assert(s[f].id@ == id);
    } else if f > k {
        assert(s[k].id@ != id);
    }
}

proof fn lemma_find_absent(s: Seq<Prompt>, id: Seq<char>)
    requires
        forall|j: int| 0 <= j < s.len() ==> (#[trigger] s[j]).id@ != id,
    ensures
        find_prompt(s, id) == s.len(),
{
    lemma_find_from(s, id, 0);
    if find_prompt(s, id) < s.len() {
        assert(s[find_prompt(s, id)].id@ == id);
    }
}

/// Prompts kept at the front keep the first place of every identifier found
/// among them.
proof fn lemma_find_in_prefix(a: Seq<Prompt>, b: Seq<Prompt>, id: Seq<char>)
    requires
        a.len() <= b.len(),
        forall|j: int| 0 <= j < a.len() ==> #[trigger] b[j] == a[j],
        find_prompt(a, id) < a.len(),
    ensures
        find_prompt(b, id) == find_prompt(a, id),
{
    lemma_find_from(a, id, 0);
    let k = find_prompt(a, id);
    assert(b[k] == a[k]);
    assert forall|j: int| 0 <= j < k implies (#[trigger] b[j]).id@ != id by {
        assert(b[j] == a[j]);
    }
    lemma_find_exact(b, id, k);
}

/// Deleting under `x` leaves the first prompt under any other identifier
/// first under it.
proof fn lemma_find_after_delete(ps: Seq<Prompt>, x: Seq<char>, y: Seq<char>)
    requires
        x != y,
        find_prompt(ps, y) < ps.len(),
    ensures
        find_prompt(without_prompt(ps, x), y) < without_prompt(ps, x).len(),
        without_prompt(ps, x)[find_prompt(without_prompt(ps, x), y)] == ps[find_prompt(ps, y)],
    decreases ps.len(),
{
    let init = ps.drop_last();
    let w0 = without_prompt(init, x);
    let w = without_prompt(ps, x);
    lemma_find_from(ps, y, 0);
    lemma_find_from(init, y, 0);
    assert forall|j: int| 0 <= j < init.len() implies #[trigger] ps[j] == init[j] by {}
    if find_prompt(init, y) < init.len() {
        lemma_find_after_delete(init, x, y);
        lemma_find_in_prefix(init, ps, y);
        let k0 = find_prompt(w0, y);
        lemma_find_from(w0, y, 0);
        if ps.last().id@ == x {
            assert(w == w0);
        } else {
            assert(w == w0.push(ps.last()));
            assert(w[k0] == w0[k0]);
            assert forall|j: int| 0 <= j < w0.len() implies #[trigger] w[j] == w0[j] by {}
            lemma_find_in_prefix(w0, w, y);
        }
        assert(ps[find_prompt(init, y)] == init[find_prompt(init, y)]);
    } else {
        assert forall|j: int| 0 <= j < init.len() implies (#[trigger] init[j]).id@ != y by {
            if init[j].id@ == y {
                assert(find_prompt(init, y) <= j);
            }
        }
        let k = find_prompt(ps, y);
        if k < init.len() {
            assert(init[k] == ps[k]);
        }
        assert(k == ps.len() - 1);
        assert(ps.last().id@ == y);
        assert(w == w0.push(ps.last()));
        lemma_without_prompt_members(init, x);
        lemma_has_prompt_find(init, y);
        lemma_has_prompt_find(w0, y);
        lemma_find_from(w0, y, 0);
        assert forall|j: int| 0 <= j < w0.len() implies (#[trigger] w[j]).id@ != y by {
            assert(w[j] == w0[j]);
            if w0[j].id@ == y {
                assert(find_prompt(w0, y) <= j);
            }
        }
        lemma_find_exact(w, y, w0.len() as int);
    }
}

proof fn lemma_call_keeps_found(before: Seq<Prompt>, after: Seq<Prompt>, p: Prompt)
    requires
        finds(before, p),
        call_keeping(before, after, p.id@),
    ensures
        finds(after, p),
{
    let id = p.id@;
    let k = find_prompt(before, id);
    lemma_find_from(before, id, 0);
    if after == before {
    } else if after.len() == before.len() + 1 && after.take(before.len() as int) == before {
        assert forall|j: int| 0 <= j < before.len() implies #[trigger] after[j] == before[j] by {
            assert(after.take(before.len() as int)[j] == after[j]);
        }
        lemma_find_in_prefix(before, after, id);
    } else if exists|x: Seq<char>| x != id && after == #[trigger] without_prompt(before, x) {
        let x = choose|x: Seq<char>| x != id && after == #[trigger] without_prompt(before, x);
        lemma_find_after_delete(before, x, id);
    } else {
        let x = choose|x: Seq<char>| x != id && #[trigger] updates_first(before, after, x);
        let u = find_prompt(before, x);
        lemma_find_from(before, x, 0);
        assert(u != k);
        assert forall|j: int| 0 <= j < before.len() implies (#[trigger] after[j]).id@
            == before[j].id@ by {
            if j != u {
                assert(after[j] == before[j]);
            }
        }
        law_update_keeps_lookup(before, after, id);
        assert(after[k] == before[k]);
    }
}

/// A prompt that create_prompt returned is what get_prompt finds under its
/// identifier after any series of later calls that neither update nor delete
/// under that identifier, unless a prompt before it already had the
/// identifier.
pub proof fn law_created_prompt_stays_found(
    before: Seq<Prompt>,
    states: Seq<Seq<Prompt>>,
    p: Prompt,
)
    requires
        states.len() > 0,
        states[0].len() == before.len() + 1,
        states[0].take(before.len() as int) == before,
        same_prompt(states[0].last(), p),
        !has_prompt(before, p.id@),
        forall|i: int|
            0 <= i < states.len() - 1 ==> #[trigger] call_keeping(states[i], states[i + 1], p.id@),
    ensures
        finds(states.last(), p),
    decreases states.len(),
{
    if states.len() == 1 {
        assert(states[0].last().id@ == p.id@);
        law_created_prompt_is_found(before, states[0]);
    } else {
        let init = states.drop_last();
        let n = states.len() as int;
        assert forall|i: int| 0 <= i < init.len() - 1 implies #[trigger] call_keeping(
            init[i],
            init[i + 1],
            p.id@,
        ) by {
            assert(call_keeping(states[i], states[i + 1], p.id@));
        }
        law_created_prompt_stays_found(before, init, p);
        let i = n - 2;
        assert(call_keeping(states[i], states[i + 1], p.id@));
        assert(init.last() == states[i]);
        assert(states.last() == states[i + 1]);
        lemma_call_keeps_found(init.last(), states.last(), p);
    }
}

/// Whether `after` can follow `before` through one create_prompt call: a
/// refused request leaves the prompts as they were, a successful one adds
/// one at the end.
pub open spec fn creation_call(before: Seq<Prompt>, after: Seq<Prompt>) -> bool {
    ||| after == before
    ||| (after.len() == before.len() + 1 && after.take(before.len() as int) == before)
}

/// The prompts that the successful calls of a series of creations added, in
/// the order of the calls.
pub open spec fn created_in_order(states: Seq<Seq<Prompt>>) -> Seq<Prompt>
    decreases states.len(),
{
    if states.len() <= 1 {
        seq![]
    } else {
        let init = states.drop_last();
        if states.last().len() == init.last().len() + 1 {
            created_in_order(init).push(states.last().last())
        } else {
            created_in_order(init)
        }
    }
}

/// Starting from no prompts, after a series of create_prompt calls the
/// prompts (what list_prompts returns) are exactly those that the successful
/// calls created, in the order of the calls.
pub proof fn law_list_follows_creation_order(states: Seq<Seq<Prompt>>)
    requires
        states.len() > 0,
        states[0].len() == 0,
        forall|i: int| 0 <= i < states.len() - 1 ==> #[trigger] creation_call(states[i], states[i + 1]),
    ensures
        states.last() == created_in_order(states),
    decreases states.len(),
{
    if states.len() == 1 {
        assert(states.last() =~= Seq::<Prompt>::empty());
    } else {
        let init = states.drop_last();
        let n = states.len() as int;
        assert forall|i: int| 0 <= i < init.len() - 1 implies #[trigger] creation_call(
            init[i],
            init[i + 1],
        ) by {
            assert(creation_call(states[i], states[i + 1]));
        }
        law_list_follows_creation_order(init);
        let i = n - 2;
        assert(creation_call(states[i], states[i + 1]));
        assert(init.last() == states[i]);
        assert(states.last() == states[i + 1]);
        let prev = init.last();
        let cur = states.last();
        if cur.len() == prev.len() + 1 {
            assert(cur =~= prev.push(cur.last())) by {
                assert forall|j: int| 0 <= j < prev.len() implies cur[j] == prev[j] by {
                    assert(cur.take(prev.len() as int)[j] == cur[j]);
                }
            }
        }
    }
}


/// A template of two parts joined by a line feed.
pub open spec fn joined_by_line_feed(a: Seq<char>, b: Seq<char>) -> Seq<char> {
    a + seq!['\n'] + b
}

proof fn lemma_run_stops_at_line_feed(a: Seq<char>, b: Seq<char>, i: int)
    requires
        0 <= i <= a.len(),
    ensures
        word_run_end(joined_by_line_feed(a, b), i) == word_run_end(a, i),
    decreases a.len() - i,
{
    let s = joined_by_line_feed(a, b);
    if i < a.len() {
        assert(s[i] == a[i]);
        lemma_run_stops_at_line_feed(a, b, i + 1);
    } else {
        assert(s[i] == '\n');
        assert(!word_chars()('\n'));
    }
}

proof fn lemma_run_after_line_feed(a: Seq<char>, b: Seq<char>, j: int)
    requires
        0 <= j <= b.len(),
    ensures
        word_run_end(joined_by_line_feed(a, b), a.len() + 1 + j) == a.len() + 1 + word_run_end(b, j),
    decreases b.len() - j,
{
    let s = joined_by_line_feed(a, b);
    let o = a.len() + 1;
    if j < b.len() {
        assert(s[o + j] == b[j]);
        lemma_run_after_line_feed(a, b, j + 1);
    }
}

proof fn lemma_placeholders_after_line_feed(a: Seq<char>, b: Seq<char>, j: int)
    requires
        0 <= j,
    ensures
        placeholders_from(joined_by_line_feed(a, b), a.len() + 1 + j) == placeholders_from(b, j),
    decreases b.len() - j,
{
    let s = joined_by_line_feed(a, b);
    let o = a.len() + 1;
    if j < b.len() {
        let k = o + j;
        if j + 2 <= b.len() {
            lemma_run_after_line_feed(a, b, j + 2);
            lemma_word_run_bounds(b, j + 2);
            let e = word_run_end(b, j + 2);
            assert(s[k] == b[j]);
            assert(s[k + 1] == b[j + 1]);
            if e + 2 <= b.len() {
                assert(s[o + e] == b[e]);
                assert(s[o + e + 1] == b[e + 1]);
            }
            assert(placeholder_at(s, k) == placeholder_at(b, j));
            if placeholder_at(b, j) {
                assert(placeholder_name(s, k) =~= placeholder_name(b, j));
                assert(placeholder_end(s, k) == o + placeholder_end(b, j));
                lemma_placeholders_after_line_feed(a, b, placeholder_end(b, j));
            } else {
                lemma_placeholders_after_line_feed(a, b, j + 1);
            }
        } else {
            assert(!placeholder_at(s, k));
            assert(!placeholder_at(b, j));
            lemma_placeholders_after_line_feed(a, b, j + 1);
        }
    }
}

proof fn lemma_placeholders_across_line_feed(a: Seq<char>, b: Seq<char>, k: int)
    requires
        0 <= k <= a.len(),
    ensures
        placeholders_from(joined_by_line_feed(a, b), k) == placeholders_from(a, k) + placeholders_from(
            b,
            0,
        ),
    decreases a.len() - k,
{
    let s = joined_by_line_feed(a, b);
    let la = a.len() as int;
    if k == la {
        assert(s[la] == '\n');
        assert(!placeholder_at(s, la));
        lemma_placeholders_after_line_feed(a, b, 0);
        assert(placeholders_from(a, k) =~= Seq::<Seq<char>>::empty());
        assert(Seq::<Seq<char>>::empty() + placeholders_from(b, 0) =~= placeholders_from(b, 0));
    } else {
        assert(s[k] == a[k]);
        if k + 2 <= la {
            assert(s[k + 1] == a[k + 1]);
            lemma_run_stops_at_line_feed(a, b, k + 2);
            lemma_word_run_bounds(a, k + 2);
            let e = word_run_end(a, k + 2);
            if e < la {
                assert(s[e] == a[e]);
            } else {
                assert(s[e] == '\n');
            }
            if e + 1 < la {
                assert(s[e + 1] == a[e + 1]);
            } else if e + 1 == la {
                assert(s[e + 1] == '\n');
            }
            assert(placeholder_at(s, k) == placeholder_at(a, k));
            if placeholder_at(a, k) {
                assert(placeholder_name(s, k) =~= placeholder_name(a, k));
                lemma_placeholders_across_line_feed(a, b, placeholder_end(a, k));
                assert(placeholders_from(s, k) =~= placeholders_from(a, k) + placeholders_from(b, 0));
            } else {
                lemma_placeholders_across_line_feed(a, b, k + 1);
                assert(placeholders_from(s, k) =~= placeholders_from(a, k) + placeholders_from(b, 0));
            }
        } else {
            if k + 1 == la {
                assert(s[k + 1] == '\n');
            }
            assert(!placeholder_at(s, k));
            assert(!placeholder_at(a, k));
            lemma_placeholders_across_line_feed(a, b, k + 1);
        }
    }
}

/// A line feed neither hides nor joins placeholders: the variables of two
/// parts of a template joined by a line feed are those of the first part
/// followed by those of the second, so a placeholder on any line of a
/// template is among its variables.
pub proof fn law_line_feed_splits_variables(a: Seq<char>, b: Seq<char>)
    ensures
        template_variables(a + seq!['\n'] + b) == template_variables(a) + template_variables(b),
{
    lemma_placeholders_across_line_feed(a, b, 0);
}

} // verus!
