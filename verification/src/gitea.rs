//! The Gitea integration: its settings, the URLs and headers of its API
//! calls, and the `.env` line that stores its server URL.

use vstd::prelude::*;
use crate::api::{header_views, valid_header_value};
use crate::errors::{ErrorStatus, HandlerError};
use crate::decimal::parse_u64_chars;
use crate::text::{
    opt_view,
    chars_of, copy_range, lemma_skip_while_bounds, push_char, skip_while_from, string_of_range,
};

verus! {

/// Gitea configuration.
#[derive(Debug)]
pub struct GiteaConfig {
    /// Gitea server URL
    pub base_url: String,
    /// Gitea API token
    pub token: String,
    /// Default organization/user
    pub default_owner: Option<String>,
}

/// The Gitea server used when none is configured.
pub open spec fn default_gitea_url() -> Seq<char> {
    "https://gitea.com"@
}

impl Default for GiteaConfig {
    fn default() -> (r: Self)
        ensures
            r.base_url@ == default_gitea_url(),
            r.token@ == Seq::<char>::empty(),
            r.default_owner is None,
    {
        GiteaConfig {
            base_url: String::from_str("https://gitea.com"),
            token: String::new(),
            default_owner: None,
        }
    }
}

/// The value of an optional setting, or a default.
pub open spec fn setting_or(v: Option<String>, default: Seq<char>) -> Seq<char> {
    match v {
        Some(s) => s@,
        None => default,
    }
}

/// The server URL and token that the values of `GITEA_URL` and `GITEA_TOKEN`
/// give (`None` where a variable is unset).
pub fn gitea_settings(url: Option<String>, token: Option<String>) -> (r: (String, String))
    ensures
        r.0@ == setting_or(url, default_gitea_url()),
        r.1@ == setting_or(token, Seq::<char>::empty()),
{
    let base = match url {
        Some(u) => u,
        None => String::from_str("https://gitea.com"),
    };
    let t = match token {
        Some(t) => t,
        None => String::new(),
    };
    (base, t)
}

/// What the Gitea configuration endpoint shows: the server URL, whether a
/// token is set (never the token itself), and the default owner.
#[derive(Debug)]
pub struct GiteaConfigStatus {
    pub base_url: String,
    pub token_set: bool,
    pub default_owner: Option<String>,
}

/// The URL that lists the repositories of the authenticated user.
pub fn user_repos_url(base: &str) -> (r: String)
    ensures
        r@ == base@ + "/api/v1/user/repos"@,
{
    let mut r = String::from_str(base);
    r.append("/api/v1/user/repos");
    r
}

/// The URL of the collection `kind` (`issues` or `pulls`) of a repository.
pub open spec fn repo_url(base: Seq<char>, owner: Seq<char>, repo: Seq<char>, kind: Seq<char>) -> Seq<
    char,
> {
    base + "/api/v1/repos/"@ + owner + "/"@ + repo + "/"@ + kind
}

fn repo_collection_url(base: &str, owner: &str, repo: &str, kind: &str) -> (r: String)
    ensures
        r@ == repo_url(base@, owner@, repo@, kind@),
{
    let mut r = String::from_str(base);
    r.append("/api/v1/repos/");
    r.append(owner);
    r.append("/");
    r.append(repo);
    r.append("/");
    r.append(kind);
    r
}

/// The URL of the issues of a repository.
pub fn repo_issues_url(base: &str, owner: &str, repo: &str) -> (r: String)
    ensures
        r@ == repo_url(base@, owner@, repo@, "issues"@),
{
    repo_collection_url(base, owner, repo, "issues")
}

/// The URL of the pull requests of a repository.
pub fn repo_pulls_url(base: &str, owner: &str, repo: &str) -> (r: String)
    ensures
        r@ == repo_url(base@, owner@, repo@, "pulls"@),
{
    repo_collection_url(base, owner, repo, "pulls")
}

/// The `Authorization` header that carries a Gitea token.
pub fn token_header(token: &str) -> (r: (String, String))
    requires
        valid_header_value("token "@ + token@),
    ensures
        r.0@ == "Authorization"@,
        r.1@ == "token "@ + token@,
{
    let mut v = String::from_str("token ");
    v.append(token);
    (String::from_str("Authorization"), v)
}

/// The headers of a Gitea read: the token where one is set, else none.
pub fn gitea_read_headers(token: &str) -> (r: Vec<(String, String)>)
    requires
        token@.len() > 0 ==> valid_header_value("token "@ + token@),
    ensures
        token@.len() == 0 ==> r@.len() == 0,
        token@.len() > 0 ==> header_views(r@) == seq![("Authorization"@, "token "@ + token@)],
{
    let mut h: Vec<(String, String)> = Vec::new();
    if !token.is_empty() {
        h.push(token_header(token));
        assert(header_views(h@) =~= seq![("Authorization"@, "token "@ + token@)]);
    }
    h
}

/// The text that refuses an issue to be created without a token.
pub open spec fn token_required() -> Seq<char> {
    "Gitea token is required"@
}

/// The headers of a Gitea write (creating an issue): the token and the JSON
/// content type; without a token the request is refused as unauthorized.
pub fn gitea_write_headers(token: &str) -> (r: Result<Vec<(String, String)>, HandlerError>)
    requires
        token@.len() > 0 ==> valid_header_value("token "@ + token@),
    ensures
        token@.len() == 0 ==> (r matches Err(e) && e.status == ErrorStatus::Unauthorized
            && e.message@ == token_required()),
        token@.len() > 0 ==> (r matches Ok(h) && header_views(h@) == seq![
            ("Authorization"@, "token "@ + token@),
            ("Content-Type"@, "application/json"@),
        ]),
{
    if token.is_empty() {
        return Err(
            HandlerError {
                status: ErrorStatus::Unauthorized,
                message: String::from_str("Gitea token is required"),
            },
        );
    }
    let h = vec![
        token_header(token),
        (String::from_str("Content-Type"), String::from_str("application/json")),
    ];
    assert(header_views(h@) =~= seq![
        ("Authorization"@, "token "@ + token@),
        ("Content-Type"@, "application/json"@),
    ]);
    Ok(h)
}

/// Whether `pat` occurs in `s`.
pub open spec fn contains_text(s: Seq<char>, pat: Seq<char>) -> bool {
    exists|i: int| 0 <= i && i + pat.len() <= s.len() && #[trigger] s.subrange(i, i + pat.len()) == pat
}

/// Whether `pat` occurs in `s` (`str::contains`).
pub fn contains(s: &str, pat: &str) -> (r: bool)
    ensures
        r == contains_text(s@, pat@),
{
    let cs = chars_of(s);
    let ps = chars_of(pat);
    let n = cs.len();
    let m = ps.len();
    if m > n {
        assert forall|i: int| 0 <= i && i + m <= n implies #[trigger] cs@.subrange(i, i + m) != ps@ by {}
        return false;
    }
    let mut i: usize = 0;
    while i <= n - m
        invariant
            m <= n,
            n == cs@.len(),
            m == ps@.len(),
            cs@ == s@,
            ps@ == pat@,
            forall|k: int| 0 <= k < i ==> #[trigger] cs@.subrange(k, k + m) != ps@,
        decreases n - i,
    {
        let mut j: usize = 0;
        while j < m && cs[i + j] == ps[j]
            invariant
                i + m <= n,
                n == cs@.len(),
                m == ps@.len(),
                j <= m,
                forall|l: int| 0 <= l < j ==> cs@[i + l] == ps@[l],
            decreases m - j,
        {
            j = j + 1;
        }
        if j == m {
            assert(cs@.subrange(i as int, i + m) =~= ps@);
            return true;
        }
        assert(cs@.subrange(i as int, i + m)[j as int] != ps@[j as int]);
        i = i + 1;
    }
    assert forall|k: int| 0 <= k && k + m <= n implies #[trigger] cs@.subrange(k, k + m) != ps@ by {
        assert(k < i);
    }
    false
}

/// The first index at or after `i` where `pat` occurs in `s`, if any.
pub open spec fn find_text_from(s: Seq<char>, pat: Seq<char>, i: int) -> Option<int>
    decreases s.len() - i,
{
    if i < 0 || i + pat.len() > s.len() {
        None
    } else if s.subrange(i, i + pat.len()) == pat {
        Some(i)
    } else if i >= s.len() {
        None
    } else {
        find_text_from(s, pat, i + 1)
    }
}

/// The key that starts the `.env` line of the Gitea server URL.
pub open spec fn url_key() -> Seq<char> {
    "GITEA_URL="@
}

/// The span `[start, end)` of the first match of the pattern `GITEA_URL=.*\n`
/// in `s`: from the first `GITEA_URL=` through the first line feed after it
/// (`.` matches any character but a line feed). There is no match where the
/// first `GITEA_URL=` has no line feed after it.
pub open spec fn url_line_span(s: Seq<char>) -> Option<(int, int)> {
    match find_text_from(s, url_key(), 0) {
        Some(k) => {
            let e = crate::text::next_newline(s, k + url_key().len());
            if e < s.len() {
                Some((k, e + 1))
            } else {
                None
            }
        },
        None => None,
    }
}

/// Whether `c` may stand in an unbraced `$name` reference of a replacement.
pub open spec fn is_reference_char(c: char) -> bool {
    ('0' <= c <= '9') || ('a' <= c <= 'z') || ('A' <= c <= 'Z') || c == '_'
}

/// The class of [`is_reference_char`], for scanning.
pub open spec fn reference_chars() -> spec_fn(char) -> bool {
    |c: char| is_reference_char(c)
}

/// The first index at or after `i` that holds `}`, or the length.
pub open spec fn closing_brace_from(rep: Seq<char>, i: int) -> int
    decreases rep.len() - i,
{
    if i < 0 || i >= rep.len() {
        rep.len() as int
    } else if rep[i] == '}' {
        i
    } else {
        closing_brace_from(rep, i + 1)
    }
}

pub proof fn lemma_closing_brace_bounds(rep: Seq<char>, i: int)
    requires
        0 <= i <= rep.len(),
    ensures
        i <= closing_brace_from(rep, i) <= rep.len(),
        closing_brace_from(rep, i) < rep.len() ==> rep[closing_brace_from(rep, i)] == '}',
    decreases rep.len() - i,
{
    if i < rep.len() && rep[i] != '}' {
        lemma_closing_brace_bounds(rep, i + 1);
    }
}

/// What a reference to the group `name` inserts, where the only group is the
/// whole match: the match where `name` reads as the group index 0 (as
/// `usize::from_str` reads it), else nothing.
pub open spec fn group_text(name: Seq<char>, whole: Seq<char>) -> Seq<char> {
    if crate::decimal::parse_u64(name) == Some(0u64) {
        whole
    } else {
        Seq::<char>::empty()
    }
}

/// The replacement text from index `i` on with its references expanded, as
/// the `regex` crate expands them for a match `whole` of a pattern whose only
/// group is the whole match: `$$` is a `$`; `${name}` and `$name` (name of
/// letters, digits and `_`) insert the group; a `$` that starts no reference
/// stays.
pub open spec fn expand_from(rep: Seq<char>, whole: Seq<char>, i: int) -> Seq<char>
    decreases rep.len() - i,
{
    if i < 0 || i >= rep.len() {
        Seq::<char>::empty()
    } else if rep[i] != '$' {
        seq![rep[i]] + expand_from(rep, whole, i + 1)
    } else if i + 1 >= rep.len() {
        seq!['$']
    } else if rep[i + 1] == '$' {
        seq!['$'] + expand_from(rep, whole, i + 2)
    } else if rep[i + 1] == '{' {
        let c = closing_brace_from(rep, i + 2);
        proof {
            lemma_closing_brace_bounds(rep, i + 2);
        }
        if c >= rep.len() {
            seq!['$'] + expand_from(rep, whole, i + 1)
        } else {
            group_text(rep.subrange(i + 2, c), whole) + expand_from(rep, whole, c + 1)
        }
    } else {
        let e = crate::text::skip_while_from(rep, reference_chars(), i + 1);
        proof {
            crate::text::lemma_skip_while_bounds(rep, reference_chars(), i + 1);
        }
        if e == i + 1 {
            seq!['$'] + expand_from(rep, whole, i + 1)
        } else {
            group_text(rep.subrange(i + 1, e), whole) + expand_from(rep, whole, e)
        }
    }
}

/// `s` with the first match of `GITEA_URL=.*\n` replaced by `rep`, its
/// references expanded (what `regex::Regex::replace` gives); `s` itself where
/// there is no match.
pub open spec fn url_line_replaced(s: Seq<char>, rep: Seq<char>) -> Seq<char> {
    match url_line_span(s) {
        Some((k, e)) => s.take(k) + expand_from(rep, s.subrange(k, e), 0) + s.skip(e),
        None => s,
    }
}

/// The first index at or after `from` where `pat` occurs in `cs`, if any.
fn find_text(cs: &[char], pat: &[char], from: usize) -> (r: Option<usize>)
    requires
        from <= cs@.len(),
    ensures
        match find_text_from(cs@, pat@, from as int) {
            Some(k) => r == Some(k as usize),
            None => r is None,
        },
{
    let n = cs.len();
    let m = pat.len();
    if m > n {
        return None;
    }
    let mut i = from;
    while i <= n - m
        invariant
            from <= i,
            m <= n,
            n == cs@.len(),
            m == pat@.len(),
            find_text_from(cs@, pat@, from as int) == find_text_from(cs@, pat@, i as int),
        decreases n - i,
    {
        let mut j: usize = 0;
        while j < m && cs[i + j] == pat[j]
            invariant
                i + m <= n,
                n == cs@.len(),
                m == pat@.len(),
                j <= m,
                forall|l: int| 0 <= l < j ==> cs@[i + l] == pat@[l],
            decreases m - j,
        {
            j = j + 1;
        }
        if j == m {
            assert(cs@.subrange(i as int, i + m) =~= pat@);
            return Some(i);
        }
        assert(cs@.subrange(i as int, i + m)[j as int] != pat@[j as int]);
        if i == n {
            return None;
        }
        i = i + 1;
    }
    None
}

/// `rep` with its references expanded for the match `whole`.
fn expand_replacement(rep: &[char], whole: &str) -> (r: String)
    ensures
        r@ == expand_from(rep@, whole@, 0),
{
    let n = rep.len();
    let mut out = String::new();
    let mut i: usize = 0;
    while i < n
        invariant
            n == rep@.len(),
            i <= n,
            out@ + expand_from(rep@, whole@, i as int) == expand_from(rep@, whole@, 0),
        decreases n - i,
    {
        let ghost before = out@;
        if rep[i] != '$' {
            push_char(&mut out, rep[i]);
            assert(out@ + expand_from(rep@, whole@, i + 1) =~= before + expand_from(rep@, whole@, i as int));
            i = i + 1;
        } else if i + 1 >= n {
            push_char(&mut out, '$');
            assert(out@ + expand_from(rep@, whole@, n as int) =~= before + expand_from(rep@, whole@, i as int));
            i = n;
        } else if rep[i + 1] == '$' {
            push_char(&mut out, '$');
            assert(out@ + expand_from(rep@, whole@, i + 2) =~= before + expand_from(rep@, whole@, i as int));
            i = i + 2;
        } else if rep[i + 1] == '{' {
            proof {
                lemma_closing_brace_bounds(rep@, i + 2);
            }
            let mut c = i + 2;
            while c < n && rep[c] != '}'
                invariant
                    i + 2 <= c <= n,
                    n == rep@.len(),
                    closing_brace_from(rep@, i + 2) == closing_brace_from(rep@, c as int),
                decreases n - c,
            {
                c = c + 1;
            }
            if c >= n {
                push_char(&mut out, '$');
                assert(out@ + expand_from(rep@, whole@, i + 1) =~= before + expand_from(rep@, whole@, i as int));
                i = i + 1;
            } else {
                let name = copy_range(rep, i + 2, c);
                if parse_u64_chars(&name) == Some(0u64) {
                    out.append(whole);
                }
                assert(out@ + expand_from(rep@, whole@, c + 1) =~= before + expand_from(rep@, whole@, i as int));
                i = c + 1;
            }
        } else {
            let ghost p = reference_chars();
            proof {
                lemma_skip_while_bounds(rep@, p, i + 1);
            }
            let mut e = i + 1;
            while e < n && is_reference(rep[e])
                invariant
                    i + 1 <= e <= n,
                    n == rep@.len(),
                    p == reference_chars(),
                    skip_while_from(rep@, p, i + 1) == skip_while_from(rep@, p, e as int),
                decreases n - e,
            {
                assert(p(rep@[e as int]));
                e = e + 1;
            }
            proof {
                assert(e < n ==> !p(rep@[e as int]));
                assert(skip_while_from(rep@, p, e as int) == e);
            }
            if e == i + 1 {
                push_char(&mut out, '$');
                assert(out@ + expand_from(rep@, whole@, i + 1) =~= before + expand_from(rep@, whole@, i as int));
                i = i + 1;
            } else {
                let name = copy_range(rep, i + 1, e);
                if parse_u64_chars(&name) == Some(0u64) {
                    out.append(whole);
                }
                assert(out@ + expand_from(rep@, whole@, e as int) =~= before + expand_from(rep@, whole@, i as int));
                i = e;
            }
        }
    }
    assert(out@ =~= expand_from(rep@, whole@, 0));
    out
}

fn is_reference(c: char) -> (r: bool)
    ensures
        r == is_reference_char(c),
{
    ('0' <= c && c <= '9') || ('a' <= c && c <= 'z') || ('A' <= c && c <= 'Z') || c == '_'
}

/// `content` with its first `GITEA_URL=` line (through its line feed)
/// replaced by `replacement`, references in it expanded as `regex` expands
/// them; `content` itself where that line has no line feed.
pub fn replace_url_line(content: &str, replacement: &str) -> (r: String)
    ensures
        r@ == url_line_replaced(content@, replacement@),
{
    let cs = chars_of(content);
    let key = chars_of("GITEA_URL=");
    let n = cs.len();
    match find_text(&cs, &key, 0) {
        None => String::from_str(content),
        Some(k) => {
            proof {
                lemma_find_text_bounds(cs@, key@, 0);
                crate::text::lemma_next_newline_bounds(cs@, k + key@.len());
            }
            let mut e = k + key.len();
            while e < n && cs[e] != '\n'
                invariant
                    k + key@.len() <= e <= n,
                    n == cs@.len(),
                    crate::text::next_newline(cs@, k + key@.len()) == crate::text::next_newline(
                        cs@,
                        e as int,
                    ),
                decreases n - e,
            {
                e = e + 1;
            }
            if e >= n {
                return String::from_str(content);
            }
            let whole = string_of_range(&cs, k, e + 1);
            let rep = chars_of(replacement);
            let mid = expand_replacement(&rep, whole.as_str());
            let mut r = string_of_range(&cs, 0, k);
            r.append(mid.as_str());
            let tail = string_of_range(&cs, e + 1, n);
            r.append(tail.as_str());
            proof {
                assert(cs@.subrange(0, k as int) =~= cs@.take(k as int));
                assert(cs@.subrange(e + 1, n as int) =~= cs@.skip(e + 1));
            }
            r
        },
    }
}

proof fn lemma_find_text_bounds(s: Seq<char>, pat: Seq<char>, i: int)
    requires
        0 <= i,
    ensures
        find_text_from(s, pat, i) matches Some(k) ==> i <= k && k + pat.len() <= s.len() && s.subrange(
            k,
            k + pat.len(),
        ) == pat,
    decreases s.len() - i,
{
    if !(i + pat.len() > s.len()) && s.subrange(i, i + pat.len()) != pat && i < s.len() {
        lemma_find_text_bounds(s, pat, i + 1);
    }
}

/// The `.env` line that stores the Gitea server URL.
pub open spec fn gitea_url_line(base_url: Seq<char>) -> Seq<char> {
    "GITEA_URL="@ + base_url + "\n"@
}

/// The `.env` contents with the Gitea server URL set to `base_url`: where the
/// file already mentions `GITEA_URL=`, its first `GITEA_URL=` line is
/// replaced (as the pattern `GITEA_URL=.*\n` is replaced), else the line is
/// appended.
pub fn env_with_gitea_url(content: &str, base_url: &str) -> (r: String)
    ensures
        contains_text(content@, "GITEA_URL="@) ==> r@ == url_line_replaced(
            content@,
            gitea_url_line(base_url@),
        ),
        !contains_text(content@, "GITEA_URL="@) ==> r@ == content@ + gitea_url_line(base_url@),
{
    let mut line = String::from_str("GITEA_URL=");
    line.append(base_url);
    line.append("\n");
    if contains(content, "GITEA_URL=") {
        replace_url_line(content, line.as_str())
    } else {
        let mut r = String::from_str(content);
        r.append(line.as_str());
        assert(r@ =~= content@ + gitea_url_line(base_url@));
        r
    }
}


proof fn lemma_expand_plain(rep: Seq<char>, whole: Seq<char>, i: int)
    requires
        0 <= i <= rep.len(),
        forall|j: int| 0 <= j < rep.len() ==> #[trigger] rep[j] != '$',
    ensures
        expand_from(rep, whole, i) == rep.skip(i),
    decreases rep.len() - i,
{
    if i < rep.len() {
        lemma_expand_plain(rep, whole, i + 1);
        assert(rep.skip(i) =~= seq![rep[i]] + rep.skip(i + 1));
    } else {
        assert(rep.skip(i) =~= Seq::<char>::empty());
    }
}

/// A replacement without `$` goes in as it is: the first `GITEA_URL=` line,
/// through its line feed, gives way to it and the rest of the file stays;
/// a file whose first `GITEA_URL=` has no line feed after it stays as it is.
pub proof fn law_plain_replacement_is_literal(s: Seq<char>, rep: Seq<char>)
    requires
        forall|j: int| 0 <= j < rep.len() ==> #[trigger] rep[j] != '$',
    ensures
        url_line_replaced(s, rep) == match url_line_span(s) {
            Some((k, e)) => s.take(k) + rep + s.skip(e),
            None => s,
        },
{
    match url_line_span(s) {
        Some((k, e)) => {
            lemma_expand_plain(rep, s.subrange(k, e), 0);
            assert(rep.skip(0) =~= rep);
        },
        None => {},
    }
}


/// The Gitea settings that the service holds: set when the configuration
/// endpoint saves a configuration, shown by the status endpoint, and used by
/// every Gitea call.
#[derive(Debug)]
pub struct GiteaState {
    pub config: GiteaConfig,
}

/// A call to the Gitea API: where it goes and its headers.
#[derive(Debug)]
pub struct GiteaCall {
    pub url: String,
    pub headers: Vec<(String, String)>,
}

/// What the status endpoint shows of `c`: the server URL, whether a token is
/// set, and the default owner.
pub open spec fn status_view(c: GiteaConfig) -> (Seq<char>, bool, Option<Seq<char>>) {
    (c.base_url@, c.token@.len() > 0, opt_view(c.default_owner))
}

/// The headers of a Gitea read with `token`: the token where one is set.
pub open spec fn read_headers(token: Seq<char>) -> Seq<(Seq<char>, Seq<char>)> {
    if token.len() == 0 {
        seq![]
    } else {
        seq![("Authorization"@, "token "@ + token)]
    }
}

/// The URL and headers of the call that lists the repositories of the user
/// whose token `c` holds (the token header is always sent).
pub open spec fn repos_request(c: GiteaConfig) -> (Seq<char>, Seq<(Seq<char>, Seq<char>)>) {
    (c.base_url@ + "/api/v1/user/repos"@, seq![("Authorization"@, "token "@ + c.token@)])
}

/// The URL and headers of the call that reads the collection `kind` of a
/// repository with the settings `c`.
pub open spec fn read_request(c: GiteaConfig, owner: Seq<char>, repo: Seq<char>, kind: Seq<char>) -> (
    Seq<char>,
    Seq<(Seq<char>, Seq<char>)>,
) {
    (repo_url(c.base_url@, owner, repo, kind), read_headers(c.token@))
}

/// The URL and headers of the call that creates an issue with the settings
/// `c`, which hold a token.
pub open spec fn write_request(c: GiteaConfig, owner: Seq<char>, repo: Seq<char>) -> (
    Seq<char>,
    Seq<(Seq<char>, Seq<char>)>,
) {
    (
        repo_url(c.base_url@, owner, repo, "issues"@),
        seq![("Authorization"@, "token "@ + c.token@), ("Content-Type"@, "application/json"@)],
    )
}

/// The URL and headers of a call, as characters.
pub open spec fn call_view(call: GiteaCall) -> (Seq<char>, Seq<(Seq<char>, Seq<char>)>) {
    (call.url@, header_views(call.headers@))
}

impl GiteaState {
    /// The settings before any is saved: the default configuration.
    pub fn new() -> (r: GiteaState)
        ensures
            r.config.base_url@ == default_gitea_url(),
            r.config.token@ == Seq::<char>::empty(),
            r.config.default_owner is None,
    {
        GiteaState { config: GiteaConfig::default() }
    }

    /// The settings that the values of `GITEA_URL`, `GITEA_TOKEN` and
    /// `GITEA_DEFAULT_OWNER` give (`None` where a variable is unset).
    pub fn from_env(url: Option<String>, token: Option<String>, default_owner: Option<String>) -> (r:
        GiteaState)
        ensures
            r.config.base_url@ == setting_or(url, default_gitea_url()),
            r.config.token@ == setting_or(token, Seq::<char>::empty()),
            r.config.default_owner == default_owner,
    {
        let (base_url, token) = gitea_settings(url, token);
        GiteaState { config: GiteaConfig { base_url, token, default_owner } }
    }

    /// Saves `config`: the settings are now `config`.
    pub fn save(&mut self, config: GiteaConfig)
        ensures
            final(self).config == config,
    {
        self.config = config;
    }

    /// The settings as the status endpoint shows them (never the token).
    pub fn status(&self) -> (r: GiteaConfigStatus)
        ensures
            (r.base_url@, r.token_set, opt_view(r.default_owner)) == status_view(self.config),
    {
        let owner = match &self.config.default_owner {
            Some(o) => Some(o.clone()),
            None => None,
        };
        GiteaConfigStatus {
            base_url: self.config.base_url.clone(),
            token_set: !self.config.token.as_str().is_empty(),
            default_owner: owner,
        }
    }

    /// The call that lists the repositories of the user (the token must make
    /// a valid header value; the service panics where it does not).
    pub fn repos_call(&self) -> (r: GiteaCall)
        requires
            valid_header_value("token "@ + self.config.token@),
        ensures
            call_view(r) == repos_request(self.config),
    {
        let h = vec![token_header(self.config.token.as_str())];
        assert(header_views(h@) =~= seq![("Authorization"@, "token "@ + self.config.token@)]);
        GiteaCall { url: user_repos_url(self.config.base_url.as_str()), headers: h }
    }

    /// The call that lists the issues of a repository.
    pub fn issues_call(&self, owner: &str, repo: &str) -> (r: GiteaCall)
        requires
            self.config.token@.len() > 0 ==> valid_header_value("token "@ + self.config.token@),
        ensures
            call_view(r) == read_request(self.config, owner@, repo@, "issues"@),
    {
        let h = gitea_read_headers(self.config.token.as_str());
        assert(header_views(h@) =~= read_headers(self.config.token@));
        GiteaCall { url: repo_issues_url(self.config.base_url.as_str(), owner, repo), headers: h }
    }

    /// The call that lists the pull requests of a repository.
    pub fn pulls_call(&self, owner: &str, repo: &str) -> (r: GiteaCall)
        requires
            self.config.token@.len() > 0 ==> valid_header_value("token "@ + self.config.token@),
        ensures
            call_view(r) == read_request(self.config, owner@, repo@, "pulls"@),
    {
        let h = gitea_read_headers(self.config.token.as_str());
        assert(header_views(h@) =~= read_headers(self.config.token@));
        GiteaCall { url: repo_pulls_url(self.config.base_url.as_str(), owner, repo), headers: h }
    }

    /// The call that creates an issue in a repository; without a token the
    /// request is refused as unauthorized.
    pub fn create_issue_call(&self, owner: &str, repo: &str) -> (r: Result<GiteaCall, HandlerError>)
        requires
            self.config.token@.len() > 0 ==> valid_header_value("token "@ + self.config.token@),
        ensures
            self.config.token@.len() == 0 ==> (r matches Err(e) && e.status
                == ErrorStatus::Unauthorized && e.message@ == token_required()),
            self.config.token@.len() > 0 ==> (r matches Ok(call) && call_view(call)
                == write_request(self.config, owner@, repo@)),
    {
        match gitea_write_headers(self.config.token.as_str()) {
            Err(e) => Err(e),
            Ok(h) => Ok(
                GiteaCall { url: repo_issues_url(self.config.base_url.as_str(), owner, repo), headers: h },
            ),
        }
    }
}

/// What the Gitea configuration endpoint saves is what the status endpoint
/// shows afterwards and what every Gitea call then uses: its server URL, its
/// token (shown only as set or not) and its default owner.
pub proof fn law_saved_gitea_settings_are_used(
    after: GiteaState,
    saved: GiteaConfig,
    owner: Seq<char>,
    repo: Seq<char>,
)
    requires
        after.config == saved,
    ensures
        status_view(after.config) == (
            saved.base_url@,
            saved.token@.len() > 0,
            opt_view(saved.default_owner),
        ),
        repos_request(after.config) == (
            saved.base_url@ + "/api/v1/user/repos"@,
            seq![("Authorization"@, "token "@ + saved.token@)],
        ),
        read_request(after.config, owner, repo, "issues"@) == (
            saved.base_url@ + "/api/v1/repos/"@ + owner + "/"@ + repo + "/issues"@,
            read_headers(saved.token@),
        ),
        read_request(after.config, owner, repo, "pulls"@) == (
            saved.base_url@ + "/api/v1/repos/"@ + owner + "/"@ + repo + "/pulls"@,
            read_headers(saved.token@),
        ),
        saved.token@.len() > 0 ==> write_request(after.config, owner, repo) == (
            saved.base_url@ + "/api/v1/repos/"@ + owner + "/"@ + repo + "/issues"@,
            seq![("Authorization"@, "token "@ + saved.token@), ("Content-Type"@, "application/json"@)],
        ),
{
    reveal_strlit("/");
    reveal_strlit("issues");
    reveal_strlit("pulls");
    reveal_strlit("/issues");
    reveal_strlit("/pulls");
    let base = saved.base_url@ + "/api/v1/repos/"@ + owner + "/"@ + repo;
    assert(base + "/"@ + "issues"@ =~= base + "/issues"@);
    assert(base + "/"@ + "pulls"@ =~= base + "/pulls"@);
}

} // verus!
