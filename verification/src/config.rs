//! Configuration of the OpenAI-compatible API: defaults, reading it from
//! environment values, writing it as a `.env` file, and the masked copy that
//! is shown to clients.

use vstd::prelude::*;
use vstd::utf8::*;
use vstd::string::StringSliceAdditionalSpecFns;
use crate::decimal::{decimal, parse_u64, parse_u64_chars, push_decimal};
use crate::text::{chars_of, lemma_next_newline_bounds, next_newline, opt_view};
use crate::decimal::{law_decimal_reads_back, lemma_decimal_digits};

verus! {

broadcast use {
    encode_utf8_valid_utf8,
    is_char_boundary_iff_not_is_continuation_byte,
    is_char_boundary_start_end_of_seq,
};

/// Application configuration.
#[derive(Debug)]
pub struct AppConfig {
    /// OpenAI-compatible API endpoint
    pub api_endpoint: String,
    /// API key for authentication
    pub api_key: String,
    /// Model name to use
    pub model_name: String,
    /// Optional organization ID
    pub organization_id: Option<String>,
    /// Request timeout in seconds
    pub timeout_secs: u64,
}

/// The timeout, in seconds, that a configuration has when none is given.
pub fn default_timeout() -> (r: u64)
    ensures
        r == 60,
{
    60
}

/// The endpoint used when none is configured.
pub open spec fn default_endpoint() -> Seq<char> {
    "https://api.openai.com/v1"@
}

/// The model used when none is configured.
pub open spec fn default_model() -> Seq<char> {
    "gpt-3.5-turbo"@
}

/// Whether `c` is the default configuration.
pub open spec fn is_default_config(c: AppConfig) -> bool {
    &&& c.api_endpoint@ == default_endpoint()
    &&& c.api_key@ == Seq::<char>::empty()
    &&& c.model_name@ == default_model()
    &&& c.organization_id is None
    &&& c.timeout_secs == 60
}

impl Default for AppConfig {
    fn default() -> (r: Self)
        ensures
            is_default_config(r),
    {
        AppConfig {
            api_endpoint: String::from_str("https://api.openai.com/v1"),
            api_key: String::new(),
            model_name: String::from_str("gpt-3.5-turbo"),
            organization_id: None,
            timeout_secs: default_timeout(),
        }
    }
}

/// Whether two configurations hold the same values.
pub open spec fn same_config(a: AppConfig, b: AppConfig) -> bool {
    &&& a.api_endpoint@ == b.api_endpoint@
    &&& a.api_key@ == b.api_key@
    &&& a.model_name@ == b.model_name@
    &&& a.organization_id == b.organization_id
    &&& a.timeout_secs == b.timeout_secs
}

/// The value of an optional environment variable, or a default.
pub open spec fn value_or(v: Option<Seq<char>>, default: Seq<char>) -> Seq<char> {
    match v {
        Some(s) => s,
        None => default,
    }
}

/// The timeout that a `TIMEOUT_SECS` value gives: its number where
/// `u64::from_str` reads one, else 60.
pub open spec fn timeout_from(v: Option<Seq<char>>) -> u64 {
    match v {
        Some(s) => match parse_u64(s) {
            Some(n) => n,
            None => 60,
        },
        None => 60,
    }
}

/// The configuration that the environment variables `API_ENDPOINT`,
/// `API_KEY`, `MODEL_NAME`, `ORGANIZATION_ID` and `TIMEOUT_SECS` give, each
/// passed as its value or `None` where it is unset (or not Unicode).
pub fn config_from_env(
    api_endpoint: Option<String>,
    api_key: Option<String>,
    model_name: Option<String>,
    organization_id: Option<String>,
    timeout_secs: Option<String>,
) -> (r: AppConfig)
    ensures
        r.api_endpoint@ == value_or(opt_view(api_endpoint), default_endpoint()),
        r.api_key@ == value_or(opt_view(api_key), Seq::<char>::empty()),
        r.model_name@ == value_or(opt_view(model_name), default_model()),
        r.organization_id == organization_id,
        r.timeout_secs == timeout_from(opt_view(timeout_secs)),
{
    let api_endpoint = match api_endpoint {
        Some(s) => s,
        None => String::from_str("https://api.openai.com/v1"),
    };
    let api_key = match api_key {
        Some(s) => s,
        None => String::new(),
    };
    let model_name = match model_name {
        Some(s) => s,
        None => String::from_str("gpt-3.5-turbo"),
    };
    let timeout = match &timeout_secs {
        Some(s) => {
            let cs = chars_of(s.as_str());
            match parse_u64_chars(&cs) {
                Some(n) => n,
                None => default_timeout(),
            }
        },
        None => default_timeout(),
    };
    AppConfig { api_endpoint, api_key, model_name, organization_id, timeout_secs: timeout }
}

/// The text of the `.env` file that stores `c`: one `NAME=value` line per
/// setting, the organization line only where one is set.
pub open spec fn env_file_text(c: AppConfig) -> Seq<char> {
    "API_ENDPOINT="@ + c.api_endpoint@ + "\n"@ + "API_KEY="@ + c.api_key@ + "\n"@ + "MODEL_NAME="@
        + c.model_name@ + "\n"@ + match c.organization_id {
        Some(o) => "ORGANIZATION_ID="@ + o@ + "\n"@,
        None => Seq::<char>::empty(),
    } + "TIMEOUT_SECS="@ + decimal(c.timeout_secs as nat) + "\n"@
}

/// The contents of the `.env` file that the configuration is saved to.
pub fn env_file_contents(c: &AppConfig) -> (r: String)
    ensures
        r@ == env_file_text(*c),
{
    let mut r = String::from_str("API_ENDPOINT=");
    r.append(c.api_endpoint.as_str());
    r.append("\n");
    r.append("API_KEY=");
    r.append(c.api_key.as_str());
    r.append("\n");
    r.append("MODEL_NAME=");
    r.append(c.model_name.as_str());
    r.append("\n");
    match &c.organization_id {
        Some(o) => {
            r.append("ORGANIZATION_ID=");
            r.append(o.as_str());
            r.append("\n");
        },
        None => {},
    }
    r.append("TIMEOUT_SECS=");
    push_decimal(&mut r, c.timeout_secs);
    r.append("\n");
    assert(r@ =~= env_file_text(*c));
    r
}

/// The bytes of a masked API key: a key of more than 8 bytes shows its first
/// and last 4 bytes around `...`; a shorter non-empty key becomes `****`; an
/// empty key stays empty.
pub open spec fn masked_key_bytes(b: Seq<u8>) -> Seq<u8> {
    if b.len() == 0 {
        b
    } else if b.len() > 8 {
        b.take(4) + seq![46u8, 46u8, 46u8] + b.skip(b.len() - 4)
    } else {
        seq![42u8, 42u8, 42u8, 42u8]
    }
}

/// Whether a key can be masked: byte slicing at 4 and at 4 from the end
/// falls on character boundaries (elsewhere the byte slicing panics). The
/// byte length of any string in memory fits in a `usize`.
pub open spec fn maskable_key(key: Seq<char>) -> bool {
    let b = encode_utf8(key);
    &&& b.len() <= usize::MAX
    &&& b.len() > 8 ==> is_char_boundary(b, 4) && is_char_boundary(b, b.len() - 4)
}

/// UTF-8 encoding distributes over concatenation.
pub proof fn lemma_encode_utf8_concat(a: Seq<char>, b: Seq<char>)
    ensures
        encode_utf8(a + b) == encode_utf8(a) + encode_utf8(b),
    decreases a.len(),
{
    if a.len() == 0 {
        assert(a + b =~= b);
        assert(encode_utf8(a) =~= Seq::<u8>::empty());
        assert(encode_utf8(a) + encode_utf8(b) =~= encode_utf8(b));
    } else {
        lemma_encode_utf8_concat(a.drop_first(), b);
        assert((a + b).drop_first() =~= a.drop_first() + b);
        assert((a + b)[0] == a[0]);
        assert(encode_utf8(a + b) =~= encode_scalar(a[0] as u32) + encode_utf8(a.drop_first() + b));
    }
}

/// What a masked key shows, byte by byte: a key of more than 8 bytes shows
/// its first 4 bytes, three dots and its last 4 bytes, 11 bytes in all,
/// however long it is; a shorter non-empty key shows four asterisks; an empty
/// key shows nothing.
pub proof fn law_mask_shows_ends(b: Seq<u8>)
    ensures
        b.len() > 8 ==> masked_key_bytes(b).len() == 11,
        b.len() > 8 ==> forall|i: int|
            0 <= i < 4 ==> #[trigger] masked_key_bytes(b)[i] == b[i] && masked_key_bytes(b)[7 + i]
                == b[b.len() - 4 + i],
        b.len() > 8 ==> masked_key_bytes(b)[4] == 46u8 && masked_key_bytes(b)[5] == 46u8
            && masked_key_bytes(b)[6] == 46u8,
        0 < b.len() <= 8 ==> masked_key_bytes(b).len() == 4 && forall|i: int|
            0 <= i < 4 ==> #[trigger] masked_key_bytes(b)[i] == 42u8,
        b.len() == 0 ==> masked_key_bytes(b).len() == 0,
{
    if b.len() > 8 {
        let m = masked_key_bytes(b);
        assert forall|i: int| 0 <= i < 4 implies #[trigger] m[i] == b[i] && m[7 + i] == b[b.len()
            - 4 + i] by {
            assert(m[i] == b.take(4)[i]);
            assert(m[7 + i] == b.skip(b.len() - 4)[i]);
        }
    }
}

/// The API key as shown to clients.
pub fn mask_api_key(key: &str) -> (r: String)
    requires
        maskable_key(key@),
    ensures
        encode_utf8(r@) == masked_key_bytes(encode_utf8(key@)),
        encode_utf8(key@).len() > 8 ==> encode_utf8(r@).len() == 11 && encode_utf8(r@).take(4)
            == encode_utf8(key@).take(4) && encode_utf8(r@).skip(7) == encode_utf8(key@).skip(
            encode_utf8(key@).len() - 4,
        ),
{
    proof {
        let kb = encode_utf8(key@);
        law_mask_shows_ends(kb);
        if kb.len() > 8 {
            let m = masked_key_bytes(kb);
            assert(m.take(4) =~= kb.take(4)) by {
                assert forall|i: int| 0 <= i < 4 implies m.take(4)[i] == kb.take(4)[i] by {
                    assert(m[i] == kb[i]);
                }
            }
            assert(m.skip(7) =~= kb.skip(kb.len() - 4)) by {
                assert forall|i: int| 0 <= i < 4 implies m.skip(7)[i] == kb.skip(kb.len() - 4)[i] by {
                    assert(m[7 + i] == kb[kb.len() - 4 + i]);
                }
            }
        }
    }
    let n = key.len();
    let ghost b = key.spec_bytes();
    proof {
        assert(b == encode_utf8(key@));
        assert(valid_utf8(b));
    }
    if n == 0 {
        return String::from_str(key);
    }
    if n > 8 {
        assert(is_char_boundary(b, n - 4));
        let (front, last) = key.split_at(n - 4);
        proof {
            let fb = front.spec_bytes();
            assert(valid_utf8(fb));
            assert(fb =~= b.subrange(0, n - 4));
            assert(fb[4] == b[4]);
            assert(is_char_boundary(b, 4));
            assert(!is_continuation_byte(b[4]));
            assert(!is_continuation_byte(fb[4]));
            assert(is_char_boundary(fb, 4));
        }
        let (first, _) = front.split_at(4);
        let mut r = String::from_str(first);
        r.append("...");
        r.append(last);
        proof {
            reveal_strlit("...");
            lemma_encode_utf8_concat(first@, "..."@);
            lemma_encode_utf8_concat(first@ + "..."@, last@);
            assert(is_ascii_chars("..."@));
            is_ascii_chars_encode_utf8("..."@);
            assert(encode_utf8("..."@) =~= seq![46u8, 46u8, 46u8]);
            assert(first.spec_bytes() =~= b.take(4));
            assert(last.spec_bytes() =~= b.skip(n - 4));
            assert(encode_utf8(r@) =~= masked_key_bytes(b));
        }
        r
    } else {
        let r = String::from_str("****");
        proof {
            reveal_strlit("****");
            assert(is_ascii_chars("****"@));
            is_ascii_chars_encode_utf8("****"@);
            assert(encode_utf8(r@) =~= seq![42u8, 42u8, 42u8, 42u8]);
        }
        r
    }
}

/// The configuration as shown to clients: the same values, with the API key
/// masked.
pub fn masked_config(c: &AppConfig) -> (r: AppConfig)
    requires
        maskable_key(c.api_key@),
    ensures
        r.api_endpoint@ == c.api_endpoint@,
        encode_utf8(r.api_key@) == masked_key_bytes(encode_utf8(c.api_key@)),
        r.model_name@ == c.model_name@,
        r.organization_id == c.organization_id,
        r.timeout_secs == c.timeout_secs,
{
    AppConfig {
        api_endpoint: c.api_endpoint.clone(),
        api_key: mask_api_key(c.api_key.as_str()),
        model_name: c.model_name.clone(),
        organization_id: c.organization_id.clone(),
        timeout_secs: c.timeout_secs,
    }
}


/// The values that env_file_contents writes for a configuration read back,
/// through config_from_env, as that configuration: the text after `NAME=` of
/// each line is the setting, and the decimal timeout parses to itself.
pub proof fn law_saved_config_reads_back(c: AppConfig)
    ensures
        value_or(Some(c.api_endpoint@), default_endpoint()) == c.api_endpoint@,
        value_or(Some(c.api_key@), Seq::<char>::empty()) == c.api_key@,
        value_or(Some(c.model_name@), default_model()) == c.model_name@,
        timeout_from(Some(decimal(c.timeout_secs as nat))) == c.timeout_secs,
{
    law_decimal_reads_back(c.timeout_secs);
}

/// With none of the variables set, config_from_env gives the default
/// configuration.
pub proof fn law_unset_environment_gives_default(r: AppConfig)
    requires
        r.api_endpoint@ == value_or(None, default_endpoint()),
        r.api_key@ == value_or(None, Seq::<char>::empty()),
        r.model_name@ == value_or(None, default_model()),
        r.organization_id is None,
        r.timeout_secs == timeout_from(None),
    ensures
        is_default_config(r),
{
}

/// Masking a masked key changes nothing.
pub proof fn law_masking_is_idempotent(b: Seq<u8>)
    ensures
        masked_key_bytes(masked_key_bytes(b)) == masked_key_bytes(b),
        masked_key_bytes(b).len() <= 11,
{
    let m = masked_key_bytes(b);
    if b.len() > 8 {
        assert(m.len() == 11);
        assert(m.take(4) =~= b.take(4));
        assert(m.skip(7) =~= b.skip(b.len() - 4));
        assert(masked_key_bytes(m) =~= m);
    }
}


/// Whether `s` holds no line feed.
pub open spec fn single_line(s: Seq<char>) -> bool {
    forall|i: int| 0 <= i < s.len() ==> #[trigger] s[i] != '\n'
}

/// Whether `s` can name a setting: one line without `=`.
pub open spec fn setting_name(s: Seq<char>) -> bool {
    forall|i: int| 0 <= i < s.len() ==> #[trigger] s[i] != '\n' && s[i] != '='
}

/// Whether `line` sets `name`: it starts with `name` and `=`.
pub open spec fn sets(line: Seq<char>, name: Seq<char>) -> bool {
    line.len() > name.len() && line.take(name.len() as int) == name && line[name.len() as int] == '='
}

/// The value that a `.env` text gives `name`: the rest, after `=`, of its
/// first line that sets `name`, or `None` where no line does.
pub open spec fn env_setting(text: Seq<char>, name: Seq<char>) -> Option<Seq<char>>
    decreases text.len(),
{
    if text.len() == 0 {
        None
    } else {
        let e = next_newline(text, 0);
        let line = text.take(e);
        if sets(line, name) {
            Some(line.skip(name.len() + 1int))
        } else if e >= text.len() {
            None
        } else {
            proof {
                lemma_next_newline_bounds(text, 0);
            }
            env_setting(text.skip(e + 1), name)
        }
    }
}

/// The `.env` line `name=value`.
pub open spec fn env_line(name: Seq<char>, value: Seq<char>) -> Seq<char> {
    name + seq!['='] + value + seq!['\n']
}

proof fn lemma_next_newline_exact(s: Seq<char>, i: int, k: int)
    requires
        0 <= i <= k < s.len(),
        s[k] == '\n',
        forall|j: int| i <= j < k ==> #[trigger] s[j] != '\n',
    ensures
        next_newline(s, i) == k,
    decreases k - i,
{
    if i < k {
        lemma_next_newline_exact(s, i + 1, k);
    }
}

proof fn lemma_sets_iff(a: Seq<char>, v: Seq<char>, name: Seq<char>)
    requires
        setting_name(a),
        setting_name(name),
    ensures
        sets(a + seq!['='] + v, name) <==> name == a,
{
    let l = a + seq!['='] + v;
    let n = name.len() as int;
    if name == a {
        assert(l.take(n) =~= a);
        assert(l[n] == '=');
    } else if sets(l, name) {
        if n < a.len() {
            assert(l[n] == a[n]);
        } else if n > a.len() {
            assert(l.take(n)[a.len() as int] == l[a.len() as int]);
            assert(name[a.len() as int] != '=');
        } else {
            assert(l.take(n) =~= a);
        }
    }
}

/// Reading a `.env` text whose first line is `a=v`: `a` has the value `v`,
/// and any other name is looked up in the lines after it.
proof fn lemma_env_first_line(a: Seq<char>, v: Seq<char>, rest: Seq<char>, name: Seq<char>)
    requires
        setting_name(a),
        setting_name(name),
        single_line(v),
    ensures
        env_setting(env_line(a, v) + rest, name) == if name == a {
            Some(v)
        } else {
            env_setting(rest, name)
        },
{
    let l = a + seq!['='] + v;
    let t = env_line(a, v) + rest;
    let k = l.len() as int;
    assert(t[k] == '\n');
    assert forall|j: int| 0 <= j < k implies #[trigger] t[j] != '\n' by {
        assert(t[j] == l[j]);
        if j < a.len() {
            assert(l[j] == a[j]);
        } else if j > a.len() {
            assert(l[j] == v[j - a.len() - 1]);
        }
    }
    lemma_next_newline_exact(t, 0, k);
    assert(t.take(k) =~= l);
    assert(t.skip(k + 1) =~= rest);
    lemma_sets_iff(a, v, name);
    if name == a {
        assert(l.skip(a.len() + 1int) =~= v);
    }
}

/// The configuration that loading the `.env` text that env_file_contents
/// writes gives back is the one saved, where no value spans two lines:
/// each setting read from that text, passed to config_from_env, yields its
/// own value.
pub proof fn law_saved_config_loads_back(c: AppConfig, r: AppConfig)
    requires
        single_line(c.api_endpoint@),
        single_line(c.api_key@),
        single_line(c.model_name@),
        c.organization_id matches Some(o) ==> single_line(o@),
        r.api_endpoint@ == value_or(
            env_setting(env_file_text(c), "API_ENDPOINT"@),
            default_endpoint(),
        ),
        r.api_key@ == value_or(env_setting(env_file_text(c), "API_KEY"@), Seq::<char>::empty()),
        r.model_name@ == value_or(env_setting(env_file_text(c), "MODEL_NAME"@), default_model()),
        opt_view(r.organization_id) == env_setting(env_file_text(c), "ORGANIZATION_ID"@),
        r.timeout_secs == timeout_from(env_setting(env_file_text(c), "TIMEOUT_SECS"@)),
    ensures
        r.api_endpoint@ == c.api_endpoint@,
        r.api_key@ == c.api_key@,
        r.model_name@ == c.model_name@,
        opt_view(r.organization_id) == opt_view(c.organization_id),
        r.timeout_secs == c.timeout_secs,
{
    let ep = "API_ENDPOINT"@;
    let key = "API_KEY"@;
    let model = "MODEL_NAME"@;
    let org = "ORGANIZATION_ID"@;
    let tmo = "TIMEOUT_SECS"@;
    reveal_strlit("API_ENDPOINT");
    reveal_strlit("API_KEY");
    reveal_strlit("MODEL_NAME");
    reveal_strlit("ORGANIZATION_ID");
    reveal_strlit("TIMEOUT_SECS");
    reveal_strlit("API_ENDPOINT=");
    reveal_strlit("API_KEY=");
    reveal_strlit("MODEL_NAME=");
    reveal_strlit("ORGANIZATION_ID=");
    reveal_strlit("TIMEOUT_SECS=");
    reveal_strlit("\n");
    assert(setting_name(ep));
    assert(setting_name(key));
    assert(setting_name(model));
    assert(setting_name(org));
    assert(setting_name(tmo));
    assert(ep[4] != key[4]);
    assert(ep[0] != tmo[0]);
    assert(ep != tmo);
    let dec = decimal(c.timeout_secs as nat);
    lemma_decimal_digits(c.timeout_secs as nat);
    assert forall|i: int| 0 <= i < dec.len() implies #[trigger] dec[i] != '\n' by {
        assert(crate::decimal::is_digit(dec[i]));
    }
    let last = env_line(tmo, dec);
    let orgs = match c.organization_id {
        Some(o) => env_line(org, o@),
        None => Seq::<char>::empty(),
    };
    let tail = orgs + last;
    let t3 = env_line(model, c.model_name@) + tail;
    let t2 = env_line(key, c.api_key@) + t3;
    let t1 = env_line(ep, c.api_endpoint@) + t2;
    assert(env_file_text(c) =~= t1);
    assert(last + Seq::<char>::empty() =~= last);
    lemma_env_first_line(tmo, dec, Seq::<char>::empty(), tmo);
    lemma_env_first_line(tmo, dec, Seq::<char>::empty(), org);
    match c.organization_id {
        Some(o) => {
            lemma_env_first_line(org, o@, last, org);
            lemma_env_first_line(org, o@, last, tmo);
        },
        None => {
            assert(tail =~= last);
        },
    }
    lemma_env_first_line(model, c.model_name@, tail, model);
    lemma_env_first_line(model, c.model_name@, tail, org);
    lemma_env_first_line(model, c.model_name@, tail, tmo);
    lemma_env_first_line(key, c.api_key@, t3, key);
    lemma_env_first_line(key, c.api_key@, t3, model);
    lemma_env_first_line(key, c.api_key@, t3, org);
    lemma_env_first_line(key, c.api_key@, t3, tmo);
    lemma_env_first_line(ep, c.api_endpoint@, t2, ep);
    lemma_env_first_line(ep, c.api_endpoint@, t2, key);
    lemma_env_first_line(ep, c.api_endpoint@, t2, model);
    lemma_env_first_line(ep, c.api_endpoint@, t2, org);
    lemma_env_first_line(ep, c.api_endpoint@, t2, tmo);
    law_decimal_reads_back(c.timeout_secs);
}

} // verus!
