//! Settings of the session-naming feature, read from tmux global options
//! and from the API key that the process environment carries.
use std::collections::HashMap;
use vstd::prelude::*;

use crate::text::{
    ascii_lowercase, chars_of, lowercase_equals, opt_str_view, opt_string_view, parse_u64,
    parse_u64_spec, trim, trimmed,
};

verus! {

pub const DEFAULT_TIMEOUT_MS: u64 = 15_000;

/// Environment variable that carries the bearer token when the LLM
/// endpoint needs one. Kept out of tmux options on purpose: any client
/// that can talk to the tmux server can `tmux show-option` an
/// `@sidebar_llm_*` key, so storing a credential there would make it
/// readable by every tmux session for the user. Env vars inherit only
/// into processes the user launches, which is the trust boundary we
/// want.
pub const API_KEY_ENV: &'static str = "TMUX_AGENT_SIDEBAR_LLM_API_KEY";

pub const ENDPOINT_OPTION: &'static str = "@sidebar_llm_endpoint";

pub const MODEL_OPTION: &'static str = "@sidebar_llm_model";

pub const AUTO_RENAME_OPTION: &'static str = "@sidebar_llm_auto_rename";

pub const TIMEOUT_OPTION: &'static str = "@sidebar_llm_timeout_ms";

#[derive(Debug, Clone, PartialEq, Eq)]
pub struct LlmConfig {
    pub endpoint: String,
    pub model: String,
    pub api_key: Option<String>,
    pub auto_rename: bool,
    pub timeout_ms: u64,
}

/// What an [`LlmConfig`] holds, as character sequences.
pub struct LlmConfigView {
    pub endpoint: Seq<char>,
    pub model: Seq<char>,
    pub api_key: Option<Seq<char>>,
    pub auto_rename: bool,
    pub timeout_ms: u64,
}

impl View for LlmConfig {
    type V = LlmConfigView;

    open spec fn view(&self) -> LlmConfigView {
        LlmConfigView {
            endpoint: self.endpoint@,
            model: self.model@,
            api_key: opt_string_view(self.api_key),
            auto_rename: self.auto_rename,
            timeout_ms: self.timeout_ms,
        }
    }
}

/// The text stored in `opts` under the key whose text is `key`, if any.
pub open spec fn lookup(opts: Map<String, String>, key: Seq<char>) -> Option<Seq<char>> {
    if exists|k: String| opts.contains_key(k) && k@ == key {
        let k = choose|k: String| opts.contains_key(k) && k@ == key;
        Some(opts[k]@)
    } else {
        None
    }
}

/// `HashMap::get` with a `&str` key: the value stored under the `String` key
/// that holds the same text. Keys compare by content, so at most one key
/// matches. (vstd's own contract for `get` states nothing for a `String`
/// key looked up by `&str`.)
#[verifier::external_body]
fn option_value<'a>(opts: &'a HashMap<String, String>, key: &str) -> (r: Option<&'a String>)
    ensures
        match r {
            Some(v) => lookup(opts@, key@) == Some(v@),
            None => lookup(opts@, key@) is None,
        },
{
    opts.get(key)
}

/// The trimmed text, unless it is empty after trimming.
pub open spec fn non_empty(value: Option<Seq<char>>) -> Option<Seq<char>> {
    match value {
        Some(s) => if trim(s).len() > 0 {
            Some(trim(s))
        } else {
            None
        },
        None => None,
    }
}

/// A boolean option: `on`, `true` or `1` and `off`, `false` or `0`, after
/// trimming and in any ASCII case; anything else is no setting.
pub open spec fn bool_setting(raw: Option<Seq<char>>) -> Option<bool> {
    match raw {
        Some(s) => {
            let l = ascii_lowercase(trim(s));
            if l == "on"@ || l == "true"@ || l == "1"@ {
                Some(true)
            } else if l == "off"@ || l == "false"@ || l == "0"@ {
                Some(false)
            } else {
                None
            }
        },
        None => None,
    }
}

/// The request timeout: the trimmed option parsed as a positive `u64`,
/// else [`DEFAULT_TIMEOUT_MS`].
pub open spec fn timeout_setting(raw: Option<Seq<char>>) -> u64 {
    match raw {
        Some(s) => match parse_u64_spec(trim(s)) {
            Some(ms) => if ms > 0 {
                ms
            } else {
                DEFAULT_TIMEOUT_MS
            },
            None => DEFAULT_TIMEOUT_MS,
        },
        None => DEFAULT_TIMEOUT_MS,
    }
}

/// The configuration that `opts` and the API key from the environment
/// give: none unless both the endpoint and the model are set.
pub open spec fn config_from(opts: Map<String, String>, api_key_env: Option<Seq<char>>) -> Option<
    LlmConfigView,
> {
    let endpoint = non_empty(lookup(opts, ENDPOINT_OPTION@));
    let model = non_empty(lookup(opts, MODEL_OPTION@));
    if endpoint is Some && model is Some {
        Some(
            LlmConfigView {
                endpoint: endpoint->0,
                model: model->0,
                api_key: non_empty(api_key_env),
                auto_rename: match bool_setting(lookup(opts, AUTO_RENAME_OPTION@)) {
                    Some(b) => b,
                    None => false,
                },
                timeout_ms: timeout_setting(lookup(opts, TIMEOUT_OPTION@)),
            },
        )
    } else {
        None
    }
}

impl LlmConfig {
    /// Returns `None` when the feature is not configured. The minimum
    /// required opt-in is `@sidebar_llm_endpoint` + `@sidebar_llm_model`.
    /// The API key comes from `api_key_env` (the value of [`API_KEY_ENV`]),
    /// never from tmux options.
    pub fn from_sources(opts: &HashMap<String, String>, api_key_env: Option<&str>) -> (r: Option<
        Self,
    >)
        ensures
            match r {
                Some(c) => config_from(opts@, opt_str_view(api_key_env)) == Some(c@),
                None => config_from(opts@, opt_str_view(api_key_env)) is None,
            },
            r matches Some(c) ==> c.endpoint@ == trim(lookup(opts@, ENDPOINT_OPTION@)->0) && c.model@
                == trim(lookup(opts@, MODEL_OPTION@)->0),
    {
        proof {
            lemma_config_fields(opts@, opt_str_view(api_key_env));
        }
        let endpoint = match non_empty_str(option_str(opts, ENDPOINT_OPTION)) {
            Some(e) => e,
            None => return None,
        };
        let model = match non_empty_str(option_str(opts, MODEL_OPTION)) {
            Some(m) => m,
            None => return None,
        };
        let api_key = non_empty_str(api_key_env);
        let auto_rename = match read_bool(opts, AUTO_RENAME_OPTION) {
            Some(b) => b,
            None => false,
        };
        let timeout_ms = read_timeout(opts, TIMEOUT_OPTION);
        Some(Self { endpoint, model, api_key, auto_rename, timeout_ms })
    }
}

fn option_str<'a>(opts: &'a HashMap<String, String>, key: &str) -> (r: Option<&'a str>)
    ensures
        opt_str_view(r) == lookup(opts@, key@),
{
    match option_value(opts, key) {
        Some(v) => Some(v.as_str()),
        None => None,
    }
}

/// The trimmed value, or `None` when it is absent or only white space.
pub fn non_empty_str(value: Option<&str>) -> (r: Option<String>)
    ensures
        opt_string_view(r) == non_empty(opt_str_view(value)),
{
    match value {
        Some(s) => {
            let t = trimmed(s);
            if t.as_str().is_empty() {
                None
            } else {
                Some(t)
            }
        },
        None => None,
    }
}

fn read_bool(opts: &HashMap<String, String>, key: &str) -> (r: Option<bool>)
    ensures
        r == bool_setting(lookup(opts@, key@)),
{
    let raw = match option_str(opts, key) {
        Some(v) => v,
        None => return None,
    };
    let t = trimmed(raw);
    let v = chars_of(t.as_str());
    if lowercase_equals(&v, "on") || lowercase_equals(&v, "true") || lowercase_equals(&v, "1") {
        Some(true)
    } else if lowercase_equals(&v, "off") || lowercase_equals(&v, "false") || lowercase_equals(
        &v,
        "0",
    ) {
        Some(false)
    } else {
        None
    }
}

fn read_timeout(opts: &HashMap<String, String>, key: &str) -> (r: u64)
    ensures
        r == timeout_setting(lookup(opts@, key@)),
{
    match option_str(opts, key) {
        Some(v) => {
            let t = trimmed(v);
            let digits = chars_of(t.as_str());
            match parse_u64(&digits) {
                Some(ms) => if ms > 0 {
                    ms
                } else {
                    DEFAULT_TIMEOUT_MS
                },
                None => DEFAULT_TIMEOUT_MS,
            }
        },
        None => DEFAULT_TIMEOUT_MS,
    }
}

/// The API key comes from the environment alone: no tmux option, whatever
/// its name, can set it.
pub proof fn lemma_api_key_only_from_env(opts: Map<String, String>, api_key_env: Option<Seq<char>>)
    ensures
        config_from(opts, api_key_env) matches Some(c) ==> c.api_key == non_empty(api_key_env),
{
}

/// The feature is configured exactly when both the endpoint and the model
/// are set to something other than white space.
pub proof fn lemma_configured_iff_endpoint_and_model(
    opts: Map<String, String>,
    api_key_env: Option<Seq<char>>,
)
    ensures
        config_from(opts, api_key_env) is Some <==> non_empty(lookup(opts, ENDPOINT_OPTION@)) is Some
            && non_empty(lookup(opts, MODEL_OPTION@)) is Some,
{
}

/// The request timeout is never zero.
pub proof fn lemma_timeout_positive(opts: Map<String, String>, api_key_env: Option<Seq<char>>)
    ensures
        config_from(opts, api_key_env) matches Some(c) ==> c.timeout_ms > 0,
{
}

/// What each field of a configuration is, in terms of the options and the
/// environment value: endpoint and model are the trimmed option texts,
/// unchanged otherwise; the API key is the trimmed environment value
/// unless it is blank; auto-rename is on exactly for `on`, `true` or `1`
/// in any ASCII case; the timeout is the parsed option when positive.
pub proof fn lemma_config_fields(opts: Map<String, String>, api_key_env: Option<Seq<char>>)
    ensures
        config_from(opts, api_key_env) matches Some(c) ==> {
            &&& lookup(opts, ENDPOINT_OPTION@) is Some
            &&& c.endpoint == trim(lookup(opts, ENDPOINT_OPTION@)->0)
            &&& c.endpoint.len() > 0
            &&& lookup(opts, MODEL_OPTION@) is Some
            &&& c.model == trim(lookup(opts, MODEL_OPTION@)->0)
            &&& c.model.len() > 0
            &&& (c.api_key is Some <==> (api_key_env is Some && trim(api_key_env->0).len() > 0))
            &&& (c.api_key matches Some(k) ==> k == trim(api_key_env->0))
            &&& (c.auto_rename <==> (lookup(opts, AUTO_RENAME_OPTION@) matches Some(raw) && {
                let l = ascii_lowercase(trim(raw));
                l == "on"@ || l == "true"@ || l == "1"@
            }))
            &&& (lookup(opts, TIMEOUT_OPTION@) is Some && parse_u64_spec(
                trim(lookup(opts, TIMEOUT_OPTION@)->0),
            ) is Some && parse_u64_spec(trim(lookup(opts, TIMEOUT_OPTION@)->0))->0 > 0
                ==> c.timeout_ms == parse_u64_spec(trim(lookup(opts, TIMEOUT_OPTION@)->0))->0)
            &&& (c.timeout_ms != DEFAULT_TIMEOUT_MS ==> (lookup(opts, TIMEOUT_OPTION@) is Some
                && parse_u64_spec(trim(lookup(opts, TIMEOUT_OPTION@)->0)) == Some(c.timeout_ms)))
        },
        config_from(opts, api_key_env) is None <==> (!(lookup(opts, ENDPOINT_OPTION@) matches Some(e)
            && trim(e).len() > 0) || !(lookup(opts, MODEL_OPTION@) matches Some(m) && trim(m).len()
            > 0)),
{
}

} // verus!
