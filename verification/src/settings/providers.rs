//! The model providers of the settings window: their ids, the list with
//! each provider's status, the setup form, and what saving it records.

use crate::main_content::title::{byte_len, lemma_byte_len_grows, utf8_width};
use crate::text::{all_ws, chars_of, is_blank, owned, str_eq, trim, trim_chars};
use vstd::prelude::*;

verus! {

/// The model providers the agent can talk to.
#[derive(Debug, Clone, Copy, PartialEq, Eq, Structural)]
pub enum Provider {
    Anthropic,
    OpenAI,
    Gemini,
    Ollama,
    DeepSeek,
    OpenRouter,
    Groq,
    Mistral,
    XAI,
    NvidiaNim,
    Cohere,
}

/// The lower-case id a provider is stored and selected by.
pub open spec fn provider_id(p: Provider) -> Seq<char> {
    match p {
        Provider::Anthropic => "anthropic"@,
        Provider::OpenAI => "open_ai"@,
        Provider::Gemini => "gemini"@,
        Provider::Ollama => "ollama"@,
        Provider::DeepSeek => "deep_seek"@,
        Provider::OpenRouter => "open_router"@,
        Provider::Groq => "groq"@,
        Provider::Mistral => "mistral"@,
        Provider::XAI => "xai"@,
        Provider::NvidiaNim => "nvidia_nim"@,
        Provider::Cohere => "cohere"@,
    }
}

/// The provider an id names, if any.
pub open spec fn provider_of_id(id: Seq<char>) -> Option<Provider> {
    if id == "anthropic"@ {
        Some(Provider::Anthropic)
    } else if id == "open_ai"@ {
        Some(Provider::OpenAI)
    } else if id == "gemini"@ {
        Some(Provider::Gemini)
    } else if id == "ollama"@ {
        Some(Provider::Ollama)
    } else if id == "deep_seek"@ {
        Some(Provider::DeepSeek)
    } else if id == "open_router"@ {
        Some(Provider::OpenRouter)
    } else if id == "groq"@ {
        Some(Provider::Groq)
    } else if id == "mistral"@ {
        Some(Provider::Mistral)
    } else if id == "xai"@ {
        Some(Provider::XAI)
    } else if id == "nvidia_nim"@ {
        Some(Provider::NvidiaNim)
    } else if id == "cohere"@ {
        Some(Provider::Cohere)
    } else {
        None
    }
}

/// See [`provider_id`].
pub fn provider_to_id(provider: Provider) -> (r: String)
    ensures
        r@ == provider_id(provider),
{
    match provider {
        Provider::Anthropic => owned("anthropic"),
        Provider::OpenAI => owned("open_ai"),
        Provider::Gemini => owned("gemini"),
        Provider::Ollama => owned("ollama"),
        Provider::DeepSeek => owned("deep_seek"),
        Provider::OpenRouter => owned("open_router"),
        Provider::Groq => owned("groq"),
        Provider::Mistral => owned("mistral"),
        Provider::XAI => owned("xai"),
        Provider::NvidiaNim => owned("nvidia_nim"),
        Provider::Cohere => owned("cohere"),
    }
}

/// See [`provider_of_id`].
pub fn id_to_provider(id: &str) -> (r: Option<Provider>)
    ensures
        r == provider_of_id(id@),
{
    if str_eq(id, "anthropic") {
        Some(Provider::Anthropic)
    } else if str_eq(id, "open_ai") {
        Some(Provider::OpenAI)
    } else if str_eq(id, "gemini") {
        Some(Provider::Gemini)
    } else if str_eq(id, "ollama") {
        Some(Provider::Ollama)
    } else if str_eq(id, "deep_seek") {
        Some(Provider::DeepSeek)
    } else if str_eq(id, "open_router") {
        Some(Provider::OpenRouter)
    } else if str_eq(id, "groq") {
        Some(Provider::Groq)
    } else if str_eq(id, "mistral") {
        Some(Provider::Mistral)
    } else if str_eq(id, "xai") {
        Some(Provider::XAI)
    } else if str_eq(id, "nvidia_nim") {
        Some(Provider::NvidiaNim)
    } else if str_eq(id, "cohere") {
        Some(Provider::Cohere)
    } else {
        None
    }
}

/// Two texts differ when their lengths or first characters do.
proof fn lemma_ids_differ(a: Seq<char>, b: Seq<char>)
    requires
        a.len() != b.len() || (a.len() > 0 && b.len() > 0 && a[0] != b[0]),
    ensures
        a != b,
{
}

/// A provider is found again by its id.
pub proof fn lemma_provider_id_round_trip(p: Provider)
    ensures
        provider_of_id(provider_id(p)) == Some(p),
{
    reveal_strlit("anthropic");
    reveal_strlit("open_ai");
    reveal_strlit("gemini");
    reveal_strlit("ollama");
    reveal_strlit("deep_seek");
    reveal_strlit("open_router");
    reveal_strlit("groq");
    reveal_strlit("mistral");
    reveal_strlit("xai");
    reveal_strlit("nvidia_nim");
    reveal_strlit("cohere");
    match p {
        Provider::Anthropic => {},
        Provider::OpenAI => {
            lemma_ids_differ("open_ai"@, "anthropic"@);
        },
        Provider::Gemini => {
            lemma_ids_differ("gemini"@, "anthropic"@);
            lemma_ids_differ("gemini"@, "open_ai"@);
        },
        Provider::Ollama => {
            lemma_ids_differ("ollama"@, "anthropic"@);
            lemma_ids_differ("ollama"@, "open_ai"@);
            lemma_ids_differ("ollama"@, "gemini"@);
        },
        Provider::DeepSeek => {
            lemma_ids_differ("deep_seek"@, "anthropic"@);
            lemma_ids_differ("deep_seek"@, "open_ai"@);
            lemma_ids_differ("deep_seek"@, "gemini"@);
            lemma_ids_differ("deep_seek"@, "ollama"@);
        },
        Provider::OpenRouter => {
            lemma_ids_differ("open_router"@, "anthropic"@);
            lemma_ids_differ("open_router"@, "open_ai"@);
            lemma_ids_differ("open_router"@, "gemini"@);
            lemma_ids_differ("open_router"@, "ollama"@);
            lemma_ids_differ("open_router"@, "deep_seek"@);
        },
        Provider::Groq => {
            lemma_ids_differ("groq"@, "anthropic"@);
            lemma_ids_differ("groq"@, "open_ai"@);
            lemma_ids_differ("groq"@, "gemini"@);
            lemma_ids_differ("groq"@, "ollama"@);
            lemma_ids_differ("groq"@, "deep_seek"@);
            lemma_ids_differ("groq"@, "open_router"@);
        },
        Provider::Mistral => {
            lemma_ids_differ("mistral"@, "anthropic"@);
            lemma_ids_differ("mistral"@, "open_ai"@);
            lemma_ids_differ("mistral"@, "gemini"@);
            lemma_ids_differ("mistral"@, "ollama"@);
            lemma_ids_differ("mistral"@, "deep_seek"@);
            lemma_ids_differ("mistral"@, "open_router"@);
            lemma_ids_differ("mistral"@, "groq"@);
        },
        Provider::XAI => {
            lemma_ids_differ("xai"@, "anthropic"@);
            lemma_ids_differ("xai"@, "open_ai"@);
            lemma_ids_differ("xai"@, "gemini"@);
            lemma_ids_differ("xai"@, "ollama"@);
            lemma_ids_differ("xai"@, "deep_seek"@);
            lemma_ids_differ("xai"@, "open_router"@);
            lemma_ids_differ("xai"@, "groq"@);
            lemma_ids_differ("xai"@, "mistral"@);
        },
        Provider::NvidiaNim => {
            lemma_ids_differ("nvidia_nim"@, "anthropic"@);
            lemma_ids_differ("nvidia_nim"@, "open_ai"@);
            lemma_ids_differ("nvidia_nim"@, "gemini"@);
            lemma_ids_differ("nvidia_nim"@, "ollama"@);
            lemma_ids_differ("nvidia_nim"@, "deep_seek"@);
            lemma_ids_differ("nvidia_nim"@, "open_router"@);
            lemma_ids_differ("nvidia_nim"@, "groq"@);
            lemma_ids_differ("nvidia_nim"@, "mistral"@);
            lemma_ids_differ("nvidia_nim"@, "xai"@);
        },
        Provider::Cohere => {
            lemma_ids_differ("cohere"@, "anthropic"@);
            lemma_ids_differ("cohere"@, "open_ai"@);
            lemma_ids_differ("cohere"@, "gemini"@);
            lemma_ids_differ("cohere"@, "ollama"@);
            lemma_ids_differ("cohere"@, "deep_seek"@);
            lemma_ids_differ("cohere"@, "open_router"@);
            lemma_ids_differ("cohere"@, "groq"@);
            lemma_ids_differ("cohere"@, "mistral"@);
            lemma_ids_differ("cohere"@, "xai"@);
            lemma_ids_differ("cohere"@, "nvidia_nim"@);
        },
    }
}

/// Whether a provider asks for an API key: an unknown id always does; a
/// known one does when its authentication header carries a key
/// (`key_header`), except the locally hosted Ollama.
pub open spec fn needs_api_key(id: Seq<char>, key_header: bool) -> bool {
    match provider_of_id(id) {
        Some(p) => key_header && p != Provider::Ollama,
        None => true,
    }
}

/// See [`needs_api_key`]; `key_header` tells whether the provider's
/// capabilities name an authentication header that carries an API key.
pub fn requires_api_key(id: &str, key_header: bool) -> (r: bool)
    ensures
        r == needs_api_key(id@, key_header),
{
    match id_to_provider(id) {
        Some(p) => key_header && p != Provider::Ollama,
        None => true,
    }
}

/// The provider set up in the configuration.
#[derive(Debug)]
pub struct ActiveProvider {
    pub provider: Provider,
    pub model_id: String,
    pub api_key: String,
    pub base_url_override: Option<String>,
}

/// A provider as the list shows it.
#[derive(Debug)]
pub struct ProviderSummary {
    pub id: String,
    pub label: String,
    pub status: String,
    pub active_model: String,
    pub is_active: bool,
}

/// A known provider with what the list needs of it: its display name and
/// whether its authentication header carries a key.
#[derive(Debug)]
pub struct ProviderEntry {
    pub provider: Provider,
    pub label: String,
    pub key_header: bool,
}

pub open spec fn summary_view(s: ProviderSummary) -> (Seq<char>, Seq<char>, Seq<char>, Seq<char>, bool) {
    (s.id@, s.label@, s.status@, s.active_model@, s.is_active)
}

pub open spec fn summaries_view(v: Seq<ProviderSummary>) -> Seq<(Seq<char>, Seq<char>, Seq<char>, Seq<char>, bool)> {
    v.map_values(|s: ProviderSummary| summary_view(s))
}

/// The list entry of provider `e`: configured when it is the active
/// provider (or the active one with a key), else asking for a key when it
/// needs one; the active model is shown on the active provider only.
pub open spec fn summary_of(e: ProviderEntry, active: Option<ActiveProvider>) -> (
    Seq<char>,
    Seq<char>,
    Seq<char>,
    Seq<char>,
    bool,
) {
    let id = provider_id(e.provider);
    let is_active = match active {
        Some(a) => a.provider == e.provider,
        None => false,
    };
    let is_configured = match active {
        Some(a) => a.provider == e.provider && a.api_key@.len() > 0,
        None => false,
    };
    let status = if is_active || is_configured {
        "Configured"@
    } else if needs_api_key(id, e.key_header) {
        "API key required"@
    } else {
        "Not configured"@
    };
    let model = match active {
        Some(a) => if is_active {
            a.model_id@
        } else {
            seq![]
        },
        None => seq![],
    };
    (id, e.label@, status, model, is_active)
}

/// The providers list, one entry per known provider, in order.
pub fn provider_summaries(all: &Vec<ProviderEntry>, active: &Option<ActiveProvider>) -> (r: Vec<ProviderSummary>)
    ensures
        r@.len() == all@.len(),
        forall|i: int| 0 <= i < all@.len() ==> summary_view(#[trigger] r@[i]) == summary_of(all@[i], *active),
{
    proof {
        reveal_strlit("");
    }
    let mut out: Vec<ProviderSummary> = Vec::new();
    let mut i: usize = 0;
    while i < all.len()
        invariant
            i <= all.len(),
            out@.len() == i,
            forall|k: int| 0 <= k < i ==> summary_view(#[trigger] out@[k]) == summary_of(all@[k], *active),
        decreases all.len() - i,
    {
        let e = &all[i];
        let id = provider_to_id(e.provider);
        let is_active = match active {
            Some(a) => a.provider == e.provider,
            None => false,
        };
        let is_configured = match active {
            Some(a) => a.provider == e.provider && !a.api_key.as_str().is_empty(),
            None => false,
        };
        let status = if is_active || is_configured {
            owned("Configured")
        } else if requires_api_key(id.as_str(), e.key_header) {
            owned("API key required")
        } else {
            owned("Not configured")
        };
        let model = match active {
            Some(a) => if is_active {
                a.model_id.clone()
            } else {
                String::new()
            },
            None => String::new(),
        };
        let s = ProviderSummary { id, label: e.label.clone(), status, active_model: model, is_active };
        proof {
            reveal_strlit("");
            assert(""@ =~= Seq::<char>::empty());
        }
        assert(summary_view(s) == summary_of(all@[i as int], *active));
        out.push(s);
        i += 1;
    }
    out
}

/// The setup form of a provider: base URL, API key and model.
#[derive(Debug)]
pub struct ProviderForm {
    pub api_base: String,
    pub api_key: String,
    pub model: String,
    /// Whether the form should look up the provider's models right away.
    pub discover: bool,
}

/// The form opened for provider `id`: the saved values when it is the
/// active provider, else only its default base URL; models are looked up
/// at once when there is a key, or for Ollama.
pub open spec fn form_of(id: Seq<char>, active: Option<ActiveProvider>, default_base: Option<Seq<char>>) -> (
    Seq<char>,
    Seq<char>,
    Seq<char>,
    bool,
) {
    let matching = match active {
        Some(a) => provider_id(a.provider) == id,
        None => false,
    };
    let (base, key, model) = if matching {
        match active {
            Some(a) => (
                match a.base_url_override {
                    Some(b) => b@,
                    None => seq![],
                },
                a.api_key@,
                a.model_id@,
            ),
            None => (seq![], seq![], seq![]),
        }
    } else {
        (
            match (provider_of_id(id), default_base) {
                (Some(_), Some(b)) => b,
                _ => seq![],
            },
            seq![],
            seq![],
        )
    };
    (base, key, model, key.len() > 0 || id == "ollama"@)
}

/// See [`form_of`]; `default_base` is the provider's default base URL.
pub fn provider_form(id: &str, active: &Option<ActiveProvider>, default_base: Option<&str>) -> (r: ProviderForm)
    ensures
        (r.api_base@, r.api_key@, r.model@, r.discover) == form_of(
            id@,
            *active,
            match default_base {
                Some(b) => Some(b@),
                None => None,
            },
        ),
{
    proof {
        reveal_strlit("");
        assert(""@ =~= Seq::<char>::empty());
    }
    let matching = match active {
        Some(a) => {
            let aid = provider_to_id(a.provider);
            str_eq(aid.as_str(), id)
        },
        None => false,
    };
    let (api_base, api_key, model) = match active {
        Some(a) if matching => (
            match &a.base_url_override {
                Some(b) => b.clone(),
                None => String::new(),
            },
            a.api_key.clone(),
            a.model_id.clone(),
        ),
        _ => (
            match (id_to_provider(id), default_base) {
                (Some(_), Some(b)) => owned(b),
                _ => String::new(),
            },
            String::new(),
            String::new(),
        ),
    };
    let discover = !api_key.as_str().is_empty() || str_eq(id, "ollama");
    ProviderForm { api_base, api_key, model, discover }
}

/// What saving the setup form records.
#[derive(Debug)]
pub struct ProviderSetup {
    pub provider: Provider,
    /// The key, unless the field is blank (an unauthenticated setup).
    pub api_key: Option<String>,
    pub model_id: String,
    pub context_window: u32,
    pub max_tokens: u32,
    /// The base URL, unless the field is blank.
    pub base_url_override: Option<String>,
}

/// The setup saved for provider `id`: `None` for an unknown id; otherwise
/// the key and base URL unless blank (all white space), the chosen model, and the fallback
/// limits of 128,000 tokens of context and 4,096 of output.
pub fn provider_setup(id: &str, api_base: &str, api_key: &str, model: &str) -> (r: Option<ProviderSetup>)
    ensures
        match r {
            None => provider_of_id(id@) is None,
            Some(s) => {
                &&& provider_of_id(id@) == Some(s.provider)
                &&& match s.api_key {
                    Some(k) => !all_ws(api_key@) && k@ == api_key@,
                    None => all_ws(api_key@),
                }
                &&& s.model_id@ == model@
                &&& s.context_window == 128_000
                &&& s.max_tokens == 4_096
                &&& match s.base_url_override {
                    Some(b) => !all_ws(api_base@) && b@ == api_base@,
                    None => all_ws(api_base@),
                }
            },
        },
{
    match id_to_provider(id) {
        None => None,
        Some(provider) => {
            let key = if is_blank(api_key) {
                None
            } else {
                Some(owned(api_key))
            };
            let base = if is_blank(api_base) {
                None
            } else {
                Some(owned(api_base))
            };
            Some(ProviderSetup {
                provider,
                api_key: key,
                model_id: owned(model),
                context_window: 128_000,
                max_tokens: 4_096,
                base_url_override: base,
            })
        },
    }
}

/// Editing the key or base URL looks the models up again once the key,
/// without surrounding white space, is 15 bytes or longer, and always for
/// Ollama.
pub fn should_rediscover(provider_id: &str, api_key: &str) -> (r: bool)
    ensures
        r == (byte_len(trim(api_key@)) >= 15 || provider_id@ == "ollama"@),
{
    let v = chars_of(api_key);
    let t = trim_chars(&v);
    let ghost ts = t@;
    let mut k: usize = 0;
    let mut b: usize = 0;
    while k < t.len() && b < 15
        invariant
            k <= t.len(),
            ts == t@,
            b == byte_len(ts.take(k as int)),
            b < 19,
        decreases t.len() - k,
    {
        proof {
            assert(ts.take(k + 1).drop_last() =~= ts.take(k as int));
        }
        b = b + utf8_width(t[k]);
        k += 1;
    }
    proof {
        assert(ts.take(t.len() as int) =~= ts);
        if k < t.len() {
            lemma_byte_len_grows(ts, k as int, t.len() as int);
        }
    }
    b >= 15 || str_eq(provider_id, "ollama")
}

/// The base URL a model lookup uses: none when the field is blank.
pub fn discovery_base(api_base: &str) -> (r: Option<String>)
    ensures
        match r {
            Some(b) => !all_ws(api_base@) && b@ == api_base@,
            None => all_ws(api_base@),
        },
{
    if is_blank(api_base) {
        None
    } else {
        Some(owned(api_base))
    }
}

} // verus!
