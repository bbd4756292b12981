//! Configuration of the chat service.
//!
//! Two construction paths: [`ChatConfig::from_env_values`], fed with the
//! values of the `MCSOFT_*` environment variables, and the explicit
//! [`ChatConfig::builder`]. The dynamic resolvers (key, prompt, suggestions)
//! are carried as opaque values of the type parameters `K`, `P` and `S`; the
//! code that runs them awaits them and hands their answers to the `resolve_*`
//! methods.
use vstd::prelude::*;
use vstd::string::StringExecFns;
use crate::openrouter::opt_text;

verus! {

/// The model asked for when none is configured.
pub open spec fn default_model() -> Seq<char> {
    "google/gemma-4-26b-a4b-it"@
}

/// The MCP endpoint used when none is configured.
pub open spec fn default_mcp_url() -> Seq<char> {
    "https://mcsoftsolution.com/mcp"@
}

/// A configured text where it is set and non-empty, else `dflt`.
pub open spec fn non_empty_or(v: Option<Seq<char>>, dflt: Seq<char>) -> Seq<char> {
    match v {
        Some(s) => if s.len() > 0 { s } else { dflt },
        None => dflt,
    }
}

/// A configured text where it is set and non-empty.
pub open spec fn non_empty(v: Option<Seq<char>>) -> Option<Seq<char>> {
    match v {
        Some(s) => if s.len() > 0 { Some(s) } else { None },
        None => None,
    }
}

/// Runtime configuration of the chat service.
#[derive(Clone)]
pub struct ChatConfig<K, P, S> {
    /// Static API key. Used when `key_provider` is `None`.
    pub openrouter_api_key: String,
    /// Optional dynamic key resolver; takes precedence over the static key.
    pub key_provider: Option<K>,
    pub model: String,
    pub mcp_url: String,
    /// Label naming the surface the visitor chats from, used in the default prompt.
    pub site_label: Option<String>,
    /// Full system prompt override; used when `prompt_provider` is `None`.
    pub system_prompt_override: Option<String>,
    /// Optional dynamic resolver of the prompt override; takes precedence.
    pub prompt_provider: Option<P>,
    /// Optional resolver of the widget's starter and follow-up suggestions.
    pub suggestions_provider: Option<S>,
}

/// Builder of a [`ChatConfig`].
#[derive(Clone)]
pub struct ChatConfigBuilder<K, P, S> {
    openrouter_api_key: Option<String>,
    key_provider: Option<K>,
    model: Option<String>,
    mcp_url: Option<String>,
    site_label: Option<String>,
    system_prompt_override: Option<String>,
    prompt_provider: Option<P>,
    suggestions_provider: Option<S>,
}

/// What a builder holds, by its texts.
pub struct BuilderV<K, P, S> {
    pub openrouter_api_key: Option<Seq<char>>,
    pub key_provider: Option<K>,
    pub model: Option<Seq<char>>,
    pub mcp_url: Option<Seq<char>>,
    pub site_label: Option<Seq<char>>,
    pub system_prompt_override: Option<Seq<char>>,
    pub prompt_provider: Option<P>,
    pub suggestions_provider: Option<S>,
}

/// What a configuration holds, by its texts.
pub struct ConfigV<K, P, S> {
    pub openrouter_api_key: Seq<char>,
    pub key_provider: Option<K>,
    pub model: Seq<char>,
    pub mcp_url: Seq<char>,
    pub site_label: Option<Seq<char>>,
    pub system_prompt_override: Option<Seq<char>>,
    pub prompt_provider: Option<P>,
    pub suggestions_provider: Option<S>,
}

impl<K, P, S> View for ChatConfigBuilder<K, P, S> {
    type V = BuilderV<K, P, S>;

    closed spec fn view(&self) -> BuilderV<K, P, S> {
        BuilderV {
            openrouter_api_key: opt_text(self.openrouter_api_key),
            key_provider: self.key_provider,
            model: opt_text(self.model),
            mcp_url: opt_text(self.mcp_url),
            site_label: opt_text(self.site_label),
            system_prompt_override: opt_text(self.system_prompt_override),
            prompt_provider: self.prompt_provider,
            suggestions_provider: self.suggestions_provider,
        }
    }
}

impl<K, P, S> View for ChatConfig<K, P, S> {
    type V = ConfigV<K, P, S>;

    open spec fn view(&self) -> ConfigV<K, P, S> {
        ConfigV {
            openrouter_api_key: self.openrouter_api_key@,
            key_provider: self.key_provider,
            model: self.model@,
            mcp_url: self.mcp_url@,
            site_label: opt_text(self.site_label),
            system_prompt_override: opt_text(self.system_prompt_override),
            prompt_provider: self.prompt_provider,
            suggestions_provider: self.suggestions_provider,
        }
    }
}

/// The configuration that a builder builds: a missing static key becomes the
/// empty key, a missing model or MCP endpoint the default one.
pub open spec fn built<K, P, S>(b: BuilderV<K, P, S>) -> ConfigV<K, P, S> {
    ConfigV {
        openrouter_api_key: match b.openrouter_api_key { Some(k) => k, None => Seq::empty() },
        key_provider: b.key_provider,
        model: match b.model { Some(m) => m, None => default_model() },
        mcp_url: match b.mcp_url { Some(u) => u, None => default_mcp_url() },
        site_label: b.site_label,
        system_prompt_override: b.system_prompt_override,
        prompt_provider: b.prompt_provider,
        suggestions_provider: b.suggestions_provider,
    }
}

/// The key in force for a request: the resolver's answer where a resolver is
/// installed, else the static key where it is non-empty.
pub open spec fn resolved_key<K, P, S>(c: ConfigV<K, P, S>, from_provider: Option<Seq<char>>) -> Option<Seq<char>> {
    if c.key_provider is Some {
        from_provider
    } else if c.openrouter_api_key.len() > 0 {
        Some(c.openrouter_api_key)
    } else {
        None
    }
}

/// The prompt override in force for a request: the resolver's answer where a
/// resolver is installed, else the static override.
pub open spec fn resolved_prompt_override<K, P, S>(c: ConfigV<K, P, S>, from_provider: Option<Seq<char>>) -> Option<Seq<char>> {
    if c.prompt_provider is Some { from_provider } else { c.system_prompt_override }
}

/// What `format!("{:?}", s)` prints for a string: `s` quoted, with the
/// characters that need it escaped.
pub uninterp spec fn debug_quoted(s: Seq<char>) -> Seq<char>;

/// `format!("{:?}", s)` (std's `Debug` of `str`). Claimed: the result is
/// [`debug_quoted`] of the text; the quoting and escaping rules are not stated.
#[verifier::external_body]
fn debug_text(s: &str) -> (r: String)
    ensures
        r@ == debug_quoted(s@),
{
    format!("{:?}", s)
}

/// The `Debug` rendering of an optional string.
pub open spec fn debug_opt(o: Option<Seq<char>>) -> Seq<char> {
    match o {
        Some(s) => "Some("@ + debug_quoted(s) + ")"@,
        None => "None"@,
    }
}

/// What is shown of a present resolver or override.
pub open spec fn shown_if(present: bool, label: Seq<char>) -> Option<Seq<char>> {
    if present { Some(label) } else { None }
}

/// The debug rendering of a configuration: the API key and the prompt
/// override are never shown, only whether they are set, and resolvers show as
/// `"<fn>"`.
pub open spec fn config_debug<K, P, S>(c: ConfigV<K, P, S>) -> Seq<char> {
    "ChatConfig { openrouter_api_key: "@
        + debug_quoted(if c.openrouter_api_key.len() == 0 { "<empty>"@ } else { "<redacted>"@ })
        + ", key_provider: "@ + debug_opt(shown_if(c.key_provider is Some, "<fn>"@))
        + ", model: "@ + debug_quoted(c.model)
        + ", mcp_url: "@ + debug_quoted(c.mcp_url)
        + ", site_label: "@ + debug_opt(c.site_label)
        + ", system_prompt_override: "@ + debug_opt(shown_if(c.system_prompt_override is Some, "<set>"@))
        + ", prompt_provider: "@ + debug_opt(shown_if(c.prompt_provider is Some, "<fn>"@))
        + ", suggestions_provider: "@ + debug_opt(shown_if(c.suggestions_provider is Some, "<fn>"@))
        + " }"@
}

fn push_debug_opt(out: &mut String, o: Option<&str>)
    ensures
        final(out)@ == old(out)@ + debug_opt(match o { Some(s) => Some(s@), None => None::<Seq<char>> }),
{
    match o {
        Some(s) => {
            out.append("Some(");
            let q = debug_text(s);
            out.append(q.as_str());
            out.append(")");
        },
        None => out.append("None"),
    }
}

fn text_or_default(v: Option<String>, dflt: &str) -> (r: String)
    ensures
        r@ == non_empty_or(opt_text(v), dflt@),
{
    match v {
        Some(s) => if s.as_str().is_empty() { String::from_str(dflt) } else { s },
        None => String::from_str(dflt),
    }
}

impl<K, P, S> ChatConfig<K, P, S> {
    /// The configuration rendered for debugging, with the secrets redacted.
    pub fn debug_string(&self) -> (r: String)
        ensures
            r@ == config_debug(self@),
    {
        let mut out = String::from_str("ChatConfig { openrouter_api_key: ");
        let key = if self.openrouter_api_key.as_str().is_empty() { debug_text("<empty>") } else { debug_text("<redacted>") };
        out.append(key.as_str());
        out.append(", key_provider: ");
        push_debug_opt(&mut out, if self.key_provider.is_some() { Some("<fn>") } else { None });
        out.append(", model: ");
        let m = debug_text(self.model.as_str());
        out.append(m.as_str());
        out.append(", mcp_url: ");
        let u = debug_text(self.mcp_url.as_str());
        out.append(u.as_str());
        out.append(", site_label: ");
        push_debug_opt(&mut out, match &self.site_label { Some(l) => Some(l.as_str()), None => None });
        out.append(", system_prompt_override: ");
        push_debug_opt(&mut out, if self.system_prompt_override.is_some() { Some("<set>") } else { None });
        out.append(", prompt_provider: ");
        push_debug_opt(&mut out, if self.prompt_provider.is_some() { Some("<fn>") } else { None });
        out.append(", suggestions_provider: ");
        push_debug_opt(&mut out, if self.suggestions_provider.is_some() { Some("<fn>") } else { None });
        out.append(" }");
        out
    }

    /// An empty builder.
    pub fn builder() -> (b: ChatConfigBuilder<K, P, S>)
        ensures
            b@ == (BuilderV::<K, P, S> {
                openrouter_api_key: None, key_provider: None, model: None, mcp_url: None,
                site_label: None, system_prompt_override: None, prompt_provider: None,
                suggestions_provider: None,
            }),
    {
        ChatConfigBuilder {
            openrouter_api_key: None,
            key_provider: None,
            model: None,
            mcp_url: None,
            site_label: None,
            system_prompt_override: None,
            prompt_provider: None,
            suggestions_provider: None,
        }
    }

    /// The configuration that the environment describes, given the values of
    /// `MCSOFT_OPENROUTER_API_KEY`, `MCSOFT_CHAT_MODEL`, `MCSOFT_MCP_URL` and
    /// `MCSOFT_SITE_LABEL` (`None` where unset). `None` when the key is unset
    /// or empty; an unset or empty model or endpoint falls back to the default,
    /// an empty site label counts as unset.
    pub fn from_env_values(
        api_key: Option<String>,
        model: Option<String>,
        mcp_url: Option<String>,
        site_label: Option<String>,
    ) -> (r: Option<ChatConfig<K, P, S>>)
        ensures
            r is Some <==> non_empty(opt_text(api_key)) is Some,
            r matches Some(c) ==> c@ == (ConfigV::<K, P, S> {
                openrouter_api_key: non_empty(opt_text(api_key))->0,
                key_provider: None,
                model: non_empty_or(opt_text(model), default_model()),
                mcp_url: non_empty_or(opt_text(mcp_url), default_mcp_url()),
                site_label: non_empty(opt_text(site_label)),
                system_prompt_override: None,
                prompt_provider: None,
                suggestions_provider: None,
            }),
    {
        let key = match api_key {
            Some(k) => if k.as_str().is_empty() { return None; } else { k },
            None => { return None; },
        };
        let site_label = match site_label {
            Some(l) => if l.as_str().is_empty() { None } else { Some(l) },
            None => None,
        };
        Some(ChatConfig {
            openrouter_api_key: key,
            key_provider: None,
            model: text_or_default(model, "google/gemma-4-26b-a4b-it"),
            mcp_url: text_or_default(mcp_url, "https://mcsoftsolution.com/mcp"),
            site_label,
            system_prompt_override: None,
            prompt_provider: None,
            suggestions_provider: None,
        })
    }

    /// The API key for the current request, given what the key resolver
    /// answered (pass `None` when no resolver is installed).
    pub fn resolve_key(&self, from_provider: Option<String>) -> (r: Option<String>)
        ensures
            opt_text(r) == resolved_key(self@, opt_text(from_provider)),
    {
        if self.key_provider.is_some() {
            from_provider
        } else if !self.openrouter_api_key.as_str().is_empty() {
            Some(self.openrouter_api_key.clone())
        } else {
            None
        }
    }

    /// The system-prompt override for the current request, given what the
    /// prompt resolver answered (pass `None` when none is installed).
    pub fn resolve_prompt_override(&self, from_provider: Option<String>) -> (r: Option<String>)
        ensures
            opt_text(r) == resolved_prompt_override(self@, opt_text(from_provider)),
    {
        if self.prompt_provider.is_some() {
            from_provider
        } else {
            match &self.system_prompt_override {
                Some(p) => Some(p.clone()),
                None => None,
            }
        }
    }

    /// The widget's `(starters, followups)`, given what the suggestions
    /// resolver answered: its answer where one is installed, else two empty
    /// lists (the widget then uses its own).
    pub fn resolve_suggestions(&self, from_provider: (Vec<String>, Vec<String>)) -> (r: (Vec<String>, Vec<String>))
        ensures
            self.suggestions_provider is Some ==> r == from_provider,
            self.suggestions_provider is None ==> r.0@.len() == 0 && r.1@.len() == 0,
    {
        if self.suggestions_provider.is_some() {
            from_provider
        } else {
            (Vec::new(), Vec::new())
        }
    }
}

impl<K, P, S> ChatConfigBuilder<K, P, S> {
    /// Sets the static API key.
    pub fn openrouter_api_key(self, key: String) -> (b: Self)
        ensures
            b@ == (BuilderV { openrouter_api_key: Some(key@), ..self@ }),
    {
        ChatConfigBuilder { openrouter_api_key: Some(key), ..self }
    }

    /// Installs a dynamic key resolver, which takes precedence over the static key.
    pub fn key_provider(self, provider: K) -> (b: Self)
        ensures
            b@ == (BuilderV { key_provider: Some(provider), ..self@ }),
    {
        ChatConfigBuilder { key_provider: Some(provider), ..self }
    }

    /// Sets the model.
    pub fn model(self, model: String) -> (b: Self)
        ensures
            b@ == (BuilderV { model: Some(model@), ..self@ }),
    {
        ChatConfigBuilder { model: Some(model), ..self }
    }

    /// Sets the MCP endpoint.
    pub fn mcp_url(self, url: String) -> (b: Self)
        ensures
            b@ == (BuilderV { mcp_url: Some(url@), ..self@ }),
    {
        ChatConfigBuilder { mcp_url: Some(url), ..self }
    }

    /// Sets the site label.
    pub fn site_label(self, label: String) -> (b: Self)
        ensures
            b@ == (BuilderV { site_label: Some(label@), ..self@ }),
    {
        ChatConfigBuilder { site_label: Some(label), ..self }
    }

    /// Sets the full system prompt override.
    pub fn system_prompt_override(self, prompt: String) -> (b: Self)
        ensures
            b@ == (BuilderV { system_prompt_override: Some(prompt@), ..self@ }),
    {
        ChatConfigBuilder { system_prompt_override: Some(prompt), ..self }
    }

    /// Installs a dynamic prompt resolver, which takes precedence over the static override.
    pub fn prompt_provider(self, provider: P) -> (b: Self)
        ensures
            b@ == (BuilderV { prompt_provider: Some(provider), ..self@ }),
    {
        ChatConfigBuilder { prompt_provider: Some(provider), ..self }
    }

    /// Installs a resolver of the widget's suggestions.
    pub fn suggestions_provider(self, provider: S) -> (b: Self)
        ensures
            b@ == (BuilderV { suggestions_provider: Some(provider), ..self@ }),
    {
        ChatConfigBuilder { suggestions_provider: Some(provider), ..self }
    }

    /// Whether the builder has some path to an API key: a static key or a resolver.
    pub fn has_key_source(&self) -> (r: bool)
        ensures
            r == (self@.openrouter_api_key is Some || self@.key_provider is Some),
    {
        self.openrouter_api_key.is_some() || self.key_provider.is_some()
    }

    /// Builds the configuration. There must be some path to an API key: a
    /// static key or a resolver (the key itself may still resolve to nothing).
    pub fn build(self) -> (c: ChatConfig<K, P, S>)
        requires
            self@.openrouter_api_key is Some || self@.key_provider is Some,
        ensures
            c@ == built(self@),
    {
        ChatConfig {
            openrouter_api_key: match self.openrouter_api_key {
                Some(k) => k,
                None => String::new(),
            },
            key_provider: self.key_provider,
            model: match self.model {
                Some(m) => m,
                None => String::from_str("google/gemma-4-26b-a4b-it"),
            },
            mcp_url: match self.mcp_url {
                Some(u) => u,
                None => String::from_str("https://mcsoftsolution.com/mcp"),
            },
            site_label: self.site_label,
            system_prompt_override: self.system_prompt_override,
            prompt_provider: self.prompt_provider,
            suggestions_provider: self.suggestions_provider,
        }
    }
}

/// A key resolver takes precedence over the static key: whatever static key
/// was set, a built configuration with a resolver uses the resolver's answer.
pub proof fn lemma_key_provider_precedence<K, P, S>(b: BuilderV<K, P, S>, answer: Option<Seq<char>>)
    requires
        b.key_provider is Some,
    ensures
        resolved_key(built(b), answer) == answer,
{
}

/// Without a resolver, the static key is used where it is non-empty, and an
/// empty or missing key resolves to nothing (chat then reports itself disabled).
pub proof fn lemma_static_key_resolution<K, P, S>(b: BuilderV<K, P, S>, answer: Option<Seq<char>>)
    requires
        b.key_provider is None,
    ensures
        resolved_key(built(b), answer) == match b.openrouter_api_key {
            Some(k) => if k.len() > 0 { Some(k) } else { None },
            None => None,
        },
{
}

/// The debug rendering never shows the API key or the prompt override: two
/// configurations that differ only in those texts (both set, or both unset,
/// and keys both non-empty or both empty) render the same.
pub proof fn lemma_debug_hides_secrets<K, P, S>(c: ConfigV<K, P, S>, key: Seq<char>, prompt: Option<Seq<char>>)
    requires
        (key.len() == 0) == (c.openrouter_api_key.len() == 0),
        prompt is Some == c.system_prompt_override is Some,
    ensures
        config_debug(ConfigV { openrouter_api_key: key, system_prompt_override: prompt, ..c }) == config_debug(c),
{
}

} // verus!
