//! The address of the semantic model: telling the kind of interface from
//! an address, completing an address, and taking one apart again.

use vstd::prelude::*;
use crate::text::{
    contains, contains_text, ends_with, ends_with_text, find, find_chars, same_text, starts_with,
    starts_with_text, trim_trailing, trim_trailing_text, trim_text, trimmed, chars_of,
    text_of_range,
};

verus! {

/// The interface that an address is called through.
#[derive(Debug, Clone, Copy, PartialEq, Eq, Structural)]
pub enum AiApiKind {
    OllamaGenerate,
    OpenAIChatCompletions,
    OpenAIResponses,
}

/// Why an address cannot be used.
#[derive(Debug, Clone, Copy, PartialEq, Eq, Structural)]
pub enum EndpointError {
    /// The address is empty.
    Empty,
}

impl EndpointError {
    /// The error in words.
    pub fn message(&self) -> (r: String)
        ensures
            r@ == "AI API端点为空"@,
    {
        String::from_str("AI API端点为空")
    }
}

/// The address as it is worked on: without white space at its ends and
/// without slashes at its end.
pub open spec fn cleaned(raw: Seq<char>) -> Seq<char> {
    trim_trailing(trimmed(raw), '/')
}

/// Whether an address looks like one of Ollama.
pub open spec fn looks_like_ollama(e: Seq<char>) -> bool {
    contains(e, "11434"@) || contains(e, "ollama"@)
}

/// The interface and the full address that a cleaned address stands for.
/// An Ollama host is completed to its generate call, a base address that
/// ends in `/v1` to its chat completions, and the bare OpenAI host to
/// `/v1/chat/completions`; any other address is taken as a complete chat
/// completions address.
pub open spec fn completed(e: Seq<char>) -> (AiApiKind, Seq<char>) {
    if looks_like_ollama(e) {
        if contains(e, "/api/generate"@) {
            (AiApiKind::OllamaGenerate, e)
        } else {
            (AiApiKind::OllamaGenerate, e + "/api/generate"@)
        }
    } else if contains(e, "/v1/responses"@) {
        (AiApiKind::OpenAIResponses, e)
    } else if contains(e, "/v1/chat/completions"@) || contains(e, "/chat/completions"@) {
        (AiApiKind::OpenAIChatCompletions, e)
    } else if ends_with(e, "/v1"@) || ends_with(e, "compatible-mode/v1"@) {
        (AiApiKind::OpenAIChatCompletions, e + "/chat/completions"@)
    } else if contains(e, "api.openai.com"@) && !contains(e, "/v1"@) {
        (AiApiKind::OpenAIChatCompletions, e + "/v1/chat/completions"@)
    } else {
        (AiApiKind::OpenAIChatCompletions, e)
    }
}

/// The interface and the full address that a configured address stands
/// for; nothing for an address that is empty but for white space.
pub open spec fn normalized(raw: Seq<char>) -> Option<(AiApiKind, Seq<char>)> {
    if trimmed(raw).len() == 0 {
        None
    } else {
        Some(completed(cleaned(raw)))
    }
}

fn followed_by(text: &str, suffix: &str) -> (r: String)
    ensures
        r@ == text@ + suffix@,
{
    let mut out = String::from_str(text);
    out.append(suffix);
    out
}

/// Tells the interface of a cleaned address and completes the address.
pub fn complete_endpoint(e: &str) -> (r: (AiApiKind, String))
    ensures
        (r.0, r.1@) == completed(e@),
{
    if contains_text(e, "11434") || contains_text(e, "ollama") {
        if contains_text(e, "/api/generate") {
            return (AiApiKind::OllamaGenerate, String::from_str(e));
        }
        return (AiApiKind::OllamaGenerate, followed_by(e, "/api/generate"));
    }
    if contains_text(e, "/v1/responses") {
        return (AiApiKind::OpenAIResponses, String::from_str(e));
    }
    if contains_text(e, "/v1/chat/completions") || contains_text(e, "/chat/completions") {
        return (AiApiKind::OpenAIChatCompletions, String::from_str(e));
    }
    if ends_with_text(e, "/v1") || ends_with_text(e, "compatible-mode/v1") {
        return (AiApiKind::OpenAIChatCompletions, followed_by(e, "/chat/completions"));
    }
    if contains_text(e, "api.openai.com") && !contains_text(e, "/v1") {
        return (AiApiKind::OpenAIChatCompletions, followed_by(e, "/v1/chat/completions"));
    }
    (AiApiKind::OpenAIChatCompletions, String::from_str(e))
}

/// Tells the interface of a configured address and completes the address.
pub fn normalize_ai_endpoint(api_endpoint: &str) -> (r: Result<(AiApiKind, String), EndpointError>)
    ensures
        match r {
            Ok((kind, address)) => normalized(api_endpoint@) == Some((kind, address@)),
            Err(e) => normalized(api_endpoint@) is None && e == EndpointError::Empty,
        },
{
    let raw = trim_text(api_endpoint);
    if chars_of(raw.as_str()).len() == 0 {
        return Err(EndpointError::Empty);
    }
    let endpoint = trim_trailing_text(raw.as_str(), '/');
    Ok(complete_endpoint(endpoint.as_str()))
}

/// The kind of interface that the settings offer.
#[derive(Debug, Clone, Copy, PartialEq, Eq, Structural)]
pub enum ApiInterfaceKind {
    Ollama,
    OpenAIChatCompletions,
    OpenAIResponses,
    Custom,
}

impl ApiInterfaceKind {
    /// The name under which the kind is shown.
    pub fn label(&self) -> (r: &'static str)
        ensures
            r@ == match self {
                ApiInterfaceKind::Ollama => "Ollama（/api/generate）"@,
                ApiInterfaceKind::OpenAIChatCompletions => "OpenAI Chat Completions（/v1/chat/completions）"@,
                ApiInterfaceKind::OpenAIResponses => "OpenAI Responses（/v1/responses）"@,
                ApiInterfaceKind::Custom => "自定义（完整URL）"@,
            },
    {
        match self {
            ApiInterfaceKind::Ollama => "Ollama（/api/generate）",
            ApiInterfaceKind::OpenAIChatCompletions => "OpenAI Chat Completions（/v1/chat/completions）",
            ApiInterfaceKind::OpenAIResponses => "OpenAI Responses（/v1/responses）",
            ApiInterfaceKind::Custom => "自定义（完整URL）",
        }
    }

    /// The path that calls of this kind end in; none for a custom kind.
    pub open spec fn suffix_text(self) -> Option<Seq<char>> {
        match self {
            ApiInterfaceKind::Ollama => Some("/api/generate"@),
            ApiInterfaceKind::OpenAIChatCompletions => Some("/v1/chat/completions"@),
            ApiInterfaceKind::OpenAIResponses => Some("/v1/responses"@),
            ApiInterfaceKind::Custom => None,
        }
    }

    /// The path that calls of this kind end in; none for a custom kind.
    pub fn standard_suffix(&self) -> (r: Option<&'static str>)
        ensures
            match r {
                Some(s) => self.suffix_text() == Some(s@),
                None => self.suffix_text() is None,
            },
    {
        match self {
            ApiInterfaceKind::Ollama => Some("/api/generate"),
            ApiInterfaceKind::OpenAIChatCompletions => Some("/v1/chat/completions"),
            ApiInterfaceKind::OpenAIResponses => Some("/v1/responses"),
            ApiInterfaceKind::Custom => None,
        }
    }
}

/// Whether an address ends in the standard path of its kind or in one of
/// the user's own.
#[derive(Debug, Clone, Copy, PartialEq, Eq, Structural)]
pub enum UrlSuffixMode {
    Standard,
    Custom,
}

/// An address in parts, as a value.
pub struct PartsView {
    pub kind: ApiInterfaceKind,
    pub base: Seq<char>,
    pub mode: UrlSuffixMode,
    pub suffix: Seq<char>,
}

/// An address in parts: the kind of interface, the base address, and the
/// path behind it.
#[derive(Debug)]
pub struct EndpointParts {
    pub kind: ApiInterfaceKind,
    pub base: String,
    pub mode: UrlSuffixMode,
    pub suffix: String,
}

impl View for EndpointParts {
    type V = PartsView;

    open spec fn view(&self) -> PartsView {
        PartsView { kind: self.kind, base: self.base@, mode: self.mode, suffix: self.suffix@ }
    }
}

/// The mode of a path: standard where it is the expected one.
pub open spec fn mode_of(suffix: Seq<char>, standard: Seq<char>) -> UrlSuffixMode {
    if suffix == standard {
        UrlSuffixMode::Standard
    } else {
        UrlSuffixMode::Custom
    }
}

/// An address cut at the first occurrence of a marker, where there is one.
pub open spec fn cut_at(e: Seq<char>, marker: Seq<char>) -> Option<(Seq<char>, Seq<char>)> {
    match find(e, marker) {
        Some(k) => Some((e.subrange(0, k), e.subrange(k, e.len() as int))),
        None => None,
    }
}

/// The parts of a cleaned address. An empty address stands for the local
/// Ollama. An Ollama address is cut at `/api/`, any other at `/v1/` or,
/// failing that, at `/chat/completions`; an address that cannot be cut is a
/// custom one and is kept whole.
pub open spec fn parts_of_cleaned(e: Seq<char>) -> PartsView {
    if e.len() == 0 {
        PartsView {
            kind: ApiInterfaceKind::Ollama,
            base: "http://localhost:11434"@,
            mode: UrlSuffixMode::Standard,
            suffix: "/api/generate"@,
        }
    } else if looks_like_ollama(e) {
        match cut_at(e, "/api/"@) {
            Some((base, suffix)) => PartsView {
                kind: ApiInterfaceKind::Ollama,
                base,
                mode: mode_of(suffix, "/api/generate"@),
                suffix,
            },
            None => PartsView {
                kind: ApiInterfaceKind::Ollama,
                base: e,
                mode: UrlSuffixMode::Standard,
                suffix: "/api/generate"@,
            },
        }
    } else {
        match cut_at(e, "/v1/"@) {
            Some((base, suffix)) => if starts_with(suffix, "/v1/chat/completions"@) {
                PartsView {
                    kind: ApiInterfaceKind::OpenAIChatCompletions,
                    base,
                    mode: mode_of(suffix, "/v1/chat/completions"@),
                    suffix,
                }
            } else if starts_with(suffix, "/v1/responses"@) {
                PartsView {
                    kind: ApiInterfaceKind::OpenAIResponses,
                    base,
                    mode: mode_of(suffix, "/v1/responses"@),
                    suffix,
                }
            } else {
                PartsView {
                    kind: ApiInterfaceKind::OpenAIChatCompletions,
                    base,
                    mode: UrlSuffixMode::Custom,
                    suffix,
                }
            },
            None => match cut_at(e, "/chat/completions"@) {
                Some((base, suffix)) => PartsView {
                    kind: ApiInterfaceKind::OpenAIChatCompletions,
                    base,
                    mode: UrlSuffixMode::Custom,
                    suffix,
                },
                None => PartsView {
                    kind: ApiInterfaceKind::Custom,
                    base: e,
                    mode: UrlSuffixMode::Custom,
                    suffix: Seq::empty(),
                },
            },
        }
    }
}

/// The parts of an address.
pub open spec fn parts_of(endpoint: Seq<char>) -> PartsView {
    parts_of_cleaned(cleaned(endpoint))
}

fn cut(e: &str, marker: &str) -> (r: Option<(String, String)>)
    ensures
        match r {
            Some((a, b)) => cut_at(e@, marker@) == Some((a@, b@)),
            None => cut_at(e@, marker@) is None,
        },
{
    let ev = chars_of(e);
    let mv = chars_of(marker);
    match find_chars(&ev, &mv) {
        Some(k) => Some((text_of_range(&ev, 0, k), text_of_range(&ev, k, ev.len()))),
        None => None,
    }
}

fn mode_for(suffix: &str, standard: &str) -> (r: UrlSuffixMode)
    ensures
        r == mode_of(suffix@, standard@),
{
    if same_text(suffix, standard) {
        UrlSuffixMode::Standard
    } else {
        UrlSuffixMode::Custom
    }
}

/// Takes a cleaned address apart.
pub fn split_cleaned(e: &str) -> (r: EndpointParts)
    ensures
        r@ == parts_of_cleaned(e@),
{
    if chars_of(e).len() == 0 {
        return EndpointParts {
            kind: ApiInterfaceKind::Ollama,
            base: String::from_str("http://localhost:11434"),
            mode: UrlSuffixMode::Standard,
            suffix: String::from_str("/api/generate"),
        };
    }
    if contains_text(e, "11434") || contains_text(e, "ollama") {
        return match cut(e, "/api/") {
            Some((base, suffix)) => {
                let mode = mode_for(suffix.as_str(), "/api/generate");
                EndpointParts { kind: ApiInterfaceKind::Ollama, base, mode, suffix }
            },
            None => EndpointParts {
                kind: ApiInterfaceKind::Ollama,
                base: String::from_str(e),
                mode: UrlSuffixMode::Standard,
                suffix: String::from_str("/api/generate"),
            },
        };
    }
    match cut(e, "/v1/") {
        Some((base, suffix)) => {
            if starts_with_text(suffix.as_str(), "/v1/chat/completions") {
                let mode = mode_for(suffix.as_str(), "/v1/chat/completions");
                EndpointParts { kind: ApiInterfaceKind::OpenAIChatCompletions, base, mode, suffix }
            } else if starts_with_text(suffix.as_str(), "/v1/responses") {
                let mode = mode_for(suffix.as_str(), "/v1/responses");
                EndpointParts { kind: ApiInterfaceKind::OpenAIResponses, base, mode, suffix }
            } else {
                EndpointParts {
                    kind: ApiInterfaceKind::OpenAIChatCompletions,
                    base,
                    mode: UrlSuffixMode::Custom,
                    suffix,
                }
            }
        },
        None => match cut(e, "/chat/completions") {
            Some((base, suffix)) => EndpointParts {
                kind: ApiInterfaceKind::OpenAIChatCompletions,
                base,
                mode: UrlSuffixMode::Custom,
                suffix,
            },
            None => EndpointParts {
                kind: ApiInterfaceKind::Custom,
                base: String::from_str(e),
                mode: UrlSuffixMode::Custom,
                suffix: String::new(),
            },
        },
    }
}

/// Takes an address apart.
pub fn split_endpoint(endpoint: &str) -> (r: EndpointParts)
    ensures
        r@ == parts_of(endpoint@),
{
    let raw = trim_text(endpoint);
    let cleaned = trim_trailing_text(raw.as_str(), '/');
    split_cleaned(cleaned.as_str())
}

/// The path that is put behind the base address.
pub open spec fn chosen_suffix(parts: PartsView) -> Seq<char> {
    match parts.mode {
        UrlSuffixMode::Standard => match parts.kind.suffix_text() {
            Some(s) => s,
            None => Seq::empty(),
        },
        UrlSuffixMode::Custom => trimmed(parts.suffix),
    }
}

/// A base address and a path put together: the base alone for a custom
/// kind or an empty path, else the base followed by the path, with a slash
/// between them where the path brings none. Without a base there is no
/// address.
pub open spec fn put_together(kind: ApiInterfaceKind, base: Seq<char>, suffix: Seq<char>) -> Seq<
    char,
> {
    if base.len() == 0 {
        Seq::empty()
    } else if kind == ApiInterfaceKind::Custom || suffix.len() == 0 {
        base
    } else if suffix[0] == '/' {
        base + suffix
    } else {
        base.push('/') + suffix
    }
}

/// The address that the parts stand for: the cleaned base address put
/// together with the chosen path.
pub open spec fn assembled(parts: PartsView) -> Seq<char> {
    put_together(parts.kind, cleaned(parts.base), chosen_suffix(parts))
}

/// Puts a base address and a path together.
pub fn join_address(kind: ApiInterfaceKind, base: &str, suffix: &str) -> (r: String)
    ensures
        r@ == put_together(kind, base@, suffix@),
{
    if chars_of(base).len() == 0 {
        return String::new();
    }
    if kind == ApiInterfaceKind::Custom {
        return String::from_str(base);
    }
    let sv = chars_of(suffix);
    if sv.len() == 0 {
        return String::from_str(base);
    }
    let mut out = String::from_str(base);
    if sv[0] != '/' {
        crate::text::push_char(&mut out, '/');
    }
    out.append(suffix);
    out
}

/// Puts an address together from its parts.
pub fn effective_endpoint(parts: &EndpointParts) -> (r: String)
    ensures
        r@ == assembled(parts@),
{
    let raw = trim_text(parts.base.as_str());
    let base = trim_trailing_text(raw.as_str(), '/');
    let suffix = match parts.mode {
        UrlSuffixMode::Standard => match parts.kind.standard_suffix() {
            Some(s) => String::from_str(s),
            None => String::new(),
        },
        UrlSuffixMode::Custom => trim_text(parts.suffix.as_str()),
    };
    join_address(parts.kind, base.as_str(), suffix.as_str())
}

} // verus!
