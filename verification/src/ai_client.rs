//! The local model client's rules: its configuration, the refusal of any
//! server that is not local, the translation prompt, and reading a reply.
use vstd::prelude::*;

use crate::text::{concat, concat3, eq_ignore_ascii_case, eq_ignore_ascii_case_spec, owned, same, trim, trim_spec};

verus! {

/// Where the local model server listens, and which model it runs.
pub struct OllamaClientConfig {
    pub base_url: String,
    pub model: String,
}

impl OllamaClientConfig {
    /// The configuration from the values of `OLLAMA_BASE_URL` and
    /// `OLLAMA_MODEL`, each replaced by its default when unset.
    pub fn from_env_values(base_url: Option<String>, model: Option<String>) -> (out: Self)
        ensures
            out.base_url@ == (match base_url {
                Some(b) => b@,
                None => "http://localhost:11434"@,
            }),
            out.model@ == (match model {
                Some(m) => m@,
                None => "llama3.2"@,
            }),
    {
        let base_url = match base_url {
            Some(b) => b,
            None => owned("http://localhost:11434"),
        };
        let model = match model {
            Some(m) => m,
            None => owned("llama3.2"),
        };
        OllamaClientConfig { base_url, model }
    }
}

/// What `url::Url::parse` makes of a text: the URL's scheme, its host as
/// `host_str` gives it, and its serialization; none when it is no URL.
pub uninterp spec fn url_parts(text: Seq<char>) -> Option<(Seq<char>, Option<Seq<char>>, Seq<char>)>;

pub open spec fn parts_view(p: Option<(String, Option<String>, String)>) -> Option<
    (Seq<char>, Option<Seq<char>>, Seq<char>),
> {
    match p {
        Some((s, h, u)) => Some(
            (
                s@,
                match h {
                    Some(x) => Some(x@),
                    None => None,
                },
                u@,
            ),
        ),
        None => None,
    }
}

/// `url::Url::parse`, read back as scheme, host and serialization. The
/// contract names the result and says nothing of how the parser reads a text.
#[verifier::external_body]
fn parse_url(text: &str) -> (out: Option<(String, Option<String>, String)>)
    ensures
        parts_view(out) == url_parts(text@),
{
    match url::Url::parse(text) {
        Ok(u) => Some((u.scheme().to_string(), u.host_str().map(|h| h.to_string()), u.as_str().to_string())),
        Err(_) => None,
    }
}

/// Why a base URL was refused.
pub enum BaseUrlError {
    Invalid { base_url: String },
    UnsupportedScheme { scheme: String },
    MissingHost,
    NonLocalHost { host: String },
}

/// The kind of a [`BaseUrlError`], with the text it quotes.
pub enum BaseUrlFault {
    Invalid(Seq<char>),
    UnsupportedScheme(Seq<char>),
    MissingHost,
    NonLocalHost(Seq<char>),
}

pub open spec fn base_url_fault(e: BaseUrlError) -> BaseUrlFault {
    match e {
        BaseUrlError::Invalid { base_url } => BaseUrlFault::Invalid(base_url@),
        BaseUrlError::UnsupportedScheme { scheme } => BaseUrlFault::UnsupportedScheme(scheme@),
        BaseUrlError::MissingHost => BaseUrlFault::MissingHost,
        BaseUrlError::NonLocalHost { host } => BaseUrlFault::NonLocalHost(host@),
    }
}

impl BaseUrlError {
    /// The error's message.
    pub fn message(&self) -> (out: String)
        ensures
            out@ == (match base_url_fault(*self) {
                BaseUrlFault::Invalid(b) => "Invalid OLLAMA_BASE_URL: "@ + b,
                BaseUrlFault::UnsupportedScheme(s) => "Unsupported scheme '"@ + s
                    + "' for OLLAMA_BASE_URL (use http://localhost:11434)"@,
                BaseUrlFault::MissingHost => "OLLAMA_BASE_URL is missing a host"@,
                BaseUrlFault::NonLocalHost(h) => "Refusing non-local OLLAMA_BASE_URL host '"@ + h
                    + "'. This project only uses local Ollama (use http://localhost:11434)."@,
            }),
    {
        match self {
            BaseUrlError::Invalid { base_url } => concat("Invalid OLLAMA_BASE_URL: ", base_url.as_str()),
            BaseUrlError::UnsupportedScheme { scheme } => concat3(
                "Unsupported scheme '",
                scheme.as_str(),
                "' for OLLAMA_BASE_URL (use http://localhost:11434)",
            ),
            BaseUrlError::MissingHost => owned("OLLAMA_BASE_URL is missing a host"),
            BaseUrlError::NonLocalHost { host } => concat3(
                "Refusing non-local OLLAMA_BASE_URL host '",
                host.as_str(),
                "'. This project only uses local Ollama (use http://localhost:11434).",
            ),
        }
    }
}

/// A host the client may talk to: `localhost` in any ASCII case,
/// `127.0.0.1` or `::1`.
pub open spec fn is_local_host_spec(host: Seq<char>) -> bool {
    eq_ignore_ascii_case_spec(host, "localhost"@) || host == "127.0.0.1"@ || host == "::1"@
}

pub fn is_local_host(host: &str) -> (r: bool)
    ensures
        r == is_local_host_spec(host@),
{
    eq_ignore_ascii_case(host, "localhost") || same(host, "127.0.0.1") || same(host, "::1")
}

/// The verdict on a base URL, given what the URL parser made of it: its
/// serialization when it is an `http` URL with a local host.
pub open spec fn base_url_verdict(
    base_url: Seq<char>,
    parts: Option<(Seq<char>, Option<Seq<char>>, Seq<char>)>,
) -> Result<Seq<char>, BaseUrlFault> {
    match parts {
        None => Err(BaseUrlFault::Invalid(base_url)),
        Some((scheme, host, href)) => if scheme != "http"@ {
            Err(BaseUrlFault::UnsupportedScheme(scheme))
        } else {
            match host {
                None => Err(BaseUrlFault::MissingHost),
                Some(h) => if is_local_host_spec(h) {
                    Ok(href)
                } else {
                    Err(BaseUrlFault::NonLocalHost(h))
                },
            }
        },
    }
}

pub open spec fn verdict_of(out: Result<String, BaseUrlError>) -> Result<Seq<char>, BaseUrlFault> {
    match out {
        Ok(u) => Ok(u@),
        Err(e) => Err(base_url_fault(e)),
    }
}

/// Judges a base URL from the parser's reading of it.
pub fn judge_base_url(base_url: &str, parts: Option<(String, Option<String>, String)>) -> (out: Result<
    String,
    BaseUrlError,
>)
    ensures
        verdict_of(out) == base_url_verdict(base_url@, parts_view(parts)),
{
    match parts {
        None => Err(BaseUrlError::Invalid { base_url: owned(base_url) }),
        Some((scheme, host, href)) => {
            if !same(scheme.as_str(), "http") {
                return Err(BaseUrlError::UnsupportedScheme { scheme });
            }
            match host {
                None => Err(BaseUrlError::MissingHost),
                Some(h) => if is_local_host(h.as_str()) {
                    Ok(href)
                } else {
                    Err(BaseUrlError::NonLocalHost { host: h })
                },
            }
        },
    }
}

/// Accepts only a local `http` base URL, and gives back the parsed URL's
/// serialization.
pub fn validate_local_base_url(base_url: &str) -> (out: Result<String, BaseUrlError>)
    ensures
        verdict_of(out) == base_url_verdict(base_url@, url_parts(base_url@)),
{
    let parts = parse_url(base_url);
    judge_base_url(base_url, parts)
}

/// The system prompt of a translation into `target_language`.
pub fn translation_prompt(target_language: &str) -> (out: String)
    ensures
        out@ == "You are a translation engine. Translate the user's text to "@ + target_language@
            + ". Return only the translated text and nothing else."@,
{
    concat3(
        "You are a translation engine. Translate the user's text to ",
        target_language,
        ". Return only the translated text and nothing else.",
    )
}

/// The reply of a chat: the message content, trimmed; an error when the
/// response carried no message.
pub fn chat_reply(content: Option<String>) -> (out: Result<String, String>)
    ensures
        match content {
            Some(c) => out matches Ok(t) && t@ == trim_spec(c@),
            None => out matches Err(m) && m@ == "Ollama response had no message content"@,
        },
{
    match content {
        Some(c) => Ok(trim(c.as_str())),
        None => Err(owned("Ollama response had no message content")),
    }
}

/// A parsed URL with scheme `http` and a local host.
pub open spec fn local_http(parts: Option<(Seq<char>, Option<Seq<char>>, Seq<char>)>) -> bool {
    match parts {
        Some((scheme, Some(host), _)) => scheme == "http"@ && is_local_host_spec(host),
        _ => false,
    }
}

/// The client only ever accepts a base URL whose host is local: whatever the
/// parser makes of a text, an accepted URL is `http` with host `localhost`
/// (any ASCII case), `127.0.0.1` or `::1`.
pub proof fn lemma_only_local_accepted(
    base_url: Seq<char>,
    parts: Option<(Seq<char>, Option<Seq<char>>, Seq<char>)>,
)
    ensures
        base_url_verdict(base_url, parts) is Ok ==> local_http(parts),
{
}

} // verus!
