//! The local assistant: which endpoints it may be asked at, what it is asked and which answers
//! count.

use vstd::prelude::*;
use vstd::string::*;
use crate::links::{parsed_link, url_parse, Link, LinkTexts};
use crate::text::{same_text, trim, trim_end_of, trimmed, trimmed_end_of};

verus! {

/// How long the assistant's server may take for a reply.
pub const REPLY_SECONDS: u64 = 120;

/// One message of a conversation.
#[derive(Debug, PartialEq, Eq)]
pub struct ChatMessage {
    pub role: String,
    pub content: String,
}

impl ChatMessage {
    /// A message that `role` says.
    pub fn new(role: &str, content: &str) -> (r: Self)
        ensures
            r.role@ == role@,
            r.content@ == content@,
    {
        ChatMessage { role: role.to_string(), content: content.to_string() }
    }
}

impl Clone for ChatMessage {
    fn clone(&self) -> (r: Self)
        ensures
            r == *self,
    {
        ChatMessage { role: self.role.clone(), content: self.content.clone() }
    }
}

/// Why an endpoint is refused.
#[derive(Debug, Clone, Copy, PartialEq, Eq, Structural)]
pub enum EndpointError {
    /// It is no link.
    Invalid,
    /// It is a link to something else than a server on this machine.
    NotLocal,
}

impl EndpointError {
    /// The error in words.
    pub fn message(self) -> (r: &'static str)
        ensures
            r@ == match self {
                EndpointError::Invalid => "invalid Ollama endpoint"@,
                EndpointError::NotLocal => "only local Ollama endpoints are allowed"@,
            },
    {
        match self {
            EndpointError::Invalid => "invalid Ollama endpoint",
            EndpointError::NotLocal => "only local Ollama endpoints are allowed",
        }
    }
}

/// Whether a host name is one of this machine.
pub open spec fn is_loopback(host: Seq<char>) -> bool {
    ||| host == "127.0.0.1"@
    ||| host == "localhost"@
    ||| host == "::1"@
    ||| host == "[::1]"@
}

/// Whether a link leads to the root of a plain server on this machine, and says nothing more.
pub open spec fn is_local(link: LinkTexts) -> bool {
    &&& link.scheme == "http"@
    &&& link.host matches Some(host) && is_loopback(host)
    &&& link.username.len() == 0
    &&& link.password is None
    &&& link.path.len() == 0 || link.path == "/"@
    &&& link.query is None
    &&& link.fragment is None
}

/// Whether a link leads to the root of a plain server on this machine, and says nothing more.
pub fn is_local_endpoint(link: &Link) -> (r: bool)
    ensures
        r == is_local(link@),
{
    let on_this_machine = match &link.host {
        Some(host) => same_text(host, "127.0.0.1") || same_text(host, "localhost") || same_text(
            host,
            "::1",
        ) || same_text(host, "[::1]"),
        None => false,
    };
    same_text(&link.scheme, "http") && on_this_machine && link.username.as_str().is_empty()
        && link.password.is_none() && (link.path.as_str().is_empty() || same_text(&link.path, "/"))
        && link.query.is_none() && link.fragment.is_none()
}

/// What an endpoint leads to: the server's address without the slashes behind it, where `link` is
/// what was read from the endpoint.
pub open spec fn address_at(endpoint: Seq<char>, link: Option<LinkTexts>) -> Result<
    Seq<char>,
    EndpointError,
> {
    match link {
        None => Err(EndpointError::Invalid),
        Some(link) => if is_local(link) {
            Ok(trimmed_end_of(endpoint, "/"@))
        } else {
            Err(EndpointError::NotLocal)
        },
    }
}

/// The address that an endpoint leads to, with or without white space around it.
pub open spec fn address_in(endpoint: Seq<char>) -> Result<Seq<char>, EndpointError> {
    address_at(trimmed(endpoint), parsed_link(trimmed(endpoint)))
}

/// Nothing but a plain server on this machine is accepted, and every such server is.
pub proof fn only_this_machine_is_accepted(endpoint: Seq<char>, link: Option<LinkTexts>)
    ensures
        address_at(endpoint, link) is Ok <==> link is Some && is_local(link->0),
{
}

/// The assistant's server on this machine.
#[derive(Debug, Clone, PartialEq, Eq)]
pub struct OllamaClient {
    endpoint: String,
}

/// Where a server at an address lists its models.
pub open spec fn models_at(address: Seq<char>) -> Seq<char> {
    address + "/api/tags"@
}

/// Where a server at an address answers.
pub open spec fn chat_at(address: Seq<char>) -> Seq<char> {
    address + "/api/chat"@
}

impl OllamaClient {
    /// The address of the server.
    pub closed spec fn address(self) -> Seq<char> {
        self.endpoint@
    }

    /// The server at a trimmed endpoint, from which `link` was read.
    pub fn at(endpoint: &str, link: Option<Link>) -> (r: Result<Self, EndpointError>)
        ensures
            match r {
                Ok(client) => address_at(
                    endpoint@,
                    match link {
                        Some(link) => Some(link@),
                        None => None,
                    },
                ) == Ok::<Seq<char>, EndpointError>(client.address()),
                Err(error) => address_at(
                    endpoint@,
                    match link {
                        Some(link) => Some(link@),
                        None => None,
                    },
                ) == Err::<Seq<char>, EndpointError>(error),
            },
    {
        match link {
            None => Err(EndpointError::Invalid),
            Some(link) => if is_local_endpoint(&link) {
                Ok(OllamaClient { endpoint: trim_end_of(endpoint, "/").to_string() })
            } else {
                Err(EndpointError::NotLocal)
            },
        }
    }

    /// The server at an endpoint, with or without white space around it.
    pub fn new(endpoint: &str) -> (r: Result<Self, EndpointError>)
        ensures
            match r {
                Ok(client) => address_in(endpoint@) == Ok::<Seq<char>, EndpointError>(
                    client.address(),
                ),
                Err(error) => address_in(endpoint@) == Err::<Seq<char>, EndpointError>(error),
            },
    {
        let endpoint = trim(endpoint);
        let link = match url_parse(endpoint) {
            Ok(link) => Some(link),
            Err(_) => None,
        };
        OllamaClient::at(endpoint, link)
    }

    /// Where the server lists its models.
    pub fn models_url(&self) -> (r: String)
        ensures
            r@ == models_at(self.address()),
    {
        let mut url = self.endpoint.clone();
        url.append("/api/tags");
        url
    }

    /// Where the server answers.
    pub fn chat_url(&self) -> (r: String)
        ensures
            r@ == chat_at(self.address()),
    {
        let mut url = self.endpoint.clone();
        url.append("/api/chat");
        url
    }
}

/// What the server is asked.
#[derive(Debug, PartialEq, Eq)]
pub struct ChatRequest {
    pub model: String,
    pub messages: Vec<ChatMessage>,
    pub stream: bool,
    pub think: bool,
    pub keep_alive: String,
}

/// Whether a request asks a model these messages, for one whole answer without a train of thought,
/// after which the model stays loaded for ten minutes.
pub open spec fn requests(request: ChatRequest, model: Seq<char>, messages: Vec<ChatMessage>) -> bool {
    &&& request.model@ == model
    &&& request.messages == messages
    &&& !request.stream
    &&& !request.think
    &&& request.keep_alive@ == "10m"@
}

/// The request for one whole answer without a train of thought, after which the model stays loaded
/// for ten minutes.
pub fn chat_request(model: &str, messages: Vec<ChatMessage>) -> (r: ChatRequest)
    ensures
        requests(r, model@, messages),
{
    ChatRequest {
        model: model.to_string(),
        messages,
        stream: false,
        think: false,
        keep_alive: "10m".to_string(),
    }
}

/// Why an answer does not count.
#[derive(Debug, Clone, Copy, PartialEq, Eq, Structural)]
pub enum AnswerError {
    /// It holds nothing but white space.
    Empty,
}

impl AnswerError {
    /// The error in words.
    pub fn message(self) -> (r: &'static str)
        ensures
            r@ == "Ollama returned an empty answer"@,
    {
        "Ollama returned an empty answer"
    }
}

/// The answer, where it says anything.
pub open spec fn accepted(content: String) -> Result<String, AnswerError> {
    if trimmed(content@).len() == 0 {
        Err(AnswerError::Empty)
    } else {
        Ok(content)
    }
}

/// The answer, where it says anything.
pub fn accept_answer(content: String) -> (r: Result<String, AnswerError>)
    ensures
        r == accepted(content),
{
    if trim(&content).is_empty() {
        Err(AnswerError::Empty)
    } else {
        Ok(content)
    }
}

} // verus!
