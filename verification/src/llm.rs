//! Language models: a mock that answers without a server, and the request
//! and reply handling for a model served by Ollama.

use vstd::prelude::*;
use vstd::string::*;
use crate::error::AgentError;

verus! {

/// A language model for tests and development: it answers with a fixed
/// response when it has one, else with a text that quotes the prompt.
#[derive(Debug, Clone)]
pub struct MockLLM {
    name: String,
    model: String,
    response: Option<String>,
}

/// The answer of a mock model without a fixed response.
pub open spec fn mock_answer(prompt: Seq<char>) -> Seq<char> {
    "Mock response for prompt: '"@ + prompt + "'. This is a simulated LLM response."@
}

impl MockLLM {
    pub closed spec fn spec_name(&self) -> Seq<char> {
        self.name@
    }

    pub closed spec fn spec_model(&self) -> Seq<char> {
        self.model@
    }

    /// The fixed response, if any.
    pub closed spec fn spec_response(&self) -> Option<Seq<char>> {
        match self.response {
            Some(r) => Some(r@),
            None => None,
        }
    }

    pub fn new(name: &str, model: &str) -> (r: Self)
        ensures
            r.spec_name() == name@,
            r.spec_model() == model@,
            r.spec_response() == None::<Seq<char>>,
    {
        MockLLM { name: String::from_str(name), model: String::from_str(model), response: None }
    }

    /// The same model, answering every prompt with `response`.
    pub fn with_response(self, response: &str) -> (r: Self)
        ensures
            r.spec_name() == self.spec_name(),
            r.spec_model() == self.spec_model(),
            r.spec_response() == Some(response@),
    {
        MockLLM { response: Some(String::from_str(response)), ..self }
    }

    /// Answers a prompt: the fixed response when there is one, else a text
    /// quoting the prompt. It never fails.
    pub fn complete(&self, prompt: &str) -> (r: Result<String, AgentError>)
        ensures
            r matches Ok(s) && s@ == match self.spec_response() {
                Some(fixed) => fixed,
                None => mock_answer(prompt@),
            },
    {
        match &self.response {
            Some(fixed) => Ok(fixed.clone()),
            None => {
                let mut s = String::from_str("Mock response for prompt: '");
                s.append(prompt);
                s.append("'. This is a simulated LLM response.");
                Ok(s)
            },
        }
    }

    pub fn name(&self) -> (r: &str)
        ensures
            r@ == self.spec_name(),
    {
        self.name.as_str()
    }

    pub fn model(&self) -> (r: &str)
        ensures
            r@ == self.spec_model(),
    {
        self.model.as_str()
    }
}

impl Default for MockLLM {
    fn default() -> (r: Self)
        ensures
            r.spec_name() == "mock"@,
            r.spec_model() == "mock-model"@,
            r.spec_response() == None::<Seq<char>>,
    {
        MockLLM::new("mock", "mock-model")
    }
}

/// The body of a generation request to Ollama.
#[derive(Debug, Clone)]
pub struct OllamaRequest {
    pub model: String,
    pub prompt: String,
    pub stream: bool,
}

/// Where an Ollama model is served, and under which model name.
#[derive(Debug, Clone)]
pub struct OllamaEndpoint {
    name: String,
    model: String,
    base_url: String,
}

impl OllamaEndpoint {
    pub closed spec fn spec_name(&self) -> Seq<char> {
        self.name@
    }

    pub closed spec fn spec_model(&self) -> Seq<char> {
        self.model@
    }

    pub closed spec fn spec_base_url(&self) -> Seq<char> {
        self.base_url@
    }

    /// The endpoint of `model` served at `base_url`; the model is named `ollama`.
    pub fn new(base_url: &str, model: &str) -> (r: Self)
        ensures
            r.spec_name() == "ollama"@,
            r.spec_model() == model@,
            r.spec_base_url() == base_url@,
    {
        OllamaEndpoint {
            name: String::from_str("ollama"),
            model: String::from_str(model),
            base_url: String::from_str(base_url),
        }
    }

    pub fn name(&self) -> (r: &str)
        ensures
            r@ == self.spec_name(),
    {
        self.name.as_str()
    }

    pub fn model(&self) -> (r: &str)
        ensures
            r@ == self.spec_model(),
    {
        self.model.as_str()
    }

    /// The URL that generation requests are posted to.
    pub fn generate_url(&self) -> (r: String)
        ensures
            r@ == self.spec_base_url() + "/api/generate"@,
    {
        let mut s = self.base_url.clone();
        s.append("/api/generate");
        s
    }

    /// The request that asks the model to complete `prompt` in one reply.
    pub fn request(&self, prompt: &str) -> (r: OllamaRequest)
        ensures
            r.model@ == self.spec_model(),
            r.prompt@ == prompt@,
            !r.stream,
    {
        OllamaRequest { model: self.model.clone(), prompt: String::from_str(prompt), stream: false }
    }

    /// The error when the request could not be sent; `detail` is the
    /// transport's description of the failure.
    pub fn send_failure(detail: &str) -> (r: AgentError)
        ensures
            r matches AgentError::NetworkError(m) && m@ == "Failed to send request: "@ + detail@,
    {
        let mut m = String::from_str("Failed to send request: ");
        m.append(detail);
        AgentError::NetworkError(m)
    }

    /// Accepts a reply whose HTTP status is a success (200 to 299); any other
    /// status is refused with an error naming it (`status_text`, e.g.
    /// `404 Not Found`).
    pub fn check_status(code: u16, status_text: &str) -> (r: Result<(), AgentError>)
        ensures
            200 <= code <= 299 ==> r is Ok,
            !(200 <= code <= 299) ==> (r matches Err(AgentError::LlmError(m)) && m@
                == "Ollama API returned error: "@ + status_text@),
    {
        if 200 <= code && code <= 299 {
            Ok(())
        } else {
            let mut m = String::from_str("Ollama API returned error: ");
            m.append(status_text);
            Err(AgentError::LlmError(m))
        }
    }

    /// The error when the reply could not be read as a generation response.
    pub fn parse_failure(detail: &str) -> (r: AgentError)
        ensures
            r matches AgentError::LlmError(m) && m@ == "Failed to parse response: "@ + detail@,
    {
        let mut m = String::from_str("Failed to parse response: ");
        m.append(detail);
        AgentError::LlmError(m)
    }
}

} // verus!
