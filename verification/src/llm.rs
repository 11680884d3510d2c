//! The data model of the remote completion service: chat messages,
//! tool schemas, and the response shape.  The HTTP transport itself is
//! the caller's part; this module holds the verified construction and
//! reading of the request and response values.

use vstd::prelude::*;
use vstd::string::StringExecFns;

verus! {

/// The remote completion model: the credential and the model choice.
pub struct ChatModel {
    /// The bearer credential for the service.
    pub api_key: String,
    /// Which completion model to address.
    pub model_key: ChatModelKey,
}

impl ChatModel {
    /// Binds a credential to a model choice.
    pub fn new(api_key: String, model_key: ChatModelKey) -> (r: ChatModel)
        ensures
            r.api_key@ == api_key@,
            r.model_key == model_key,
    {
        ChatModel { api_key, model_key }
    }

    /// A structural copy.
    pub fn duplicate(&self) -> (r: ChatModel)
        ensures
            r.api_key@ == self.api_key@,
            r.model_key == self.model_key,
    {
        ChatModel { api_key: self.api_key.clone(), model_key: self.model_key }
    }
}

/// The completion models the service offers.
#[derive(Clone, Copy, PartialEq, Eq, Structural, Debug)]
pub enum ChatModelKey {
    /// The faster, cheaper model.
    Gpt35Turbo,
    /// The stronger model.
    Gpt4,
}

/// The wire name of a model choice.
pub open spec fn spec_model_key_text(k: ChatModelKey) -> Seq<char> {
    match k {
        ChatModelKey::Gpt35Turbo => "gpt-3.5-turbo"@,
        ChatModelKey::Gpt4 => "gpt-4-0613"@,
    }
}

impl ChatModelKey {
    /// Writes the model choice the way the wire format spells it.
    pub fn key_text(&self) -> (r: String)
        ensures
            r@ == spec_model_key_text(*self),
    {
        match self {
            ChatModelKey::Gpt35Turbo => String::from_str("gpt-3.5-turbo"),
            ChatModelKey::Gpt4 => String::from_str("gpt-4-0613"),
        }
    }
}

/// A chat participant.
#[derive(Clone, Copy, PartialEq, Eq, Structural, Debug)]
pub enum Role {
    /// The system prompt.
    System,
    /// The user.
    User,
    /// The model.
    Assistant,
    /// A tool result.
    Tool,
}

/// The wire name of a role.
pub open spec fn spec_role_text(r: Role) -> Seq<char> {
    match r {
        Role::System => "system"@,
        Role::User => "user"@,
        Role::Assistant => "assistant"@,
        Role::Tool => "tool"@,
    }
}

impl Role {
    /// Writes the role the way the wire format spells it.
    pub fn role_text(&self) -> (r: String)
        ensures
            r@ == spec_role_text(*self),
    {
        match self {
            Role::System => String::from_str("system"),
            Role::User => String::from_str("user"),
            Role::Assistant => String::from_str("assistant"),
            Role::Tool => String::from_str("tool"),
        }
    }
}

/// One chat message.
pub struct Message {
    /// Who speaks.
    pub role: Role,
    /// What is said.
    pub content: String,
    /// The tool call this message answers, if any.
    pub tool_call_id: Option<String>,
}

/// One property of a tool schema.
pub struct Property {
    /// The JSON type name of the property.
    pub kind: String,
    /// The property's description.
    pub description: String,
}

/// The parameter schema of a tool.
pub struct Parameters {
    /// The JSON type name of the schema; an object.
    pub kind: String,
    /// The named properties, in order.
    pub properties: Vec<(String, Property)>,
    /// Which properties the model must fill.
    pub required: Vec<String>,
}

/// The function a tool exposes.
pub struct Function {
    /// The function name.
    pub name: String,
    /// What the function is for.
    pub description: String,
    /// The parameter schema.
    pub parameters: Parameters,
}

/// One tool offered to the model.
pub struct Tool {
    /// The tool kind; a function.
    pub kind: String,
    /// The function.
    pub function: Function,
}

/// The model's message in a response.
pub struct ResponseMessage {
    /// Who spoke.
    pub role: Role,
    /// Plain text content, if any.
    pub content: Option<String>,
    /// Tool calls, if any.
    pub tool_calls: Option<Vec<ToolCall>>,
}

/// One tool call of a response.
pub struct ToolCall {
    /// The call's identifier.
    pub id: String,
    /// The call kind; a function.
    pub kind: String,
    /// The called function and its arguments.
    pub function: FunctionCall,
}

/// The called function of a tool call.
pub struct FunctionCall {
    /// The function name.
    pub name: String,
    /// The arguments, as JSON text.
    pub arguments: String,
}

/// One choice of a response.
pub struct Choice {
    /// The message of this choice.
    pub message: ResponseMessage,
}

/// Token accounting of a response.
pub struct Usage {
    /// Tokens in the prompt.
    pub prompt_tokens: u32,
    /// Tokens in the completion.
    pub completion_tokens: u32,
    /// Both together.
    pub total_tokens: u32,
}

/// A whole response.
pub struct ChatResponse {
    /// The choices, best first.
    pub choices: Vec<Choice>,
    /// Token accounting.
    pub usage: Usage,
}

/// The failure of a completion call.
pub struct ChatError {
    /// What went wrong.
    pub message: String,
}

impl ChatError {
    /// A short diagnostic text.
    pub fn display_text(&self) -> (r: String)
        ensures
            r@ == "ChatError: "@ + self.message@,
    {
        let mut s = String::from_str("ChatError: ");
        s.append(self.message.as_str());
        s
    }
}

/// The first tool call of a response, where the response carries one:
/// the call that the classifiers read their verdict from.
pub fn first_tool_call(resp: &ChatResponse) -> (r: Option<&ToolCall>)
    ensures
        match r {
            Some(tc) => {
                &&& resp.choices@.len() > 0
                &&& resp.choices@[0].message.tool_calls matches Some(tcs)
                &&& tcs@.len() > 0
                &&& *tc == tcs@[0]
            },
            None => resp.choices@.len() == 0 || resp.choices@[0].message.tool_calls is None || (
            resp.choices@[0].message.tool_calls matches Some(tcs) && tcs@.len() == 0),
        },
{
    if resp.choices.len() == 0 {
        return None;
    }
    match &resp.choices[0].message.tool_calls {
        Some(tcs) => {
            if tcs.len() > 0 {
                Some(&tcs[0])
            } else {
                None
            }
        },
        None => None,
    }
}

} // verus!
