//! Binary classification over the remote completion service: the
//! request that a classifier sends, and the reading of the tool-call
//! arguments that come back.  The network call itself is the caller's
//! part; decoding the arguments JSON is delegated to an outside crate
//! behind one trusted wrapper.

use vstd::prelude::*;
use vstd::string::StringExecFns;

use crate::git::spec_opt_text;
use crate::llm::{ChatModel, Function, Message, Parameters, Property, Role, Tool};
use crate::prompts::{base_context_prompt, binary_classification_system_prompt,
    spec_base_context_prompt, spec_binary_classification_system_prompt};

verus! {

/// A binary classifier: given the tool-call arguments that came back
/// from the completion service, it decides whether the query
/// expresses its intent and extracts the value.  Each implementation
/// states what it promises of the verdict through `classify_post`.
pub trait BinaryClassifier<T>: Sized {
    /// What the implementation promises of a verdict.
    spec fn classify_post(&self, args: ToolArgs, r: BinaryClassificationResult<T>) -> bool;

    /// The verified decision over the returned arguments.
    fn classify_args(&self, args: &ToolArgs) -> (r: BinaryClassificationResult<T>)
        ensures
            self.classify_post(*args, r),
    ;
}

/// The verdict of a binary classifier: whether the query expresses
/// the intent, and the extracted value when it does.
pub struct BinaryClassificationResult<T> {
    /// Whether the intent was recognized.
    pub classification: bool,
    /// The extracted value, when the intent was recognized.
    pub content: Option<T>,
}

/// The arguments a classification tool call carries: the verdict and
/// the optional extracted fields.
pub struct ToolArgs {
    /// The verdict.
    pub classification: bool,
    /// The extracted author name, if any.
    pub author_name: Option<String>,
    /// The extracted lower date bound text, if any.
    pub since: Option<String>,
    /// The extracted upper date bound text, if any.
    pub until: Option<String>,
}

/// The argument fields that the JSON decoder reads out of a tool
/// call's argument text, or nothing where the text is not a JSON
/// object with a boolean `classification`.
pub uninterp spec fn tool_args_of(s: Seq<char>) -> Option<
    (bool, Option<Seq<char>>, Option<Seq<char>>, Option<Seq<char>>),
>;

/// Decodes a tool call's argument text.
///
/// Relies on `serde_json::from_str` to parse the text and on
/// `serde_json::Value::get`, `as_bool`, `as_str` and `is_null` to
/// read the `classification`, `author_name`, `since` and `until`
/// fields; the result depends on the text alone.
#[verifier::external_body]
fn parse_tool_args(s: &str) -> (r: Option<ToolArgs>)
    ensures
        r is Some <==> tool_args_of(s@) is Some,
        r matches Some(a) ==> tool_args_of(s@) == Some(
            (
                a.classification,
                spec_opt_text(a.author_name),
                spec_opt_text(a.since),
                spec_opt_text(a.until),
            ),
        ),
{
    let v: serde_json::Value = match serde_json::from_str(s) {
        Ok(v) => v,
        Err(_) => return None,
    };
    let classification = v.get("classification")?.as_bool()?;
    let author_name = match v.get("author_name") { Some(x) if !x.is_null() => Some(x.as_str()?.to_string()), _ => None };
    let since = match v.get("since") { Some(x) if !x.is_null() => Some(x.as_str()?.to_string()), _ => None };
    let until = match v.get("until") { Some(x) if !x.is_null() => Some(x.as_str()?.to_string()), _ => None };
    Some(ToolArgs { classification, author_name, since, until })
}

/// Decodes a tool call's argument text into classifier arguments; the
/// result is `Some` exactly where the decoder accepts the text.
pub fn parse_tool_arguments(s: &str) -> (r: Option<ToolArgs>)
    ensures
        r is Some <==> tool_args_of(s@) is Some,
        r matches Some(a) ==> tool_args_of(s@) == Some(
            (
                a.classification,
                spec_opt_text(a.author_name),
                spec_opt_text(a.since),
                spec_opt_text(a.until),
            ),
        ),
{
    parse_tool_args(s)
}

/// The system prompt of a classifier: the shared context, the task
/// prompt, and any additional information.
pub open spec fn spec_system_prompt(additional: Seq<char>) -> Seq<char> {
    spec_base_context_prompt() + seq!['\n', '\n'] + spec_binary_classification_system_prompt() + if additional.len()
        > 0 {
        "\n\n# Additional Information\n"@ + additional
    } else {
        Seq::empty()
    }
}

/// The fixed parts of one binary classifier: the model, the composed
/// system prompt, the instruction, and the classifier-specific result
/// properties of the tool schema.
pub struct LLMBinaryClassifierContext {
    /// Which completion model answers.
    pub model: ChatModel,
    /// The composed system prompt.
    pub system_prompt: String,
    /// The classifier's instruction.
    pub instruction: String,
    /// The classifier-specific result properties, in order.
    pub result_properties: Vec<(String, Property)>,
}

impl LLMBinaryClassifierContext {
    /// Composes a classifier context.
    pub fn new(
        model: ChatModel,
        instruction: String,
        additional_information: String,
        result_properties: Vec<(String, Property)>,
    ) -> (r: LLMBinaryClassifierContext)
        ensures
            r.model.api_key@ == model.api_key@,
            r.model.model_key == model.model_key,
            r.instruction@ == instruction@,
            r.result_properties == result_properties,
            r.system_prompt@ == spec_system_prompt(additional_information@),
    {
        let mut sp = String::from_str(base_context_prompt());
        sp.append("\n\n");
        sp.append(binary_classification_system_prompt());
        if additional_information.as_str().unicode_len() > 0 {
            sp.append("\n\n# Additional Information\n");
            sp.append(additional_information.as_str());
        }
        proof {
            reveal_strlit("\n\n");
            assert(sp@ =~= spec_system_prompt(additional_information@));
        }
        LLMBinaryClassifierContext { model, system_prompt: sp, instruction, result_properties }
    }

    /// Starts a builder.
    pub fn builder(model: ChatModel, instruction: String) -> (r: LLMBinaryClassifierContextBuilder)
        ensures
            r.model.api_key@ == model.api_key@,
            r.model.model_key == model.model_key,
            r.instruction@ == instruction@,
            r.additional_information@ == Seq::<char>::empty(),
            r.result_properties@ == Seq::<(String, Property)>::empty(),
    {
        LLMBinaryClassifierContextBuilder::new(model, instruction)
    }

    /// Builds the request of one classification call: the system and
    /// user messages, and the tool schema with the mandatory boolean
    /// `classification` property followed by the classifier's own
    /// properties, their descriptions marked as conditional.
    pub fn build_request(&self, query: &str) -> (r: (Vec<Message>, Tool))
        ensures
            r.0@.len() == 2,
            r.0@[0].role == Role::System,
            r.0@[0].content@ == self.system_prompt@,
            r.0@[0].tool_call_id is None,
            r.0@[1].role == Role::User,
            r.0@[1].content@ == "# User query\n"@ + query@ + "\n\n# Instruction\n"@
                + self.instruction@,
            r.0@[1].tool_call_id is None,
            r.1.kind@ == "function"@,
            r.1.function.name@ == "binary_classification"@,
            r.1.function.description@ == self.instruction@,
            r.1.function.parameters.kind@ == "object"@,
            r.1.function.parameters.required@.len() == 1,
            r.1.function.parameters.required@[0]@ == "classification"@,
            r.1.function.parameters.properties@.len() == 1 + self.result_properties@.len(),
            r.1.function.parameters.properties@[0].0@ == "classification"@,
            r.1.function.parameters.properties@[0].1.kind@ == "boolean"@,
            r.1.function.parameters.properties@[0].1.description@
                == "The binary classification derived from the context and instruction"@,
            forall|i: int|
                0 <= i < self.result_properties@.len() ==> {
                    &&& (#[trigger] r.1.function.parameters.properties@[i + 1]).0@
                        == self.result_properties@[i].0@
                    &&& r.1.function.parameters.properties@[i + 1].1.kind@
                        == self.result_properties@[i].1.kind@
                    &&& r.1.function.parameters.properties@[i + 1].1.description@
                        == self.result_properties@[i].1.description@
                        + " (if classification == true)"@
                },
    {
        let mut properties: Vec<(String, Property)> = Vec::new();
        properties.push(
            (
                String::from_str("classification"),
                Property {
                    kind: String::from_str("boolean"),
                    description: String::from_str(
                        "The binary classification derived from the context and instruction",
                    ),
                },
            ),
        );
        let mut i: usize = 0;
        while i < self.result_properties.len()
            invariant
                i <= self.result_properties@.len(),
                properties@.len() == 1 + i,
                properties@[0].0@ == "classification"@,
                properties@[0].1.kind@ == "boolean"@,
                properties@[0].1.description@
                    == "The binary classification derived from the context and instruction"@,
                forall|m: int|
                    0 <= m < i ==> {
                        &&& (#[trigger] properties@[m + 1]).0@ == self.result_properties@[m].0@
                        &&& properties@[m + 1].1.kind@ == self.result_properties@[m].1.kind@
                        &&& properties@[m + 1].1.description@
                            == self.result_properties@[m].1.description@
                            + " (if classification == true)"@
                    },
            decreases self.result_properties@.len() - i,
        {
            let entry = &self.result_properties[i];
            let mut desc = entry.1.description.clone();
            desc.append(" (if classification == true)");
            proof {
                reveal_strlit(" (if classification == true)");
            }
            properties.push(
                (entry.0.clone(), Property { kind: entry.1.kind.clone(), description: desc }),
            );
            i += 1;
        }
        let tool = Tool {
            kind: String::from_str("function"),
            function: Function {
                name: String::from_str("binary_classification"),
                description: self.instruction.clone(),
                parameters: Parameters {
                    kind: String::from_str("object"),
                    properties,
                    required: vec![String::from_str("classification")],
                },
            },
        };
        let mut user = String::from_str("# User query\n");
        user.append(query);
        user.append("\n\n# Instruction\n");
        user.append(self.instruction.as_str());
        let messages: Vec<Message> = vec![
            Message {
                role: Role::System,
                content: self.system_prompt.clone(),
                tool_call_id: None,
            },
            Message { role: Role::User, content: user, tool_call_id: None },
        ];
        (messages, tool)
    }
}

/// Builds a classifier context from optional parts.
pub struct LLMBinaryClassifierContextBuilder {
    /// Which completion model answers.
    pub model: ChatModel,
    /// The classifier's instruction.
    pub instruction: String,
    /// Extra prompt material, empty by default.
    pub additional_information: String,
    /// The classifier-specific result properties gathered so far.
    pub result_properties: Vec<(String, Property)>,
}

impl LLMBinaryClassifierContextBuilder {
    /// Starts from a model and an instruction.
    pub fn new(model: ChatModel, instruction: String) -> (r: LLMBinaryClassifierContextBuilder)
        ensures
            r.model.api_key@ == model.api_key@,
            r.model.model_key == model.model_key,
            r.instruction@ == instruction@,
            r.additional_information@ == Seq::<char>::empty(),
            r.result_properties@ == Seq::<(String, Property)>::empty(),
    {
        LLMBinaryClassifierContextBuilder {
            model,
            instruction,
            result_properties: Vec::new(),
            additional_information: String::new(),
        }
    }

    /// Adds one result property.
    pub fn result_property(self, result_property: (String, Property)) -> (r:
        LLMBinaryClassifierContextBuilder)
        ensures
            r.model.api_key@ == self.model.api_key@,
            r.model.model_key == self.model.model_key,
            r.instruction@ == self.instruction@,
            r.additional_information@ == self.additional_information@,
            r.result_properties@ == self.result_properties@.push(result_property),
    {
        let mut rp = self.result_properties;
        rp.push(result_property);
        LLMBinaryClassifierContextBuilder {
            model: self.model,
            instruction: self.instruction,
            additional_information: self.additional_information,
            result_properties: rp,
        }
    }

    /// Replaces the additional prompt material.
    pub fn additional_information(self, additional_information: String) -> (r:
        LLMBinaryClassifierContextBuilder)
        ensures
            r.model.api_key@ == self.model.api_key@,
            r.model.model_key == self.model.model_key,
            r.instruction@ == self.instruction@,
            r.additional_information@ == additional_information@,
            r.result_properties == self.result_properties,
    {
        LLMBinaryClassifierContextBuilder {
            model: self.model,
            instruction: self.instruction,
            additional_information,
            result_properties: self.result_properties,
        }
    }

    /// Finishes the context.
    pub fn build(self) -> (r: LLMBinaryClassifierContext)
        ensures
            r.model.api_key@ == self.model.api_key@,
            r.model.model_key == self.model.model_key,
            r.instruction@ == self.instruction@,
            r.result_properties == self.result_properties,
            r.system_prompt@ == spec_system_prompt(self.additional_information@),
    {
        LLMBinaryClassifierContext::new(
            self.model,
            self.instruction,
            self.additional_information,
            self.result_properties,
        )
    }
}

} // verus!
