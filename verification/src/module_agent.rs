//! The module Agent adapter's own rules: which module requests reach the
//! Agent task gateway, and how admitted untrusted context is framed for the
//! Provider.
//!
//! The gateway's admission and the untrusted-context admission belong to the
//! Agent runtime; this module checks a request before them and builds the
//! messages after them.
use crate::text::is_blank;
use crate::text::blank;
use vstd::prelude::*;
use vstd::string::{StringExecFns, StringSliceAdditionalSpecFns};
use vstd::utf8::encode_utf8;

verus! {

/// Largest module instruction, in UTF-8 bytes.
pub const MAX_INSTRUCTION_BYTES: usize = 32768;

/// Largest model name, in UTF-8 bytes.
pub const MAX_MODEL_BYTES: usize = 128;

/// One piece of untrusted context and where it came from.
#[derive(Debug, Clone, PartialEq, Eq)]
pub struct ContextSegment {
    pub source: String,
    pub content: String,
}

/// A module's request for an Agent task.
#[derive(Debug, Clone, PartialEq, Eq)]
pub struct ModuleAgentRequest {
    pub provider_id: String,
    pub model: String,
    pub instruction: String,
    pub context: Vec<ContextSegment>,
}

/// Why a module request was not admitted.
#[derive(Debug, Clone, PartialEq, Eq)]
pub enum ModuleAgentAdmissionError {
    InvalidInstruction,
    InvalidModel,
    TaskRejected { message: String },
    ContextRejected { message: String, trace_id: u128 },
}

impl ModuleAgentAdmissionError {
    /// The error's message.
    pub fn message(&self) -> (r: String)
        ensures
            self matches ModuleAgentAdmissionError::InvalidInstruction ==> r@
                == "module Agent instruction must contain 1 to 32768 bytes"@,
            self matches ModuleAgentAdmissionError::InvalidModel ==> r@
                == "module Agent model must contain 1 to 128 bytes"@,
            self matches ModuleAgentAdmissionError::TaskRejected { message } ==> r@ == message@,
            self matches ModuleAgentAdmissionError::ContextRejected { message, .. } ==> r@
                == message@,
    {
        match self {
            ModuleAgentAdmissionError::InvalidInstruction => {
                "module Agent instruction must contain 1 to 32768 bytes".to_owned()
            },
            ModuleAgentAdmissionError::InvalidModel => {
                "module Agent model must contain 1 to 128 bytes".to_owned()
            },
            ModuleAgentAdmissionError::TaskRejected { message } => message.clone(),
            ModuleAgentAdmissionError::ContextRejected { message, .. } => message.clone(),
        }
    }
}

/// The request's instruction and model are acceptable: each non-blank and
/// within its byte bound.
pub open spec fn instruction_ok(instruction: Seq<char>) -> bool {
    !blank(instruction) && encode_utf8(instruction).len() <= MAX_INSTRUCTION_BYTES
}

/// The model name is non-blank and within its byte bound.
pub open spec fn model_ok(model: Seq<char>) -> bool {
    !blank(model) && encode_utf8(model).len() <= MAX_MODEL_BYTES
}

/// Checks a module request before it reaches the Agent task gateway.
///
/// # Errors
///
/// [`ModuleAgentAdmissionError::InvalidInstruction`] unless
/// [`instruction_ok`], then [`ModuleAgentAdmissionError::InvalidModel`]
/// unless [`model_ok`].
pub fn check_request(request: &ModuleAgentRequest) -> (r: Result<(), ModuleAgentAdmissionError>)
    ensures
        !instruction_ok(request.instruction@) ==> r == Err::<(), ModuleAgentAdmissionError>(
            ModuleAgentAdmissionError::InvalidInstruction,
        ),
        instruction_ok(request.instruction@) && !model_ok(request.model@) ==> r == Err::<
            (),
            ModuleAgentAdmissionError,
        >(ModuleAgentAdmissionError::InvalidModel),
        instruction_ok(request.instruction@) && model_ok(request.model@) ==> r is Ok,
{
    if is_blank(request.instruction.as_str()) || request.instruction.as_str().as_bytes().len()
        > MAX_INSTRUCTION_BYTES {
        return Err(ModuleAgentAdmissionError::InvalidInstruction);
    }
    if is_blank(request.model.as_str()) || request.model.as_str().as_bytes().len()
        > MAX_MODEL_BYTES {
        return Err(ModuleAgentAdmissionError::InvalidModel);
    }
    Ok(())
}

/// One user message for the Provider: its text, and whether it is the
/// module's trusted instruction rather than untrusted data.
#[derive(Debug, Clone, PartialEq, Eq)]
pub struct ModuleMessage {
    pub text: String,
    pub trusted: bool,
}

/// The frame around one admitted context segment.
pub open spec fn framed(segment: ContextSegment) -> Seq<char> {
    "UNTRUSTED_DATA source="@ + segment.source@ + "\n---BEGIN DATA---\n"@ + segment.content@
        + "\n---END DATA---"@
}

fn frame_segment(segment: &ContextSegment) -> (r: String)
    ensures
        r@ == framed(*segment),
{
    let mut text = "UNTRUSTED_DATA source=".to_owned();
    text.append(segment.source.as_str());
    text.append("\n---BEGIN DATA---\n");
    text.append(segment.content.as_str());
    text.append("\n---END DATA---");
    text
}

/// The messages of an admitted task: the instruction first, trusted, then
/// each admitted context segment in order, framed as untrusted data.
pub fn frame_messages(instruction: &str, admitted: &Vec<ContextSegment>) -> (r: Vec<ModuleMessage>)
    ensures
        r@.len() == admitted@.len() + 1,
        r@[0].text@ == instruction@,
        r@[0].trusted,
        forall|k: int|
            0 <= k < admitted@.len() ==> #[trigger] r@[k + 1].text@ == framed(admitted@[k])
                && !r@[k + 1].trusted,
{
    let mut messages: Vec<ModuleMessage> = Vec::new();
    messages.push(ModuleMessage { text: instruction.to_owned(), trusted: true });
    let mut i: usize = 0;
    while i < admitted.len()
        invariant
            0 <= i <= admitted@.len(),
            messages@.len() == i + 1,
            messages@[0].text@ == instruction@,
            messages@[0].trusted,
            forall|k: int|
                0 <= k < i ==> #[trigger] messages@[k + 1].text@ == framed(admitted@[k])
                    && !messages@[k + 1].trusted,
        decreases admitted@.len() - i,
    {
        let text = frame_segment(&admitted[i]);
        messages.push(ModuleMessage { text, trusted: false });
        i = i + 1;
    }
    messages
}

} // verus!
