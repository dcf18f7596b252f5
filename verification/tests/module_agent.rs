use nimora_core::module_agent::{
    check_request, frame_messages, ContextSegment, ModuleAgentAdmissionError, ModuleAgentRequest,
    MAX_INSTRUCTION_BYTES, MAX_MODEL_BYTES,
};

fn request(instruction: &str, model: &str) -> ModuleAgentRequest {
    ModuleAgentRequest {
        provider_id: "provider:local".to_owned(),
        model: model.to_owned(),
        instruction: instruction.to_owned(),
        context: vec![ContextSegment {
            source: "connector:mail".to_owned(),
            content: "hello".to_owned(),
        }],
    }
}

#[test]
fn module_requests_are_bounded_before_admission() {
    assert_eq!(check_request(&request("Summarize this data.", "model:echo-v1")), Ok(()));
    assert_eq!(
        check_request(&request("   ", "model:echo-v1")),
        Err(ModuleAgentAdmissionError::InvalidInstruction)
    );
    assert_eq!(
        check_request(&request(&"x".repeat(MAX_INSTRUCTION_BYTES + 1), "model:echo-v1")),
        Err(ModuleAgentAdmissionError::InvalidInstruction)
    );
    assert_eq!(
        check_request(&request("Summarize.", &"m".repeat(MAX_MODEL_BYTES + 1))),
        Err(ModuleAgentAdmissionError::InvalidModel)
    );
    assert_eq!(
        check_request(&request("", "")),
        Err(ModuleAgentAdmissionError::InvalidInstruction)
    );
    assert_eq!(
        ModuleAgentAdmissionError::InvalidModel.message(),
        "module Agent model must contain 1 to 128 bytes"
    );
}

#[test]
fn admitted_context_is_framed_as_untrusted_data() {
    let req = request("Summarize this data.", "model:echo-v1");
    let messages = frame_messages(&req.instruction, &req.context);
    assert_eq!(messages.len(), 2);
    assert!(messages[0].trusted);
    assert_eq!(messages[0].text, "Summarize this data.");
    assert!(!messages[1].trusted);
    assert_eq!(
        messages[1].text,
        "UNTRUSTED_DATA source=connector:mail\n---BEGIN DATA---\nhello\n---END DATA---"
    );
    assert_eq!(frame_messages("only", &Vec::new()).len(), 1);
}
