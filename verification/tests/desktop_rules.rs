use vertex_ai::desktop::{
    error_envelope, parse_memory_category, system_memory_proposal, system_memory_query,
    validate_generation_input, LocalGenerationInput, StoreSystemMemoryInput, MAX_OUTPUT_TOKENS,
};
use vertex_ai::memory::MemoryCategory;

#[test]
fn ipc_errors_preserve_machine_and_human_information() {
    let error = error_envelope("scan_environment", "scan_failed", "raw failure".to_owned(), true);
    assert_eq!(error.machine_readable_code, "scan_failed");
    assert_eq!(error.technical_message, "raw failure");
    assert!(error.retryable);
    assert_eq!(error.human_fallback_message, "環境情報を取得できませんでした。");
    assert!(error.error_id.as_str().starts_with("error:"));
}

#[test]
fn local_generation_rejects_blank_and_unbounded_input() {
    let blank = validate_generation_input(LocalGenerationInput {
        model_id: "qwen3:8b".to_owned(),
        prompt: "  ".to_owned(),
        temperature: None,
        max_output_tokens: None,
    });
    assert!(blank.is_err());
    let oversized = validate_generation_input(LocalGenerationInput {
        model_id: "qwen3:8b".to_owned(),
        prompt: "hello".to_owned(),
        temperature: Some(3.0f32.to_bits()),
        max_output_tokens: Some(MAX_OUTPUT_TOKENS + 1),
    });
    assert!(oversized.is_err());
}

#[test]
fn valid_generation_input_is_trimmed() {
    let ok = validate_generation_input(LocalGenerationInput {
        model_id: " qwen3:8b ".to_owned(),
        prompt: " hi ".to_owned(),
        temperature: Some(2.0f32.to_bits()),
        max_output_tokens: Some(MAX_OUTPUT_TOKENS),
    })
    .unwrap();
    assert_eq!(ok.prompt, "hi");
    assert_eq!(ok.model_id, "qwen3:8b");
    let nan = validate_generation_input(LocalGenerationInput {
        model_id: "m".to_owned(),
        prompt: "p".to_owned(),
        temperature: Some(f32::NAN.to_bits()),
        max_output_tokens: None,
    });
    assert_eq!(nan.unwrap_err().machine_readable_code, "invalid_temperature");
    assert!(validate_generation_input(LocalGenerationInput {
        model_id: "m".to_owned(),
        prompt: "p".to_owned(),
        temperature: Some((-0.0f32).to_bits()),
        max_output_tokens: None,
    })
    .is_ok());
}

#[test]
fn memory_requests_from_the_desktop_are_shaped() {
    assert_eq!(parse_memory_category(None).unwrap(), MemoryCategory::Knowledge);
    assert_eq!(parse_memory_category(Some("vxn_knowledge")).unwrap(), MemoryCategory::VxnKnowledge);
    assert_eq!(parse_memory_category(Some("bogus")).unwrap_err().machine_readable_code, "invalid_memory_category");
    let query = system_memory_query(Some("  ".to_owned()), Some(500));
    assert!(query.text.is_none());
    assert_eq!(query.limit, 100);
    assert_eq!(system_memory_query(None, None).limit, 50);
    let (proposal, permit) = system_memory_proposal(StoreSystemMemoryInput {
        content: " remember this ".to_owned(),
        category: None,
        priority: None,
        confidence: None,
    })
    .unwrap();
    assert_eq!(proposal.candidate.content, "remember this");
    assert_eq!(f32::from_bits(proposal.candidate.priority), 0.5);
    assert_eq!(f32::from_bits(proposal.candidate.confidence), 1.0);
    assert!(proposal.candidate.privacy.local_only);
    assert!(!permit.allow_sensitive);
    assert!(system_memory_proposal(StoreSystemMemoryInput {
        content: "  ".to_owned(),
        category: None,
        priority: None,
        confidence: None,
    })
    .is_err());
}
