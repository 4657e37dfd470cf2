use blazar::protocol::RuntimeErrorKind;

#[test]
fn is_retryable_returns_true_only_for_provider_transient() {
    assert!(RuntimeErrorKind::ProviderTransient.is_retryable());
    assert!(!RuntimeErrorKind::ProviderFatal.is_retryable());
    assert!(!RuntimeErrorKind::ProtocolInvalidPayload.is_retryable());
    assert!(!RuntimeErrorKind::ToolExecution.is_retryable());
    assert!(!RuntimeErrorKind::Cancelled.is_retryable());
}
