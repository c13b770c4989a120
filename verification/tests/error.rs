use embedder::error::{EmbedError, ErrorClass};

#[test]
fn input_problems_are_not_retried() {
    assert_eq!(EmbedError::Tokenization.class(), ErrorClass::InputData);
    assert_eq!(EmbedError::TensorShape.class(), ErrorClass::InputData);
    assert!(!EmbedError::Tokenization.is_retryable());
    assert!(!EmbedError::TensorShape.is_retryable());
}

#[test]
fn resource_problems_may_be_retried() {
    assert_eq!(EmbedError::Inference.class(), ErrorClass::Transient);
    assert_eq!(EmbedError::PoolExhausted.class(), ErrorClass::Transient);
    assert!(EmbedError::Inference.is_retryable());
    assert!(EmbedError::PoolExhausted.is_retryable());
}

#[test]
fn load_problems_are_fatal() {
    assert_eq!(EmbedError::ModelLoad.class(), ErrorClass::Fatal);
    assert!(!EmbedError::ModelLoad.is_retryable());
}

#[test]
fn each_error_has_its_message() {
    assert_eq!(EmbedError::Tokenization.message(), "input text could not be tokenized");
    assert_eq!(
        EmbedError::TensorShape.message(),
        "token data does not fit the model's input shape"
    );
    assert_eq!(EmbedError::Inference.message(), "inference call failed");
    assert_eq!(
        EmbedError::PoolExhausted.message(),
        "no inference session could be handed out"
    );
    assert_eq!(EmbedError::ModelLoad.message(), "model files could not be loaded");
}
