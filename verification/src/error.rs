//! The failures of the embedding engine and how a caller should treat them.

use vstd::prelude::*;

verus! {

/// Why an embedding request, or the start of a backend, failed.
#[derive(Clone, Copy, Debug, PartialEq, Eq, Structural)]
pub enum EmbedError {
    /// The text could not be turned into a usable token sequence.
    Tokenization,
    /// The token data does not fit the tensor shape that the model expects.
    TensorShape,
    /// The inference call itself failed.
    Inference,
    /// A session was asked for and none could be handed out.
    PoolExhausted,
    /// The model files could not be loaded: the backend cannot enter service.
    ModelLoad,
}

/// What a caller can do about a failure.
#[derive(Clone, Copy, Debug, PartialEq, Eq, Structural)]
pub enum ErrorClass {
    /// The input is at fault: the same input fails again.
    InputData,
    /// A resource was short: a later attempt may succeed.
    Transient,
    /// The configuration is at fault: a restart is needed.
    Fatal,
}

/// The class of each failure.
pub open spec fn class_of(error: EmbedError) -> ErrorClass {
    match error {
        EmbedError::Tokenization => ErrorClass::InputData,
        EmbedError::TensorShape => ErrorClass::InputData,
        EmbedError::Inference => ErrorClass::Transient,
        EmbedError::PoolExhausted => ErrorClass::Transient,
        EmbedError::ModelLoad => ErrorClass::Fatal,
    }
}

impl EmbedError {
    /// Tells input problems from transient and from fatal ones.
    pub fn class(&self) -> (class: ErrorClass)
        ensures
            class == class_of(*self),
    {
        match self {
            EmbedError::Tokenization => ErrorClass::InputData,
            EmbedError::TensorShape => ErrorClass::InputData,
            EmbedError::Inference => ErrorClass::Transient,
            EmbedError::PoolExhausted => ErrorClass::Transient,
            EmbedError::ModelLoad => ErrorClass::Fatal,
        }
    }

    /// Whether trying the same request again can help.
    pub fn is_retryable(&self) -> (retry: bool)
        ensures
            retry == (class_of(*self) == ErrorClass::Transient),
    {
        match self {
            EmbedError::Inference => true,
            EmbedError::PoolExhausted => true,
            _ => false,
        }
    }

    /// A short description for logs and replies.
    pub fn message(&self) -> (text: &'static str)
        ensures
            text@ == match *self {
                EmbedError::Tokenization => "input text could not be tokenized"@,
                EmbedError::TensorShape => "token data does not fit the model's input shape"@,
                EmbedError::Inference => "inference call failed"@,
                EmbedError::PoolExhausted => "no inference session could be handed out"@,
                EmbedError::ModelLoad => "model files could not be loaded"@,
            },
    {
        match self {
            EmbedError::Tokenization => "input text could not be tokenized",
            EmbedError::TensorShape => "token data does not fit the model's input shape",
            EmbedError::Inference => "inference call failed",
            EmbedError::PoolExhausted => "no inference session could be handed out",
            EmbedError::ModelLoad => "model files could not be loaded",
        }
    }
}

} // verus!
