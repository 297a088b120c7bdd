//! Streaming response engine for chat backends: byte-to-frame reconstruction,
//! inline reasoning-span splitting, per-backend frame decoding and aggregation.

pub mod frames;
pub mod text;
pub mod think;
pub mod chunk;
pub mod json;
pub mod json_text;
pub mod wire;
pub mod anthropic;
pub mod ollama;
pub mod openai;
pub mod stream;
pub mod message;
pub mod options;
pub mod model;
pub mod request;

pub use anthropic::AnthropicDecoder;
pub use chunk::{
    aggregate, aggregate_lossy, AggregatedChat, ChatChunk, ChatError, ChatStreamError,
    ListModelsError,
};
pub use frames::FrameBuffer;
pub use json_text::JsonValue;
pub use message::{Message, MessageRole, ParseMessageError};
pub use model::{Model, ModelParams, ModelQuant, ThinkingBudget, ThinkingModes};
pub use ollama::OllamaDecoder;
pub use openai::OpenAiDecoder;
pub use options::Thinking;
pub use request::{ChatOptions, Messages};
pub use stream::{ChatStream, FrameDecoder};
pub use think::split_thinking;
