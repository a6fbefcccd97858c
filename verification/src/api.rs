//! The data shapes of the chat-completion interface: messages sent to the
//! language-model provider and the response records that come back.  The
//! transport itself (the client and its requests) lives outside the
//! verified library.

use vstd::prelude::*;

verus! {

/// One chat message: a role and its content.
#[derive(Debug, Clone)]
pub struct GroqMessage {
    pub role: String,
    pub content: MessageContent,
}

/// Plain text, or a multi-part body mixing text and images.
#[derive(Debug, Clone)]
pub enum MessageContent {
    Text(String),
    MultiModal(Vec<ContentPart>),
}

#[derive(Debug, Clone)]
pub enum ContentPart {
    Text { text: String },
    Image { image_url: ImageUrl },
}

#[derive(Debug, Clone)]
pub struct ImageUrl {
    pub url: String,
}

/// One completion response.
#[derive(Debug)]
pub struct GroqResponse {
    pub id: String,
    pub object: String,
    pub created: u64,
    pub model: String,
    pub choices: Vec<Choice>,
    pub usage: Usage,
}

#[derive(Debug)]
pub struct Choice {
    pub index: u32,
    pub message: ResponseMessage,
    pub finish_reason: String,
}

#[derive(Debug)]
pub struct ResponseMessage {
    pub role: String,
    pub content: String,
}

#[derive(Debug)]
pub struct Usage {
    pub prompt_tokens: u32,
    pub completion_tokens: u32,
    pub total_tokens: u32,
}

} // verus!
