//! The prompt a caller assembles before an inference round trip.
use vstd::prelude::*;

use crate::{Image, Message};

pub mod anthropic;
pub mod bedrock;

pub use bedrock::AwsConfig;

verus! {

/// The default token budget of a prompt.
pub const DEFAULT_MAX_TOKENS: usize = 1024;

/// The default sampling temperature, in thousandths (0.63).
pub const DEFAULT_TEMPERATURE_MILLI: u32 = 630;

/// An ordered conversation plus its generation settings.
///
/// The sampling temperature is carried in thousandths (630 stands for
/// 0.63), so the wire value is exact.
#[derive(Debug)]
pub struct LanguageModelPrompt {
    pub max_tokens: usize,
    pub messages: Vec<Message>,
    pub temperature_milli: u32,
    pub stop_sequences: Vec<String>,
    pub system: Option<String>,
}

impl LanguageModelPrompt {
    /// A prompt holding exactly one text turn, everything else at default.
    pub fn from_text(text: String) -> (r: Self)
        ensures
            r.messages@ =~= seq![Message::Text { text: text }],
            r.max_tokens == DEFAULT_MAX_TOKENS,
            r.temperature_milli == DEFAULT_TEMPERATURE_MILLI,
            r.stop_sequences@ =~= Seq::<String>::empty(),
            r.system is None,
    {
        let mut messages: Vec<Message> = Vec::new();
        messages.push(Message::Text { text });
        LanguageModelPrompt {
            max_tokens: DEFAULT_MAX_TOKENS,
            messages,
            temperature_milli: DEFAULT_TEMPERATURE_MILLI,
            stop_sequences: Vec::new(),
            system: None,
        }
    }

    /// A prompt holding exactly one image turn, everything else at default.
    pub fn from_image(image: Image) -> (r: Self)
        ensures
            r.messages@ =~= seq![Message::Image(image)],
            r.max_tokens == DEFAULT_MAX_TOKENS,
            r.temperature_milli == DEFAULT_TEMPERATURE_MILLI,
            r.stop_sequences@ =~= Seq::<String>::empty(),
            r.system is None,
    {
        let mut messages: Vec<Message> = Vec::new();
        messages.push(Message::Image(image));
        LanguageModelPrompt {
            max_tokens: DEFAULT_MAX_TOKENS,
            messages,
            temperature_milli: DEFAULT_TEMPERATURE_MILLI,
            stop_sequences: Vec::new(),
            system: None,
        }
    }

    /// Appends one turn; every other setting is carried over unchanged.
    /// The appended turn is always the last of the new sequence.
    pub fn add_message(self, message: Message) -> (r: Self)
        ensures
            r.messages@ == self.messages@.push(message),
            r.max_tokens == self.max_tokens,
            r.temperature_milli == self.temperature_milli,
            r.stop_sequences == self.stop_sequences,
            r.system == self.system,
    {
        let mut messages = self.messages;
        messages.push(message);
        LanguageModelPrompt { messages, ..self }
    }

    /// Replaces the token budget; everything else is carried over.
    pub fn max_tokens(self, max_tokens: usize) -> (r: Self)
        ensures
            r.max_tokens == max_tokens,
            r.messages == self.messages,
            r.temperature_milli == self.temperature_milli,
            r.stop_sequences == self.stop_sequences,
            r.system == self.system,
    {
        LanguageModelPrompt { max_tokens, ..self }
    }

    /// Replaces the sampling temperature, in thousandths; everything else
    /// is carried over.
    pub fn temperature(self, temperature_milli: u32) -> (r: Self)
        ensures
            r.temperature_milli == temperature_milli,
            r.messages == self.messages,
            r.max_tokens == self.max_tokens,
            r.stop_sequences == self.stop_sequences,
            r.system == self.system,
    {
        LanguageModelPrompt { temperature_milli, ..self }
    }

    /// Appends one stop sequence; everything else is carried over.
    pub fn stop_sequence(self, stop_sequence: String) -> (r: Self)
        ensures
            r.stop_sequences@ == self.stop_sequences@.push(stop_sequence),
            r.messages == self.messages,
            r.max_tokens == self.max_tokens,
            r.temperature_milli == self.temperature_milli,
            r.system == self.system,
    {
        let mut stop_sequences = self.stop_sequences;
        stop_sequences.push(stop_sequence);
        LanguageModelPrompt { stop_sequences, ..self }
    }

    /// Sets the system instruction; everything else is carried over.
    pub fn system(self, system: String) -> (r: Self)
        ensures
            r.system == Some(system),
            r.messages == self.messages,
            r.max_tokens == self.max_tokens,
            r.temperature_milli == self.temperature_milli,
            r.stop_sequences == self.stop_sequences,
    {
        LanguageModelPrompt { system: Some(system), ..self }
    }
}

/// The append order of the fluent calls is the order of `messages`: turns
/// appended one after another stand in exactly that sequence, after any
/// turns the prompt already held.
pub proof fn lemma_prompt_order(p: LanguageModelPrompt, q: LanguageModelPrompt, r: LanguageModelPrompt, m1: Message, m2: Message)
    requires
        q.messages@ == p.messages@.push(m1),
        r.messages@ == q.messages@.push(m2),
    ensures
        r.messages@ =~= p.messages@ + seq![m1, m2],
        r.messages@.len() == p.messages@.len() + 2,
        r.messages@.last() == m2,
        r.messages@[r.messages@.len() - 2] == m1,
{
}

} // verus!
