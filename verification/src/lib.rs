//! A client-side gateway for sending a conversation (text and image turns)
//! to a remote language-model backend and receiving a normalized reply.
//!
//! The crate holds the provider-agnostic content model, the prompt builder,
//! the wire-protocol marshaling and response classification for the two
//! supported backends, and the credential-resolution rules for the managed
//! runtime.  Transport itself (HTTPS, SDK invocation) is left to the caller.
use vstd::prelude::*;
use vstd::string::StringExecFns;

pub mod b64;
pub mod json;

mod error;
pub use error::Error;

pub mod model;

use crate::b64::{b64_of, b64_encode};

verus! {

/// An image turn: a media type tag plus the raw image bytes.
#[derive(Clone, Debug)]
pub struct Image {
    pub media_type: String,
    pub data: Vec<u8>,
}

impl Image {
    pub fn new(media_type: String, data: Vec<u8>) -> (r: Self)
        ensures
            r.media_type@ == media_type@,
            r.data@ == data@,
    {
        Image { media_type, data }
    }

    pub fn media_type(&self) -> (r: &str)
        ensures
            r@ == self.media_type@,
    {
        self.media_type.as_str()
    }

    pub fn data(&self) -> (r: Vec<u8>)
        ensures
            r@ == self.data@,
    {
        let r = self.data.clone();
        proof {
            assert(r@ =~= self.data@);
        }
        r
    }

    /// The data-URI style rendering `data:<media_type>;base64,<data>`.
    pub fn as_text(&self) -> (r: String)
        requires
            ((self.data@.len() + 2) / 3) * 4 <= usize::MAX,
        ensures
            r@ == "data:"@ + self.media_type@ + ";base64,"@ + b64_of(self.data@),
    {
        let encoded = b64_encode(&self.data);
        let mut r = String::from_str("data:");
        r.append(self.media_type.as_str());
        r.append(";base64,");
        r.append(encoded.as_str());
        r
    }
}

/// A single rendered turn of the conversation, as the caller sees it.
#[derive(Clone, Debug)]
pub enum Message {
    Image(Image),
    Text { text: String },
}

impl Message {
    /// The text rendering of the turn: text renders as itself, an image as
    /// its data-URI style string.
    pub fn as_text(&self) -> (r: String)
        requires
            self matches Message::Image(img) ==> ((img.data@.len() + 2) / 3) * 4 <= usize::MAX,
        ensures
            match self {
                Message::Image(img) => r@ == "data:"@ + img.media_type@ + ";base64,"@ + b64_of(
                    img.data@,
                ),
                Message::Text { text } => r@ == text@,
            },
    {
        match self {
            Message::Image(image) => image.as_text(),
            Message::Text { text } => text.clone(),
        }
    }
}

impl From<Image> for Message {
    fn from(value: Image) -> (r: Self) {
        Message::Image(value)
    }
}

impl vstd::std_specs::convert::FromSpecImpl<Image> for Message {
    open spec fn obeys_from_spec() -> bool {
        true
    }

    open spec fn from_spec(value: Image) -> Self {
        Message::Image(value)
    }
}

impl From<String> for Message {
    fn from(value: String) -> (r: Self) {
        Message::Text { text: value }
    }
}

impl vstd::std_specs::convert::FromSpecImpl<String> for Message {
    open spec fn obeys_from_spec() -> bool {
        true
    }

    open spec fn from_spec(value: String) -> Self {
        Message::Text { text: value }
    }
}


/// The configured gateway: one tagged union over the supported backends,
/// dispatching every call to its active adapter.
#[derive(Debug)]
pub enum LanguageModel {
    Anthropic(model::anthropic::AnthropicModel),
}

impl LanguageModel {
    /// A gateway to the direct API, keyed by a bearer credential.
    pub fn anthropic(api_key: String, api_version: String, model: String) -> (r: Self)
        ensures
            r == LanguageModel::Anthropic(
                model::anthropic::AnthropicModel::Anthropic { api_key, api_version, model },
            ),
    {
        LanguageModel::Anthropic(model::anthropic::AnthropicModel::new(api_key, api_version, model))
    }

    /// A gateway to the managed runtime, with its declared credentials.
    /// Building the transport client from this configuration is the
    /// caller's work.
    pub fn anthropic_bedrock(
        api_version: String,
        model: String,
        aws_config: Option<model::AwsConfig>,
    ) -> (r: Self)
        ensures
            r == LanguageModel::Anthropic(
                model::anthropic::AnthropicModel::Bedrock { aws_config, api_version, model },
            ),
    {
        LanguageModel::Anthropic(
            model::anthropic::AnthropicModel::bedrock(api_version, model, aws_config),
        )
    }
}

} // verus!
