//! The wire protocol shared by the direct API and the managed runtime:
//! the request body, the three-way response envelope, and the rules that
//! classify a reply.
use vstd::prelude::*;
use vstd::string::StringExecFns;

use crate::b64::{b64_decode, b64_decode_of, b64_encode, b64_of};
use crate::json::{
    dec_digits, digit_char, json_model, lemma_model_items_props, lemma_model_members_props,
    model_items, model_members, render_model, render_string, Json, JsonModel,
};
use crate::model::bedrock::{AwsConfig, AwsConfigModel};
use crate::model::LanguageModelPrompt;
use crate::Error;
use crate::Message;
use crate::Image;

verus! {

/// An error envelope as the backend reports it.
#[derive(Debug)]
pub struct AnthropicErrorResponse {
    pub error_type: String,
    pub message: String,
}

/// The mathematical shape of an error envelope.
#[verifier::ext_equal]
pub struct ErrModel {
    pub error_type: Seq<char>,
    pub message: Seq<char>,
}

impl View for AnthropicErrorResponse {
    type V = ErrModel;

    open spec fn view(&self) -> ErrModel {
        ErrModel { error_type: self.error_type@, message: self.message@ }
    }
}

impl AnthropicErrorResponse {
    pub fn error_type(&self) -> (r: &str)
        ensures
            r@ == self.error_type@,
    {
        self.error_type.as_str()
    }

    pub fn message(&self) -> (r: &str)
        ensures
            r@ == self.message@,
    {
        self.message.as_str()
    }
}

/// An image content block: base64-encoded bytes plus their media type.
#[derive(Debug)]
pub struct AnthropicImageContent {
    pub encoding: String,
    pub media_type: String,
    pub data: String,
}

/// The mathematical shape of an image content block.
#[verifier::ext_equal]
pub struct ImageContentModel {
    pub encoding: Seq<char>,
    pub media_type: Seq<char>,
    pub data: Seq<char>,
}

impl View for AnthropicImageContent {
    type V = ImageContentModel;

    open spec fn view(&self) -> ImageContentModel {
        ImageContentModel {
            encoding: self.encoding@,
            media_type: self.media_type@,
            data: self.data@,
        }
    }
}

impl AnthropicImageContent {
    pub fn new(media_type: String, data: String) -> (r: Self)
        ensures
            r.encoding@ == "base64"@,
            r.media_type == media_type,
            r.data == data,
    {
        AnthropicImageContent { encoding: String::from_str("base64"), media_type, data }
    }

    pub fn media_type(&self) -> (r: &str)
        ensures
            r@ == self.media_type@,
    {
        self.media_type.as_str()
    }

    /// The decoded image bytes, where the carried text is well-formed
    /// base64.
    pub fn data(&self) -> (r: Option<Vec<u8>>)
        ensures
            match r {
                Some(v) => b64_decode_of(self.data@) == Some(v@),
                None => b64_decode_of(self.data@) is None,
            },
    {
        b64_decode(self.data.as_str())
    }

    /// The wire form of an image turn: its bytes, base64-encoded.
    pub fn of_image(image: &Image) -> (r: Self)
        requires
            ((image.data@.len() + 2) / 3) * 4 <= usize::MAX,
        ensures
            r.encoding@ == "base64"@,
            r.media_type@ == image.media_type@,
            r.data@ == b64_of(image.data@),
            b64_decode_of(r.data@) == Some(image.data@),
    {
        let data = b64_encode(&image.data);
        AnthropicImageContent {
            encoding: String::from_str("base64"),
            media_type: image.media_type.clone(),
            data,
        }
    }
}

/// One content block of a turn, as the wire carries it.
#[derive(Debug)]
pub enum AnthropicContent {
    Image { source: AnthropicImageContent },
    Text { text: String },
}

/// The mathematical shape of a content block.
#[verifier::ext_equal]
pub enum ContentModel {
    Image(ImageContentModel),
    Text(Seq<char>),
}

impl View for AnthropicContent {
    type V = ContentModel;

    open spec fn view(&self) -> ContentModel {
        match self {
            AnthropicContent::Image { source } => ContentModel::Image(source@),
            AnthropicContent::Text { text } => ContentModel::Text(text@),
        }
    }
}

/// Token accounting as the backend reports it.
#[derive(Debug)]
pub struct AnthropicUsage {
    pub input_tokens: usize,
    pub output_tokens: usize,
}

impl AnthropicUsage {
    pub fn input_tokens(&self) -> (r: usize)
        ensures
            r == self.input_tokens,
    {
        self.input_tokens
    }

    pub fn output_tokens(&self) -> (r: usize)
        ensures
            r == self.output_tokens,
    {
        self.output_tokens
    }
}

/// A successful message envelope.
#[derive(Debug)]
pub struct AnthropicMessageResponse {
    pub id: String,
    pub model: String,
    pub role: String,
    pub stop_reason: String,
    pub stop_sequence: Option<String>,
    pub usage: AnthropicUsage,
    pub content: Vec<AnthropicContent>,
}

/// The mathematical shape of a message envelope.
#[verifier::ext_equal]
pub struct MsgModel {
    pub id: Seq<char>,
    pub model: Seq<char>,
    pub role: Seq<char>,
    pub stop_reason: Seq<char>,
    pub stop_sequence: Option<Seq<char>>,
    pub input_tokens: int,
    pub output_tokens: int,
    pub content: Seq<ContentModel>,
}

impl View for AnthropicMessageResponse {
    type V = MsgModel;

    open spec fn view(&self) -> MsgModel {
        MsgModel {
            id: self.id@,
            model: self.model@,
            role: self.role@,
            stop_reason: self.stop_reason@,
            stop_sequence: match self.stop_sequence {
                Some(s) => Some(s@),
                None => None,
            },
            input_tokens: self.usage.input_tokens as int,
            output_tokens: self.usage.output_tokens as int,
            content: self.content@.map_values(|c: AnthropicContent| c@),
        }
    }
}

impl AnthropicMessageResponse {
    pub fn id(&self) -> (r: &str)
        ensures
            r@ == self.id@,
    {
        self.id.as_str()
    }

    pub fn model(&self) -> (r: &str)
        ensures
            r@ == self.model@,
    {
        self.model.as_str()
    }

    pub fn role(&self) -> (r: &str)
        ensures
            r@ == self.role@,
    {
        self.role.as_str()
    }

    pub fn stop_reason(&self) -> (r: &str)
        ensures
            r@ == self.stop_reason@,
    {
        self.stop_reason.as_str()
    }

    pub fn stop_sequence(&self) -> (r: &Option<String>)
        ensures
            r == &self.stop_sequence,
    {
        &self.stop_sequence
    }

    pub fn usage(&self) -> (r: &AnthropicUsage)
        ensures
            r == &self.usage,
    {
        &self.usage
    }

    pub fn content(&self) -> (r: &Vec<AnthropicContent>)
        ensures
            r == &self.content,
    {
        &self.content
    }
}


/// A whole request turn: a role and its content, inline or as a list.
#[derive(Debug)]
pub enum AnthropicMessageContent {
    Single(AnthropicContent),
    Multiple(Vec<AnthropicContent>),
}

/// The mathematical shape of a request turn's content.
#[verifier::ext_equal]
pub enum MsgContentModel {
    Single(ContentModel),
    Multiple(Seq<ContentModel>),
}

impl View for AnthropicMessageContent {
    type V = MsgContentModel;

    open spec fn view(&self) -> MsgContentModel {
        match self {
            AnthropicMessageContent::Single(c) => MsgContentModel::Single(c@),
            AnthropicMessageContent::Multiple(cs) => MsgContentModel::Multiple(
                cs@.map_values(|c: AnthropicContent| c@),
            ),
        }
    }
}

/// One request message: a role plus its content.
#[derive(Debug)]
pub struct AnthropicMessage {
    pub role: String,
    pub content: AnthropicMessageContent,
}

/// The mathematical shape of one request message.
#[verifier::ext_equal]
pub struct MessageModel {
    pub role: Seq<char>,
    pub content: MsgContentModel,
}

impl View for AnthropicMessage {
    type V = MessageModel;

    open spec fn view(&self) -> MessageModel {
        MessageModel { role: self.role@, content: self.content@ }
    }
}

/// The wire object for one content block.
pub open spec fn content_json(c: ContentModel) -> JsonModel {
    match c {
        ContentModel::Text(t) => JsonModel::Obj(
            seq![("type"@, JsonModel::Str("text"@)), ("text"@, JsonModel::Str(t))],
        ),
        ContentModel::Image(s) => JsonModel::Obj(
            seq![
                ("type"@, JsonModel::Str("image"@)),
                (
                    "source"@,
                    JsonModel::Obj(
                        seq![
                            ("type"@, JsonModel::Str(s.encoding)),
                            ("media_type"@, JsonModel::Str(s.media_type)),
                            ("data"@, JsonModel::Str(s.data)),
                        ],
                    ),
                ),
            ],
        ),
    }
}

/// The wire object for one request message; a single block stands inline,
/// several stand as a list.
pub open spec fn message_json(m: MessageModel) -> JsonModel {
    JsonModel::Obj(
        seq![
            ("role"@, JsonModel::Str(m.role)),
            (
                "content"@,
                match m.content {
                    MsgContentModel::Single(c) => content_json(c),
                    MsgContentModel::Multiple(cs) => JsonModel::Arr(
                        cs.map_values(|c: ContentModel| content_json(c)),
                    ),
                },
            ),
        ],
    )
}

/// The fraction digits of a temperature in thousandths: trailing zeros
/// trimmed, at least one digit kept.
pub open spec fn frac_digits(f: nat) -> Seq<char> {
    if f == 0 {
        seq![digit_char(0)]
    } else if f % 100 == 0 {
        seq![digit_char(f / 100)]
    } else if f % 10 == 0 {
        seq![digit_char(f / 100), digit_char((f / 10) % 10)]
    } else {
        seq![digit_char(f / 100), digit_char((f / 10) % 10), digit_char(f % 10)]
    }
}

/// The number lexeme for a temperature carried in thousandths: 630 renders
/// as `0.63`, 1000 as `1.0`.
pub open spec fn milli_lexeme(m: nat) -> Seq<char> {
    dec_digits(m / 1000) + seq!['.'] + frac_digits(m % 1000)
}

/// The turns of the marshaled request: the prior conversation, then the
/// new content collapsed by count.  Nothing is added for empty content, a
/// lone block stands inline, several stand as a list.
pub open spec fn spec_request_messages(
    conversation: Seq<MessageModel>,
    content: Seq<ContentModel>,
) -> Seq<MessageModel> {
    if content.len() == 0 {
        conversation
    } else if content.len() == 1 {
        conversation.push(
            MessageModel { role: "user"@, content: MsgContentModel::Single(content[0]) },
        )
    } else {
        conversation.push(
            MessageModel { role: "user"@, content: MsgContentModel::Multiple(content) },
        )
    }
}

/// The whole request object.  An absent version or model contributes no
/// member; an empty stop-sequence list is omitted entirely; an absent
/// system instruction is omitted.
pub open spec fn spec_request(
    version: Option<Seq<char>>,
    model: Option<Seq<char>>,
    max_tokens: int,
    messages: Seq<MessageModel>,
    stop_sequences: Seq<Seq<char>>,
    system: Option<Seq<char>>,
    temperature_milli: int,
) -> JsonModel {
    JsonModel::Obj(
        (match version {
            Some(v) => seq![("anthropic_version"@, JsonModel::Str(v))],
            None => Seq::empty(),
        }) + (match model {
            Some(m) => seq![("model"@, JsonModel::Str(m))],
            None => Seq::empty(),
        }) + seq![("max_tokens"@, JsonModel::Num(dec_digits(max_tokens as nat)))] + seq![
            ("messages"@, JsonModel::Arr(messages.map_values(|m: MessageModel| message_json(m)))),
        ] + (if stop_sequences.len() == 0 {
            Seq::empty()
        } else {
            seq![
                (
                    "stop_sequences"@,
                    JsonModel::Arr(stop_sequences.map_values(|t: Seq<char>| JsonModel::Str(t))),
                ),
            ]
        }) + (match system {
            Some(sy) => seq![("system"@, JsonModel::Str(sy))],
            None => Seq::empty(),
        }) + seq![("temperature"@, JsonModel::Num(milli_lexeme(temperature_milli as nat)))],
    )
}

/// The first value an object carries under the given key.
pub open spec fn obj_lookup(members: Seq<(Seq<char>, JsonModel)>, key: Seq<char>) -> Option<
    JsonModel,
>
    decreases members.len(),
{
    if members.len() == 0 {
        None
    } else if members[0].0 == key {
        Some(members[0].1)
    } else {
        obj_lookup(members.drop_first(), key)
    }
}

pub proof fn lemma_obj_lookup_concat(
    a: Seq<(Seq<char>, JsonModel)>,
    b: Seq<(Seq<char>, JsonModel)>,
    key: Seq<char>,
)
    ensures
        obj_lookup(a + b, key) == (if obj_lookup(a, key) is Some {
            obj_lookup(a, key)
        } else {
            obj_lookup(b, key)
        }),
    decreases a.len(),
{
    if a.len() == 0 {
        assert(a + b =~= b);
    } else {
        assert((a + b).drop_first() =~= a.drop_first() + b);
        lemma_obj_lookup_concat(a.drop_first(), b, key);
    }
}

pub proof fn lemma_obj_lookup_single(k: Seq<char>, v: JsonModel, key: Seq<char>)
    requires
        k != key,
    ensures
        obj_lookup(seq![(k, v)], key) is None,
{
    let s: Seq<(Seq<char>, JsonModel)> = seq![(k, v)];
    assert(s.drop_first().len() == 0);
    assert(obj_lookup(s.drop_first(), key) is None);
}

/// An empty stop-sequence set leaves no trace in the request: the object
/// carries no `stop_sequences` member at all.  A nonempty set is carried
/// as exactly its sequences, in order.
pub proof fn lemma_stop_sequences_shape(
    version: Option<Seq<char>>,
    model: Option<Seq<char>>,
    max_tokens: int,
    messages: Seq<MessageModel>,
    stop_sequences: Seq<Seq<char>>,
    system: Option<Seq<char>>,
    temperature_milli: int,
)
    ensures
        (spec_request(
            version,
            model,
            max_tokens,
            messages,
            stop_sequences,
            system,
            temperature_milli,
        ) matches JsonModel::Obj(mem) && obj_lookup(mem, "stop_sequences"@) == (if stop_sequences.len()
            == 0 {
            None
        } else {
            Some(
                JsonModel::Arr(stop_sequences.map_values(|t: Seq<char>| JsonModel::Str(t))),
            )
        })),
        stop_sequences.len() == 1 ==> (spec_request(
            version,
            model,
            max_tokens,
            messages,
            stop_sequences,
            system,
            temperature_milli,
        ) matches JsonModel::Obj(mem) && obj_lookup(mem, "stop_sequences"@) == Some(
            JsonModel::Arr(seq![JsonModel::Str(stop_sequences[0])]),
        )),
{
    broadcast use vstd::string::group_string_axioms;

    reveal_strlit("anthropic_version");
    reveal_strlit("model");
    reveal_strlit("max_tokens");
    reveal_strlit("messages");
    reveal_strlit("stop_sequences");
    reveal_strlit("system");
    reveal_strlit("temperature");
    let key = "stop_sequences"@;
    assert("anthropic_version"@.len() == 17);
    assert("model"@.len() == 5);
    assert("max_tokens"@.len() == 10);
    assert("messages"@.len() == 8);
    assert("stop_sequences"@.len() == 14);
    assert("system"@.len() == 6);
    assert("temperature"@.len() == 11);
    let s1: Seq<(Seq<char>, JsonModel)> = match version {
        Some(v) => seq![("anthropic_version"@, JsonModel::Str(v))],
        None => Seq::empty(),
    };
    let s2: Seq<(Seq<char>, JsonModel)> = match model {
        Some(m) => seq![("model"@, JsonModel::Str(m))],
        None => Seq::empty(),
    };
    let s3: Seq<(Seq<char>, JsonModel)> = seq![
        ("max_tokens"@, JsonModel::Num(dec_digits(max_tokens as nat))),
    ];
    let s4: Seq<(Seq<char>, JsonModel)> = seq![
        ("messages"@, JsonModel::Arr(messages.map_values(|m: MessageModel| message_json(m)))),
    ];
    let s5: Seq<(Seq<char>, JsonModel)> = if stop_sequences.len() == 0 {
        Seq::empty()
    } else {
        seq![
            (
                "stop_sequences"@,
                JsonModel::Arr(stop_sequences.map_values(|t: Seq<char>| JsonModel::Str(t))),
            ),
        ]
    };
    let s6: Seq<(Seq<char>, JsonModel)> = match system {
        Some(sy) => seq![("system"@, JsonModel::Str(sy))],
        None => Seq::empty(),
    };
    let s7: Seq<(Seq<char>, JsonModel)> = seq![
        ("temperature"@, JsonModel::Num(milli_lexeme(temperature_milli as nat))),
    ];
    match version {
        Some(v) => {
            lemma_obj_lookup_single("anthropic_version"@, JsonModel::Str(v), key);
        },
        None => {},
    }
    match model {
        Some(m) => {
            lemma_obj_lookup_single("model"@, JsonModel::Str(m), key);
        },
        None => {},
    }
    lemma_obj_lookup_single("max_tokens"@, JsonModel::Num(dec_digits(max_tokens as nat)), key);
    lemma_obj_lookup_single(
        "messages"@,
        JsonModel::Arr(messages.map_values(|m: MessageModel| message_json(m))),
        key,
    );
    match system {
        Some(sy) => {
            lemma_obj_lookup_single("system"@, JsonModel::Str(sy), key);
        },
        None => {},
    }
    lemma_obj_lookup_single(
        "temperature"@,
        JsonModel::Num(milli_lexeme(temperature_milli as nat)),
        key,
    );
    assert(obj_lookup(s1, key) is None);
    assert(obj_lookup(s2, key) is None);
    assert(obj_lookup(s3, key) is None);
    assert(obj_lookup(s4, key) is None);
    assert(obj_lookup(s6, key) is None);
    assert(obj_lookup(s7, key) is None);
    lemma_obj_lookup_concat(s1, s2, key);
    lemma_obj_lookup_concat(s1 + s2, s3, key);
    lemma_obj_lookup_concat(s1 + s2 + s3, s4, key);
    lemma_obj_lookup_concat(s1 + s2 + s3 + s4, s5, key);
    lemma_obj_lookup_concat(s1 + s2 + s3 + s4 + s5, s6, key);
    lemma_obj_lookup_concat(s1 + s2 + s3 + s4 + s5 + s6, s7, key);
    if stop_sequences.len() == 1 {
        assert(stop_sequences.map_values(|t: Seq<char>| JsonModel::Str(t)) =~= seq![
            JsonModel::Str(stop_sequences[0]),
        ]);
    }
}

/// One new content block is marshaled inline: the request's last message
/// carries the block itself as its `content`.  Two or more are marshaled
/// as a list of exactly those blocks, in order.
pub proof fn lemma_content_shape(conversation: Seq<MessageModel>, content: Seq<ContentModel>)
    ensures
        content.len() == 1 ==> spec_request_messages(conversation, content)
            == conversation.push(
            MessageModel { role: "user"@, content: MsgContentModel::Single(content[0]) },
        ),
        content.len() >= 2 ==> spec_request_messages(conversation, content)
            == conversation.push(
            MessageModel { role: "user"@, content: MsgContentModel::Multiple(content) },
        ),
        content.len() == 0 ==> spec_request_messages(conversation, content) == conversation,
{
}


/// A JSON string holding the given text.
fn jstr(s: &str) -> (r: Json)
    ensures
        r@ == JsonModel::Str(s@),
{
    Json::Str(String::from_str(s))
}

/// The wire object for one content block.
pub fn json_of_content(c: &AnthropicContent) -> (r: Json)
    ensures
        r@ == content_json(c@),
{
    match c {
        AnthropicContent::Text { text } => {
            let mut mem: Vec<(String, Json)> = Vec::new();
            mem.push((String::from_str("type"), jstr("text")));
            mem.push((String::from_str("text"), Json::Str(text.clone())));
            proof {
                lemma_model_members_props(mem@, 2);
                assert(model_members(mem@, 2) =~= seq![
                    ("type"@, JsonModel::Str("text"@)),
                    ("text"@, JsonModel::Str(text@)),
                ]);
            }
            Json::Obj(mem)
        },
        AnthropicContent::Image { source } => {
            let mut src: Vec<(String, Json)> = Vec::new();
            src.push((String::from_str("type"), Json::Str(source.encoding.clone())));
            src.push((String::from_str("media_type"), Json::Str(source.media_type.clone())));
            src.push((String::from_str("data"), Json::Str(source.data.clone())));
            proof {
                lemma_model_members_props(src@, 3);
                assert(model_members(src@, 3) =~= seq![
                    ("type"@, JsonModel::Str(source.encoding@)),
                    ("media_type"@, JsonModel::Str(source.media_type@)),
                    ("data"@, JsonModel::Str(source.data@)),
                ]);
            }
            let mut mem: Vec<(String, Json)> = Vec::new();
            mem.push((String::from_str("type"), jstr("image")));
            mem.push((String::from_str("source"), Json::Obj(src)));
            proof {
                lemma_model_members_props(mem@, 2);
                assert(model_members(mem@, 2) =~= seq![
                    ("type"@, JsonModel::Str("image"@)),
                    (
                        "source"@,
                        JsonModel::Obj(
                            seq![
                                ("type"@, JsonModel::Str(source.encoding@)),
                                ("media_type"@, JsonModel::Str(source.media_type@)),
                                ("data"@, JsonModel::Str(source.data@)),
                            ],
                        ),
                    ),
                ]);
            }
            Json::Obj(mem)
        },
    }
}

/// The wire array of several content blocks.
fn json_of_contents(cs: &Vec<AnthropicContent>) -> (r: Vec<Json>)
    ensures
        model_items(r@, r@.len() as int) =~= cs@.map_values(|c: AnthropicContent| c@).map_values(
            |c: ContentModel| content_json(c),
        ),
{
    let n = cs.len();
    let mut items: Vec<Json> = Vec::new();
    let mut j: usize = 0;
    while j < n
        invariant
            j <= n,
            n == cs@.len(),
            items@.len() == j,
            forall|t: int| 0 <= t < j ==> json_model(#[trigger] items@[t]) == content_json(
                cs@[t]@,
            ),
        decreases n - j,
    {
        let ji = json_of_content(&cs[j]);
        items.push(ji);
        j = j + 1;
    }
    proof {
        lemma_model_items_props(items@, items@.len() as int);
        assert(model_items(items@, items@.len() as int) =~= cs@.map_values(
            |c: AnthropicContent| c@,
        ).map_values(|c: ContentModel| content_json(c)));
    }
    items
}

/// The wire object for one request message.
pub fn json_of_message(m: &AnthropicMessage) -> (r: Json)
    ensures
        r@ == message_json(m@),
{
    let content: Json = match &m.content {
        AnthropicMessageContent::Single(c) => json_of_content(c),
        AnthropicMessageContent::Multiple(cs) => Json::Arr(json_of_contents(cs)),
    };
    let ghost cm = content@;
    proof {
        assert(cm == (match m@.content {
            MsgContentModel::Single(c) => content_json(c),
            MsgContentModel::Multiple(cs) => JsonModel::Arr(
                cs.map_values(|c: ContentModel| content_json(c)),
            ),
        }));
    }
    let mut mem: Vec<(String, Json)> = Vec::new();
    mem.push((String::from_str("role"), Json::Str(m.role.clone())));
    mem.push((String::from_str("content"), content));
    let r = Json::Obj(mem);
    proof {
        lemma_model_members_props(mem@, 2);
        assert(model_members(mem@, 2) =~= seq![("role"@, JsonModel::Str(m.role@)), ("content"@, cm)]);
        assert(r@ == JsonModel::Obj(model_members(mem@, 2)));
        let ghost target = message_json(m@);
        assert(target matches JsonModel::Obj(x) && x.len() == 2);
        assert(target->Obj_0[0] == ("role"@, JsonModel::Str(m.role@)));
        assert(target->Obj_0[1] == ("content"@, cm));
        assert(target->Obj_0 =~= seq![("role"@, JsonModel::Str(m.role@)), ("content"@, cm)]);
        assert(message_json(m@) =~= JsonModel::Obj(
            seq![("role"@, JsonModel::Str(m.role@)), ("content"@, cm)],
        ));
    }
    r
}

/// The temperature lexeme for a value in thousandths.
pub fn milli_string(m: u32) -> (r: String)
    ensures
        r@ == milli_lexeme(m as nat),
{
    let mut out = crate::json::dec_string((m / 1000) as u64);
    out.append(".");
    proof {
        reveal_strlit(".");
        assert(out@ =~= dec_digits((m as nat) / 1000) + seq!['.']);
    }
    let f = m % 1000;
    if f == 0 {
        crate::json::append_digit(0, &mut out);
    } else if f % 100 == 0 {
        crate::json::append_digit((f / 100) as u64, &mut out);
    } else if f % 10 == 0 {
        crate::json::append_digit((f / 100) as u64, &mut out);
        crate::json::append_digit(((f / 10) % 10) as u64, &mut out);
    } else {
        crate::json::append_digit((f / 100) as u64, &mut out);
        crate::json::append_digit(((f / 10) % 10) as u64, &mut out);
        crate::json::append_digit((f % 10) as u64, &mut out);
    }
    proof {
        assert(out@ =~= milli_lexeme(m as nat));
    }
    out
}


/// A configured backend: the direct HTTPS API keyed by a bearer
/// credential, or the managed runtime reached through declared
/// credentials.  The transport client built from a configuration lives
/// with the caller; it is never part of this value.
#[derive(Clone, Debug)]
pub enum AnthropicModel {
    Anthropic { api_key: String, api_version: String, model: String },
    Bedrock { aws_config: Option<AwsConfig>, api_version: String, model: String },
}

impl AnthropicModel {
    pub fn new(api_key: String, api_version: String, model: String) -> (r: Self)
        ensures
            r == (AnthropicModel::Anthropic { api_key, api_version, model }),
    {
        AnthropicModel::Anthropic { api_key, api_version, model }
    }

    pub fn bedrock(api_version: String, model: String, aws_config: Option<AwsConfig>) -> (r: Self)
        ensures
            r == (AnthropicModel::Bedrock { aws_config, api_version, model }),
    {
        AnthropicModel::Bedrock { aws_config, api_version, model }
    }

    /// The version string the request body carries: only the managed
    /// runtime carries one (the direct API sends it as a header).
    pub open spec fn spec_body_version(&self) -> Option<Seq<char>> {
        match self {
            AnthropicModel::Anthropic { .. } => None,
            AnthropicModel::Bedrock { api_version, .. } => Some(api_version@),
        }
    }

    /// The model identifier the request body carries: only the direct API
    /// carries one (the managed runtime takes it as a call parameter).
    pub open spec fn spec_body_model(&self) -> Option<Seq<char>> {
        match self {
            AnthropicModel::Anthropic { model, .. } => Some(model@),
            AnthropicModel::Bedrock { .. } => None,
        }
    }

    /// The marshaled wire body of one call: exactly the rendering of
    /// `spec_request` for this backend variant.
    #[verifier::rlimit(100)]
    #[verifier::spinoff_prover]
    pub fn request_body(
        &self,
        messages: &Vec<AnthropicContent>,
        max_tokens: usize,
        stop_sequences: &Vec<String>,
        system: &Option<String>,
        temperature_milli: u32,
        conversation: &Option<Vec<AnthropicMessage>>,
    ) -> (r: String)
        ensures
            r@ == render_model(
                spec_request(
                    self.spec_body_version(),
                    self.spec_body_model(),
                    max_tokens as int,
                    spec_request_messages(
                        conversation_model(*conversation),
                        messages@.map_values(|c: AnthropicContent| c@),
                    ),
                    stop_sequences@.map_values(|s: String| s@),
                    (match system {
                        Some(sy) => Some(sy@),
                        None => None,
                    }),
                    temperature_milli as int,
                ),
            ),
    {
        let ghost content_ms = messages@.map_values(|c: AnthropicContent| c@);
        let mut request_messages: Vec<Json> = Vec::new();
        match conversation {
            Some(conv) => {
                let n = conv.len();
                let mut j: usize = 0;
                while j < n
                    invariant
                        j <= n,
                        n == conv@.len(),
                        request_messages@.len() == j,
                        forall|t: int|
                            0 <= t < j ==> json_model(#[trigger] request_messages@[t])
                                == message_json(conv@[t]@),
                    decreases n - j,
                {
                    let jm = json_of_message(&conv[j]);
                    request_messages.push(jm);
                    j = j + 1;
                }
            },
            None => {},
        }
        let ghost conv_ms = conversation_model(*conversation);
        proof {
            assert(request_messages@.len() == conv_ms.len());
            assert(forall|t: int|
                0 <= t < conv_ms.len() ==> json_model(#[trigger] request_messages@[t])
                    == message_json(conv_ms[t]));
        }
        let n = messages.len();
        if n == 1 {
            let cj = json_of_content(&messages[0]);
            let mut mem: Vec<(String, Json)> = Vec::new();
            mem.push((String::from_str("role"), jstr("user")));
            mem.push((String::from_str("content"), cj));
            let ghost cm = content_ms[0];
            proof {
                lemma_model_members_props(mem@, 2);
                assert(model_members(mem@, 2) =~= seq![
                    ("role"@, JsonModel::Str("user"@)),
                    ("content"@, content_json(cm)),
                ]);
            }
            request_messages.push(Json::Obj(mem));
            proof {
                let target = message_json(
                    MessageModel { role: "user"@, content: MsgContentModel::Single(cm) },
                );
                assert(target matches JsonModel::Obj(x) && x.len() == 2);
                assert(target->Obj_0[0] == ("role"@, JsonModel::Str("user"@)));
                assert(target->Obj_0[1] == ("content"@, content_json(cm)));
                assert(target->Obj_0 =~= seq![
                    ("role"@, JsonModel::Str("user"@)),
                    ("content"@, content_json(cm)),
                ]);
                assert(json_model(request_messages@.last()) =~= target);
            }
        } else if n > 1 {
            let items = json_of_contents(messages);
            let mut mem: Vec<(String, Json)> = Vec::new();
            mem.push((String::from_str("role"), jstr("user")));
            mem.push((String::from_str("content"), Json::Arr(items)));
            proof {
                lemma_model_members_props(mem@, 2);
                assert(model_members(mem@, 2) =~= seq![
                    ("role"@, JsonModel::Str("user"@)),
                    (
                        "content"@,
                        JsonModel::Arr(content_ms.map_values(|c: ContentModel| content_json(c))),
                    ),
                ]);
            }
            request_messages.push(Json::Obj(mem));
            proof {
                let target = message_json(
                    MessageModel { role: "user"@, content: MsgContentModel::Multiple(content_ms) },
                );
                assert(target matches JsonModel::Obj(x) && x.len() == 2);
                assert(target->Obj_0[0] == ("role"@, JsonModel::Str("user"@)));
                assert(target->Obj_0[1] == (
                    "content"@,
                    JsonModel::Arr(content_ms.map_values(|c: ContentModel| content_json(c))),
                ));
                assert(target->Obj_0 =~= seq![
                    ("role"@, JsonModel::Str("user"@)),
                    (
                        "content"@,
                        JsonModel::Arr(content_ms.map_values(|c: ContentModel| content_json(c))),
                    ),
                ]);
                assert(json_model(request_messages@.last()) =~= target);
            }
        }
        let ghost req_ms = spec_request_messages(conv_ms, content_ms);
        proof {
            assert(request_messages@.len() == req_ms.len());
            assert(forall|t: int|
                0 <= t < req_ms.len() ==> json_model(#[trigger] request_messages@[t])
                    == message_json(req_ms[t]));
            lemma_model_items_props(request_messages@, request_messages@.len() as int);
            assert(model_items(request_messages@, request_messages@.len() as int)
                =~= req_ms.map_values(|m: MessageModel| message_json(m)));
        }
        let mut mem: Vec<(String, Json)> = Vec::new();
        let ghost s1: Seq<(Seq<char>, JsonModel)> = match self.spec_body_version() {
            Some(v) => seq![("anthropic_version"@, JsonModel::Str(v))],
            None => Seq::empty(),
        };
        match self {
            AnthropicModel::Bedrock { api_version, .. } => {
                mem.push((String::from_str("anthropic_version"), Json::Str(api_version.clone())));
            },
            AnthropicModel::Anthropic { .. } => {},
        }
        proof {
            lemma_model_members_props(mem@, mem@.len() as int);
            assert(model_members(mem@, mem@.len() as int) =~= s1);
        }
        let ghost s2: Seq<(Seq<char>, JsonModel)> = match self.spec_body_model() {
            Some(v) => seq![("model"@, JsonModel::Str(v))],
            None => Seq::empty(),
        };
        match self {
            AnthropicModel::Anthropic { model, .. } => {
                mem.push((String::from_str("model"), Json::Str(model.clone())));
            },
            AnthropicModel::Bedrock { .. } => {},
        }
        proof {
            lemma_model_members_props(mem@, mem@.len() as int);
            assert(model_members(mem@, mem@.len() as int) =~= s1 + s2);
        }
        mem.push((String::from_str("max_tokens"), Json::Num(crate::json::dec_string(max_tokens as u64))));
        let ghost s3: Seq<(Seq<char>, JsonModel)> = seq![
            ("max_tokens"@, JsonModel::Num(dec_digits(max_tokens as nat))),
        ];
        mem.push((String::from_str("messages"), Json::Arr(request_messages)));
        let ghost s4: Seq<(Seq<char>, JsonModel)> = seq![
            ("messages"@, JsonModel::Arr(req_ms.map_values(|m: MessageModel| message_json(m)))),
        ];
        proof {
            lemma_model_members_props(mem@, mem@.len() as int);
            assert(model_members(mem@, mem@.len() as int) =~= s1 + s2 + s3 + s4);
        }
        let ghost stops_ms = stop_sequences@.map_values(|s: String| s@);
        let ghost s5: Seq<(Seq<char>, JsonModel)> = if stops_ms.len() == 0 {
            Seq::empty()
        } else {
            seq![
                (
                    "stop_sequences"@,
                    JsonModel::Arr(stops_ms.map_values(|t: Seq<char>| JsonModel::Str(t))),
                ),
            ]
        };
        if stop_sequences.len() > 0 {
            let sn = stop_sequences.len();
            let mut stops: Vec<Json> = Vec::new();
            let mut j: usize = 0;
            while j < sn
                invariant
                    j <= sn,
                    sn == stop_sequences@.len(),
                    stops@.len() == j,
                    forall|t: int|
                        0 <= t < j ==> json_model(#[trigger] stops@[t]) == JsonModel::Str(
                            stop_sequences@[t]@,
                        ),
                decreases sn - j,
            {
                stops.push(Json::Str(stop_sequences[j].clone()));
                j = j + 1;
            }
            proof {
                lemma_model_items_props(stops@, stops@.len() as int);
                assert(model_items(stops@, stops@.len() as int) =~= stops_ms.map_values(
                    |t: Seq<char>| JsonModel::Str(t),
                ));
            }
            mem.push((String::from_str("stop_sequences"), Json::Arr(stops)));
        }
        proof {
            lemma_model_members_props(mem@, mem@.len() as int);
            assert(model_members(mem@, mem@.len() as int) =~= s1 + s2 + s3 + s4 + s5);
        }
        let ghost s6: Seq<(Seq<char>, JsonModel)> = match system {
            Some(sy) => seq![("system"@, JsonModel::Str(sy@))],
            None => Seq::empty(),
        };
        match system {
            Some(sy) => {
                mem.push((String::from_str("system"), Json::Str(sy.clone())));
            },
            None => {},
        }
        mem.push((String::from_str("temperature"), Json::Num(milli_string(temperature_milli))));
        let ghost s7: Seq<(Seq<char>, JsonModel)> = seq![
            ("temperature"@, JsonModel::Num(milli_lexeme(temperature_milli as nat))),
        ];
        let body = Json::Obj(mem);
        proof {
            lemma_model_members_props(mem@, mem@.len() as int);
            assert(model_members(mem@, mem@.len() as int) =~= s1 + s2 + s3 + s4 + s5 + s6 + s7);
            let target = spec_request(
                self.spec_body_version(),
                self.spec_body_model(),
                max_tokens as int,
                req_ms,
                stops_ms,
                (match system {
                    Some(sy) => Some(sy@),
                    None => None,
                }),
                temperature_milli as int,
            );
            assert(target matches JsonModel::Obj(x) && x == s1 + s2 + s3 + s4 + s5 + s6 + s7);
            assert(body@ =~= target);
        }
        render_string(&body)
    }
}

/// The models of a prior conversation, in order; absence contributes no
/// turns.
pub open spec fn conversation_model(c: Option<Vec<AnthropicMessage>>) -> Seq<MessageModel> {
    match c {
        None => Seq::empty(),
        Some(v) => v@.map_values(|m: AnthropicMessage| m@),
    }
}


/// The decoded three-way envelope: a remote error or a message.
#[verifier::ext_equal]
pub enum EnvelopeModel {
    ErrorEnv(ErrModel),
    MessageEnv(MsgModel),
}

/// What one classified call yields: a message envelope, a remote error
/// envelope, a body that no reading of the protocol fits (with the
/// decoder's failure text), or a status off the protocol entirely.
#[verifier::ext_equal]
pub enum OutcomeModel {
    OkMsg(MsgModel),
    ErrEnv(ErrModel),
    Malformed(Seq<char>),
    BadStatus(int),
}

/// The string carried under the given key, where there is one.
pub open spec fn spec_str_field(m: Option<JsonModel>) -> Option<Seq<char>> {
    match m {
        Some(JsonModel::Str(s)) => Some(s),
        _ => None,
    }
}

/// The machine-sized count carried under the given key, where there is
/// one: a bare digit lexeme whose value fits.
pub open spec fn spec_usize_field(m: Option<JsonModel>) -> Option<int> {
    match m {
        Some(JsonModel::Num(lex)) => if lex.len() > 0 && crate::json::parse::all_digits(lex)
            && crate::json::parse::digits_val(lex) <= usize::MAX {
            Some(crate::json::parse::digits_val(lex))
        } else {
            None
        },
        _ => None,
    }
}

/// One decoded content block of a reply.
pub open spec fn spec_content_block(m: JsonModel) -> Option<ContentModel> {
    match m {
        JsonModel::Obj(mem) => match obj_lookup(mem, "type"@) {
            Some(JsonModel::Str(t)) => if t == "text"@ {
                match obj_lookup(mem, "text"@) {
                    Some(JsonModel::Str(tx)) => Some(ContentModel::Text(tx)),
                    _ => None,
                }
            } else if t == "image"@ {
                match obj_lookup(mem, "source"@) {
                    Some(JsonModel::Obj(smem)) => match (
                        spec_str_field(obj_lookup(smem, "type"@)),
                        spec_str_field(obj_lookup(smem, "media_type"@)),
                        spec_str_field(obj_lookup(smem, "data"@)),
                    ) {
                        (Some(enc), Some(mt), Some(d)) => Some(
                            ContentModel::Image(
                                ImageContentModel { encoding: enc, media_type: mt, data: d },
                            ),
                        ),
                        _ => None,
                    },
                    _ => None,
                }
            } else {
                None
            },
            _ => None,
        },
        _ => None,
    }
}

/// The decoded content list of a reply: every block must decode.
pub open spec fn spec_contents(items: Seq<JsonModel>) -> Option<Seq<ContentModel>>
    decreases items.len(),
{
    if items.len() == 0 {
        Some(Seq::empty())
    } else {
        match (spec_contents(items.drop_last()), spec_content_block(items.last())) {
            (Some(cs), Some(c)) => Some(cs.push(c)),
            _ => None,
        }
    }
}

/// The decoded message envelope held in the given object members.  A
/// recognized key that appears more than once reads by its first
/// occurrence (see `obj_lookup`).
pub open spec fn spec_message_env(mem: Seq<(Seq<char>, JsonModel)>) -> Option<MsgModel> {
    match (
        spec_str_field(obj_lookup(mem, "id"@)),
        spec_str_field(obj_lookup(mem, "model"@)),
        spec_str_field(obj_lookup(mem, "role"@)),
        spec_str_field(obj_lookup(mem, "stop_reason"@)),
    ) {
        (Some(id), Some(model), Some(role), Some(stop_reason)) => {
            let stop_sequence = match obj_lookup(mem, "stop_sequence"@) {
                None => Some(None),
                Some(JsonModel::Null) => Some(None),
                Some(JsonModel::Str(s)) => Some(Some(s)),
                _ => None,
            };
            let usage = match obj_lookup(mem, "usage"@) {
                Some(JsonModel::Obj(umem)) => match (
                    spec_usize_field(obj_lookup(umem, "input_tokens"@)),
                    spec_usize_field(obj_lookup(umem, "output_tokens"@)),
                ) {
                    (Some(i), Some(o)) => Some((i, o)),
                    _ => None,
                },
                _ => None,
            };
            let content = match obj_lookup(mem, "content"@) {
                Some(JsonModel::Arr(items)) => spec_contents(items),
                _ => None,
            };
            match (stop_sequence, usage, content) {
                (Some(ss), Some(us), Some(cs)) => Some(
                    MsgModel {
                        id: id,
                        model: model,
                        role: role,
                        stop_reason: stop_reason,
                        stop_sequence: ss,
                        input_tokens: us.0,
                        output_tokens: us.1,
                        content: cs,
                    },
                ),
                _ => None,
            }
        },
        _ => None,
    }
}

/// The decoded three-way envelope of a reply body.  A recognized key
/// that appears more than once reads by its first occurrence.
pub open spec fn spec_envelope(m: JsonModel) -> Option<EnvelopeModel> {
    match m {
        JsonModel::Obj(mem) => match obj_lookup(mem, "type"@) {
            Some(JsonModel::Str(t)) => if t == "error"@ {
                match obj_lookup(mem, "error"@) {
                    Some(JsonModel::Obj(emem)) => match (
                        spec_str_field(obj_lookup(emem, "type"@)),
                        spec_str_field(obj_lookup(emem, "message"@)),
                    ) {
                        (Some(et), Some(msg)) => Some(
                            EnvelopeModel::ErrorEnv(ErrModel { error_type: et, message: msg }),
                        ),
                        _ => None,
                    },
                    _ => None,
                }
            } else if t == "message"@ {
                match spec_message_env(mem) {
                    Some(msg) => Some(EnvelopeModel::MessageEnv(msg)),
                    None => None,
                }
            } else {
                None
            },
            _ => None,
        },
        _ => None,
    }
}

/// The decoder's failure text for a body that is not JSON at all.
pub open spec fn spec_not_json_text() -> Seq<char> {
    "response body is not valid JSON"@
}

/// The decoder's failure text for JSON that fits neither envelope.
pub open spec fn spec_no_envelope_text() -> Seq<char> {
    "response body fits neither a message nor an error envelope"@
}

/// The decoder's failure text for a message envelope under a failing
/// status.
pub open spec fn spec_stray_message_text() -> Seq<char> {
    "unexpected message envelope under a failing status"@
}

/// How one reply is classified, by HTTP status and body text.
///
/// A 200 reply yields its message envelope, or the error envelope it
/// carries.  A 4xx or 5xx reply yields its carried error envelope, and a
/// message envelope there is itself malformed.  A body that does not
/// parse, or parses to no envelope, is malformed, with a failure text
/// naming the cause.  Any other status is off the protocol, and its body
/// is not read.
pub open spec fn spec_classify(status: int, body: Seq<char>) -> OutcomeModel {
    if status == 200 {
        match crate::json::parse::spec_parse_json(body) {
            Some(m) => match spec_envelope(m) {
                Some(EnvelopeModel::ErrorEnv(e)) => OutcomeModel::ErrEnv(e),
                Some(EnvelopeModel::MessageEnv(msg)) => OutcomeModel::OkMsg(msg),
                None => OutcomeModel::Malformed(spec_no_envelope_text()),
            },
            None => OutcomeModel::Malformed(spec_not_json_text()),
        }
    } else if 400 <= status < 600 {
        match crate::json::parse::spec_parse_json(body) {
            Some(m) => match spec_envelope(m) {
                Some(EnvelopeModel::ErrorEnv(e)) => OutcomeModel::ErrEnv(e),
                Some(EnvelopeModel::MessageEnv(msg)) => OutcomeModel::Malformed(
                    spec_stray_message_text(),
                ),
                None => OutcomeModel::Malformed(spec_no_envelope_text()),
            },
            None => OutcomeModel::Malformed(spec_not_json_text()),
        }
    } else {
        OutcomeModel::BadStatus(status)
    }
}

/// Character-for-character equality of two texts.
fn str_eq(a: &str, b: &str) -> (r: bool)
    ensures
        r == (a@ == b@),
{
    let na = a.unicode_len();
    let nb = b.unicode_len();
    if na != nb {
        return false;
    }
    let mut i: usize = 0;
    while i < na
        invariant
            i <= na,
            na == a@.len(),
            na == b@.len(),
            forall|t: int| 0 <= t < i ==> a@[t] == b@[t],
        decreases na - i,
    {
        if a.get_char(i) != b.get_char(i) {
            return false;
        }
        i = i + 1;
    }
    proof {
        assert(a@ =~= b@);
    }
    true
}

/// The first member an object carries under the given key.
fn get_member<'a>(members: &'a Vec<(String, Json)>, key: &str) -> (r: Option<&'a Json>)
    ensures
        match r {
            Some(v) => obj_lookup(model_members(members@, members@.len() as int), key@) == Some(
                v@,
            ),
            None => obj_lookup(model_members(members@, members@.len() as int), key@) is None,
        },
{
    proof {
        lemma_model_members_props(members@, members@.len() as int);
    }
    let ghost ms = model_members(members@, members@.len() as int);
    let n = members.len();
    proof {
        assert(ms.subrange(0, n as int) =~= ms);
    }
    let mut i: usize = 0;
    while i < n
        invariant
            i <= n,
            n == members@.len(),
            ms == model_members(members@, members@.len() as int),
            ms.len() == n,
            forall|t: int|
                0 <= t < n ==> ms[t] == (members@[t].0@, json_model(members@[t].1)),
            obj_lookup(ms, key@) == obj_lookup(ms.subrange(i as int, n as int), key@),
        decreases n - i,
    {
        if str_eq(members[i].0.as_str(), key) {
            proof {
                assert(ms.subrange(i as int, n as int)[0] == ms[i as int]);
                assert(obj_lookup(ms.subrange(i as int, n as int), key@) == Some(ms[i as int].1));
            }
            return Some(&members[i].1);
        }
        proof {
            assert(ms.subrange(i as int, n as int)[0] == ms[i as int]);
            assert(ms.subrange(i as int, n as int).drop_first() =~= ms.subrange(
                i + 1,
                n as int,
            ));
        }
        i = i + 1;
    }
    proof {
        assert(ms.subrange(n as int, n as int).len() == 0);
    }
    None
}

/// One decoded content block: exactly what `spec_content_block` says.
fn decode_content(v: &Json) -> (r: Option<AnthropicContent>)
    ensures
        match r {
            Some(c) => spec_content_block(v@) == Some(c@),
            None => spec_content_block(v@) is None,
        },
{
    match v {
        Json::Obj(mem) => {
            match get_member(mem, "type") {
                Some(tv) => match tv {
                    Json::Str(t) => {
                        if str_eq(t.as_str(), "text") {
                            match get_member(mem, "text") {
                                Some(xv) => match xv {
                                    Json::Str(tx) => Some(
                                        AnthropicContent::Text { text: tx.clone() },
                                    ),
                                    _ => None,
                                },
                                None => None,
                            }
                        } else if str_eq(t.as_str(), "image") {
                            match get_member(mem, "source") {
                                Some(sv) => match sv {
                                    Json::Obj(smem) => {
                                        let enc = get_member(smem, "type");
                                        let mt = get_member(smem, "media_type");
                                        let d = get_member(smem, "data");
                                        match (enc, mt, d) {
                                            (Some(ev), Some(mv), Some(dv)) => match (
                                                ev,
                                                mv,
                                                dv,
                                            ) {
                                                (
                                                    Json::Str(es),
                                                    Json::Str(ms),
                                                    Json::Str(ds),
                                                ) => Some(
                                                    AnthropicContent::Image {
                                                        source: AnthropicImageContent {
                                                            encoding: es.clone(),
                                                            media_type: ms.clone(),
                                                            data: ds.clone(),
                                                        },
                                                    },
                                                ),
                                                _ => None,
                                            },
                                            _ => None,
                                        }
                                    },
                                    _ => None,
                                },
                                None => None,
                            }
                        } else {
                            None
                        }
                    },
                    _ => None,
                },
                None => None,
            }
        },
        _ => None,
    }
}

/// The decoded content list: exactly what `spec_contents` says.
fn decode_contents(items: &Vec<Json>) -> (r: Option<Vec<AnthropicContent>>)
    ensures
        match r {
            Some(cs) => spec_contents(model_items(items@, items@.len() as int)) == Some(
                cs@.map_values(|c: AnthropicContent| c@),
            ),
            None => spec_contents(model_items(items@, items@.len() as int)) is None,
        },
{
    proof {
        lemma_model_items_props(items@, items@.len() as int);
    }
    let ghost ms = model_items(items@, items@.len() as int);
    let n = items.len();
    let mut acc: Vec<AnthropicContent> = Vec::new();
    let mut i: usize = 0;
    while i < n
        invariant
            i <= n,
            n == items@.len(),
            ms == model_items(items@, items@.len() as int),
            ms.len() == n,
            forall|t: int| 0 <= t < n ==> ms[t] == json_model(items@[t]),
            spec_contents(ms.subrange(0, i as int)) == Some(
                acc@.map_values(|c: AnthropicContent| c@),
            ),
        decreases n - i,
    {
        match decode_content(&items[i]) {
            Some(c) => {
                let ghost accm = acc@.map_values(|c: AnthropicContent| c@);
                acc.push(c);
                proof {
                    assert(ms.subrange(0, i + 1 as int).drop_last() =~= ms.subrange(0, i as int));
                    assert(ms.subrange(0, i + 1 as int).last() == ms[i as int]);
                    assert(acc@.map_values(|c: AnthropicContent| c@) =~= accm.push(c@));
                }
            },
            None => {
                proof {
                    assert(ms.subrange(0, i + 1 as int).drop_last() =~= ms.subrange(0, i as int));
                    assert(ms.subrange(0, i + 1 as int).last() == ms[i as int]);
                    assert(spec_contents(ms.subrange(0, i + 1 as int)) is None);
                    lemma_contents_prefix_none(ms, i + 1 as int);
                }
                return None;
            },
        }
        i = i + 1;
    }
    proof {
        assert(ms.subrange(0, n as int) =~= ms);
    }
    Some(acc)
}

/// A list with an undecodable prefix is itself undecodable.
proof fn lemma_contents_prefix_none(items: Seq<JsonModel>, k: int)
    requires
        0 <= k <= items.len(),
        spec_contents(items.subrange(0, k)) is None,
    ensures
        spec_contents(items) is None,
    decreases items.len() - k,
{
    if k < items.len() {
        assert(items.subrange(0, k + 1).drop_last() =~= items.subrange(0, k));
        lemma_contents_prefix_none(items, k + 1);
    } else {
        assert(items.subrange(0, k) =~= items);
    }
}


/// The decoded message envelope held in the given members: exactly what
/// `spec_message_env` says.
fn decode_message(mem: &Vec<(String, Json)>) -> (r: Option<AnthropicMessageResponse>)
    ensures
        match r {
            Some(msg) => spec_message_env(model_members(mem@, mem@.len() as int)) == Some(msg@),
            None => spec_message_env(model_members(mem@, mem@.len() as int)) is None,
        },
{
    let id: String = match get_member(mem, "id") {
        Some(v) => match v {
            Json::Str(s) => s.clone(),
            _ => {
                return None;
            },
        },
        None => {
            return None;
        },
    };
    let model: String = match get_member(mem, "model") {
        Some(v) => match v {
            Json::Str(s) => s.clone(),
            _ => {
                return None;
            },
        },
        None => {
            return None;
        },
    };
    let role: String = match get_member(mem, "role") {
        Some(v) => match v {
            Json::Str(s) => s.clone(),
            _ => {
                return None;
            },
        },
        None => {
            return None;
        },
    };
    let stop_reason: String = match get_member(mem, "stop_reason") {
        Some(v) => match v {
            Json::Str(s) => s.clone(),
            _ => {
                return None;
            },
        },
        None => {
            return None;
        },
    };
    let stop_sequence: Option<String> = match get_member(mem, "stop_sequence") {
        None => None,
        Some(v) => match v {
            Json::Null => None,
            Json::Str(s) => Some(s.clone()),
            _ => {
                return None;
            },
        },
    };
    let usage: AnthropicUsage = match get_member(mem, "usage") {
        Some(v) => match v {
            Json::Obj(umem) => {
                let input_tokens = match get_member(umem, "input_tokens") {
                    Some(nv) => match nv {
                        Json::Num(lex) => match num_to_usize(lex) {
                            Some(n) => n,
                            None => {
                                return None;
                            },
                        },
                        _ => {
                            return None;
                        },
                    },
                    None => {
                        return None;
                    },
                };
                let output_tokens = match get_member(umem, "output_tokens") {
                    Some(nv) => match nv {
                        Json::Num(lex) => match num_to_usize(lex) {
                            Some(n) => n,
                            None => {
                                return None;
                            },
                        },
                        _ => {
                            return None;
                        },
                    },
                    None => {
                        return None;
                    },
                };
                AnthropicUsage { input_tokens, output_tokens }
            },
            _ => {
                return None;
            },
        },
        None => {
            return None;
        },
    };
    let content: Vec<AnthropicContent> = match get_member(mem, "content") {
        Some(v) => match v {
            Json::Arr(items) => match decode_contents(items) {
                Some(cs) => cs,
                None => {
                    return None;
                },
            },
            _ => {
                return None;
            },
        },
        None => {
            return None;
        },
    };
    let msg = AnthropicMessageResponse {
        id,
        model,
        role,
        stop_reason,
        stop_sequence,
        usage,
        content,
    };
    proof {
        let ghost ms = model_members(mem@, mem@.len() as int);
        assert(spec_message_env(ms) matches Some(mm) && mm =~= msg@);
    }
    Some(msg)
}

/// The machine count a digit lexeme stands for, where it fits.
fn num_to_usize(lex: &String) -> (r: Option<usize>)
    ensures
        match r {
            Some(n) => lex@.len() > 0 && crate::json::parse::all_digits(lex@)
                && crate::json::parse::digits_val(lex@) == n as int,
            None => !(lex@.len() > 0 && crate::json::parse::all_digits(lex@)
                && crate::json::parse::digits_val(lex@) <= usize::MAX),
        },
{
    match crate::json::parse::lexeme_u64(lex.as_str()) {
        Some(v) => {
            if v <= usize::MAX as u64 {
                Some(v as usize)
            } else {
                None
            }
        },
        None => None,
    }
}

/// The decoded three-way envelope, as the wire carries it.
#[derive(Debug)]
pub enum AnthropicResponse {
    Error { error: AnthropicErrorResponse },
    Message(AnthropicMessageResponse),
}

/// The decoded envelope of a parsed body: exactly what `spec_envelope`
/// says.
pub fn decode_envelope(v: &Json) -> (r: Option<AnthropicResponse>)
    ensures
        match r {
            Some(AnthropicResponse::Error { error }) => spec_envelope(v@) == Some(
                EnvelopeModel::ErrorEnv(error@),
            ),
            Some(AnthropicResponse::Message(msg)) => spec_envelope(v@) == Some(
                EnvelopeModel::MessageEnv(msg@),
            ),
            None => spec_envelope(v@) is None,
        },
{
    match v {
        Json::Obj(mem) => {
            match get_member(mem, "type") {
                Some(tv) => match tv {
                    Json::Str(t) => {
                        if str_eq(t.as_str(), "error") {
                            match get_member(mem, "error") {
                                Some(ev) => match ev {
                                    Json::Obj(emem) => {
                                        let et = match get_member(emem, "type") {
                                            Some(x) => match x {
                                                Json::Str(s) => s.clone(),
                                                _ => {
                                                    return None;
                                                },
                                            },
                                            None => {
                                                return None;
                                            },
                                        };
                                        let msg = match get_member(emem, "message") {
                                            Some(x) => match x {
                                                Json::Str(s) => s.clone(),
                                                _ => {
                                                    return None;
                                                },
                                            },
                                            None => {
                                                return None;
                                            },
                                        };
                                        Some(
                                            AnthropicResponse::Error {
                                                error: AnthropicErrorResponse {
                                                    error_type: et,
                                                    message: msg,
                                                },
                                            },
                                        )
                                    },
                                    _ => None,
                                },
                                None => None,
                            }
                        } else if str_eq(t.as_str(), "message") {
                            match decode_message(mem) {
                                Some(msg) => Some(AnthropicResponse::Message(msg)),
                                None => None,
                            }
                        } else {
                            None
                        }
                    },
                    _ => None,
                },
                None => None,
            }
        },
        _ => None,
    }
}

/// One classified reply, before normalization: the wire-level view of
/// what came back.
#[derive(Debug)]
pub enum WireOutcome {
    Message(AnthropicMessageResponse),
    ErrorEnvelope(AnthropicErrorResponse),
    Malformed(String),
    BadStatus(u16),
}

/// Classifies one reply of the direct API by status and body: exactly
/// what `spec_classify` says.
pub fn classify_response(status: u16, body: &str) -> (r: WireOutcome)
    ensures
        match (r, spec_classify(status as int, body@)) {
            (WireOutcome::Message(msg), OutcomeModel::OkMsg(mm)) => msg@ == mm,
            (WireOutcome::ErrorEnvelope(e), OutcomeModel::ErrEnv(em)) => e@ == em,
            (WireOutcome::Malformed(d), OutcomeModel::Malformed(dm)) => d@ == dm,
            (WireOutcome::BadStatus(s), OutcomeModel::BadStatus(sm)) => s as int == sm,
            _ => false,
        },
{
    if status == 200 {
        match crate::json::parse::parse_json(body) {
            Some(v) => match decode_envelope(&v) {
                Some(AnthropicResponse::Message(msg)) => WireOutcome::Message(msg),
                Some(AnthropicResponse::Error { error }) => WireOutcome::ErrorEnvelope(error),
                None => WireOutcome::Malformed(
                    String::from_str("response body fits neither a message nor an error envelope"),
                ),
            },
            None => WireOutcome::Malformed(
                String::from_str("response body is not valid JSON"),
            ),
        }
    } else if 400 <= status && status < 600 {
        match crate::json::parse::parse_json(body) {
            Some(v) => match decode_envelope(&v) {
                Some(AnthropicResponse::Message(_)) => WireOutcome::Malformed(
                    String::from_str("unexpected message envelope under a failing status"),
                ),
                Some(AnthropicResponse::Error { error }) => WireOutcome::ErrorEnvelope(error),
                None => WireOutcome::Malformed(
                    String::from_str("response body fits neither a message nor an error envelope"),
                ),
            },
            None => WireOutcome::Malformed(
                String::from_str("response body is not valid JSON"),
            ),
        }
    } else {
        WireOutcome::BadStatus(status)
    }
}

/// Classifies one reply of the managed runtime, which carries no status
/// line: by its payload alone, as a successful-status reply would be.
pub fn classify_bedrock_response(body: &str) -> (r: WireOutcome)
    ensures
        match (r, spec_classify(200, body@)) {
            (WireOutcome::Message(msg), OutcomeModel::OkMsg(mm)) => msg@ == mm,
            (WireOutcome::ErrorEnvelope(e), OutcomeModel::ErrEnv(em)) => e@ == em,
            (WireOutcome::Malformed(d), OutcomeModel::Malformed(dm)) => d@ == dm,
            _ => false,
        },
{
    classify_response(200, body)
}

/// The wire-level diagnostic view of a classified reply, as one
/// error-envelope result: a malformed body becomes an
/// `invalid_response_error` envelope carrying the failure text, an
/// off-protocol status an `invalid_status_error` envelope carrying its
/// decimal code.
pub fn wire_result(outcome: WireOutcome) -> (r: Result<
    AnthropicMessageResponse,
    AnthropicErrorResponse,
>)
    ensures
        match outcome {
            WireOutcome::Message(msg) => r matches Ok(m) && m == msg,
            WireOutcome::ErrorEnvelope(e) => r matches Err(re) && re == e,
            WireOutcome::Malformed(d) => r matches Err(re) && re.error_type@
                == "invalid_response_error"@ && re.message@ == d@,
            WireOutcome::BadStatus(s) => r matches Err(re) && re.error_type@
                == "invalid_status_error"@ && re.message@ == dec_digits(s as nat),
        },
{
    match outcome {
        WireOutcome::Message(msg) => Ok(msg),
        WireOutcome::ErrorEnvelope(e) => Err(e),
        WireOutcome::Malformed(d) => Err(
            AnthropicErrorResponse {
                error_type: String::from_str("invalid_response_error"),
                message: d,
            },
        ),
        WireOutcome::BadStatus(s) => Err(
            AnthropicErrorResponse {
                error_type: String::from_str("invalid_status_error"),
                message: crate::json::dec_string(s as u64),
            },
        ),
    }
}

/// The wire content block a turn marshals to.
pub open spec fn message_block(m: Message) -> ContentModel {
    match m {
        Message::Text { text } => ContentModel::Text(text@),
        Message::Image(img) => ContentModel::Image(
            ImageContentModel {
                encoding: "base64"@,
                media_type: img.media_type@,
                data: b64_of(img.data@),
            },
        ),
    }
}

/// The backend content blocks for the given turns, in order.
pub fn content_blocks(messages: &Vec<Message>) -> (r: Vec<AnthropicContent>)
    requires
        forall|i: int|
            0 <= i < messages@.len() ==> ((#[trigger] messages@[i]) matches Message::Image(img)
                ==> ((img.data@.len() + 2) / 3) * 4 <= usize::MAX),
    ensures
        r@.map_values(|c: AnthropicContent| c@) == messages@.map_values(
            |m: Message| message_block(m),
        ),
{
    let n = messages.len();
    let mut r: Vec<AnthropicContent> = Vec::new();
    let mut i: usize = 0;
    while i < n
        invariant
            i <= n,
            n == messages@.len(),
            r@.len() == i,
            forall|i2: int|
                0 <= i2 < messages@.len() ==> ((#[trigger] messages@[i2]) matches Message::Image(
                    img,
                ) ==> ((img.data@.len() + 2) / 3) * 4 <= usize::MAX),
            forall|t: int| 0 <= t < i ==> (#[trigger] r@[t])@ == message_block(messages@[t]),
        decreases n - i,
    {
        match &messages[i] {
            Message::Text { text } => {
                r.push(AnthropicContent::Text { text: text.clone() });
            },
            Message::Image(img) => {
                let source = AnthropicImageContent::of_image(img);
                r.push(AnthropicContent::Image { source });
            },
        }
        i = i + 1;
    }
    proof {
        assert(r@.map_values(|c: AnthropicContent| c@) =~= messages@.map_values(
            |m: Message| message_block(m),
        ));
    }
    r
}

/// The normalized reply drawn from a successful envelope: the first
/// content block alone.  An empty content list is the `no-content`
/// failure; an image block whose data does not decode is a decode
/// failure, never a half-built turn.
pub fn extract_message(response: &AnthropicMessageResponse) -> (r: Result<Message, Error>)
    ensures
        response.content@.len() == 0 ==> (r matches Err(Error::Unexpected(m)) && m@
            == "no-content"@),
        response.content@.len() > 0 ==> (match response.content@[0]@ {
            ContentModel::Text(t) => r matches Ok(Message::Text { text }) && text@ == t,
            ContentModel::Image(ic) => match b64_decode_of(ic.data) {
                Some(bytes) => r matches Ok(Message::Image(img)) && img.media_type@
                    == ic.media_type && img.data@ == bytes,
                None => r matches Err(Error::Decode(m)) && m@ == "invalid base64 data"@,
            },
        }),
{
    if response.content.len() == 0 {
        return Err(Error::Unexpected(String::from_str("no-content")));
    }
    match &response.content[0] {
        AnthropicContent::Text { text } => Ok(Message::Text { text: text.clone() }),
        AnthropicContent::Image { source } => match b64_decode(source.data.as_str()) {
            Some(data) => Ok(
                Message::Image(Image { media_type: source.media_type.clone(), data }),
            ),
            None => Err(Error::Decode(String::from_str("invalid base64 data"))),
        },
    }
}

/// The normalized result of one round trip, from its classified outcome.
///
/// A transport fault (the `Err` side, carrying the transport's own
/// diagnostic) is surfaced as `Error::Transport`, as-is.  A successful
/// envelope yields its first content block.  An error envelope carries
/// its message through verbatim as `Error::ModelResponse`.  A malformed
/// body is `Error::Decode` with the decoder's failure text.  A status
/// off the protocol is `Error::Unexpected`, named by its decimal code.
pub fn inference_result(outcome: Result<WireOutcome, String>) -> (r: Result<Message, Error>)
    ensures
        match outcome {
            Ok(WireOutcome::Message(msg)) => {
                &&& msg.content@.len() == 0 ==> (r matches Err(Error::Unexpected(m)) && m@
                    == "no-content"@)
                &&& msg.content@.len() > 0 ==> (match msg.content@[0]@ {
                    ContentModel::Text(t) => r matches Ok(Message::Text { text }) && text@ == t,
                    ContentModel::Image(ic) => match b64_decode_of(ic.data) {
                        Some(bytes) => r matches Ok(Message::Image(img)) && img.media_type@
                            == ic.media_type && img.data@ == bytes,
                        None => r matches Err(Error::Decode(m)) && m@
                            == "invalid base64 data"@,
                    },
                })
            },
            Ok(WireOutcome::ErrorEnvelope(e)) => r matches Err(Error::ModelResponse(m)) && m@
                == e.message@,
            Ok(WireOutcome::Malformed(d)) => r matches Err(Error::Decode(m)) && m@ == d@,
            Ok(WireOutcome::BadStatus(s)) => r matches Err(Error::Unexpected(m)) && m@
                == "invalid status "@ + dec_digits(s as nat),
            Err(t) => r matches Err(Error::Transport(m)) && m@ == t@,
        },
{
    match outcome {
        Ok(WireOutcome::Message(msg)) => extract_message(&msg),
        Ok(WireOutcome::ErrorEnvelope(e)) => Err(Error::ModelResponse(e.message)),
        Ok(WireOutcome::Malformed(d)) => Err(Error::Decode(d)),
        Ok(WireOutcome::BadStatus(s)) => {
            let mut m = String::from_str("invalid status ");
            crate::json::append_dec(s as u64, &mut m);
            Err(Error::Unexpected(m))
        },
        Err(t) => Err(Error::Transport(t)),
    }
}

impl AnthropicModel {
    /// The marshaled wire body for a whole prompt: its turns as content
    /// blocks, collapsed by count, with no prior conversation.
    pub fn prompt_body(&self, prompt: &LanguageModelPrompt) -> (r: String)
        requires
            forall|i: int|
                0 <= i < prompt.messages@.len() ==> ((#[trigger] prompt.messages@[i]) matches
                    Message::Image(img) ==> ((img.data@.len() + 2) / 3) * 4 <= usize::MAX),
        ensures
            r@ == render_model(
                spec_request(
                    self.spec_body_version(),
                    self.spec_body_model(),
                    prompt.max_tokens as int,
                    spec_request_messages(
                        Seq::empty(),
                        prompt.messages@.map_values(|m: Message| message_block(m)),
                    ),
                    prompt.stop_sequences@.map_values(|s: String| s@),
                    (match prompt.system {
                        Some(sy) => Some(sy@),
                        None => None,
                    }),
                    prompt.temperature_milli as int,
                ),
            ),
    {
        let blocks = content_blocks(&prompt.messages);
        let r = self.request_body(
            &blocks,
            prompt.max_tokens,
            &prompt.stop_sequences,
            &prompt.system,
            prompt.temperature_milli,
            &None,
        );
        proof {
            assert(conversation_model(None) =~= Seq::<MessageModel>::empty());
        }
        r
    }
}


/// Why a declared configuration was refused.
#[derive(Debug, Clone, Copy, PartialEq, Eq, Structural)]
pub enum ConfigError {
    /// The text is not a JSON object.
    Malformed,
    /// A key outside the recognized four appeared.
    UnknownField,
    /// A recognized key appeared twice.
    DuplicateField,
    /// Both `api_key` and `aws_config` were declared.
    MutuallyExclusiveFields,
    /// A recognized key carried a value of the wrong shape.
    InvalidValue,
    MissingApiVersion,
    MissingModel,
}

/// The mathematical shape of a configured backend.
#[verifier::ext_equal]
pub enum ModelConfigModel {
    Anthropic { api_key: Seq<char>, api_version: Seq<char>, model: Seq<char> },
    Bedrock { aws_config: Option<AwsConfigModel>, api_version: Seq<char>, model: Seq<char> },
}

impl View for AnthropicModel {
    type V = ModelConfigModel;

    open spec fn view(&self) -> ModelConfigModel {
        match self {
            AnthropicModel::Anthropic { api_key, api_version, model } => ModelConfigModel::Anthropic {
                api_key: api_key@,
                api_version: api_version@,
                model: model@,
            },
            AnthropicModel::Bedrock { aws_config, api_version, model } => ModelConfigModel::Bedrock {
                aws_config: match aws_config {
                    Some(a) => Some(a@),
                    None => None,
                },
                api_version: api_version@,
                model: model@,
            },
        }
    }
}

/// An optional string member: absent and null both mean absence.
pub open spec fn spec_opt_str(m: Option<JsonModel>) -> Result<Option<Seq<char>>, ConfigError> {
    match m {
        None => Ok(None),
        Some(JsonModel::Null) => Ok(None),
        Some(JsonModel::Str(s)) => Ok(Some(s)),
        Some(_) => Err(ConfigError::InvalidValue),
    }
}

/// A declared credential configuration: a map naming a profile, or one
/// carrying an explicit (possibly partial) key pair.  A null
/// `profile_name`, like an absent one, falls through to the credential
/// shape.
pub open spec fn spec_decode_aws(m: JsonModel) -> Result<AwsConfigModel, ConfigError> {
    match m {
        JsonModel::Obj(mem) => match spec_opt_str(obj_lookup(mem, "profile_name"@)) {
            Ok(Some(p)) => match spec_opt_str(obj_lookup(mem, "region"@)) {
                Ok(region) => Ok(AwsConfigModel::Profile { profile_name: p, region }),
                Err(e) => Err(e),
            },
            Err(_) => Err(ConfigError::InvalidValue),
            Ok(None) => match (
                spec_opt_str(obj_lookup(mem, "access_key"@)),
                spec_opt_str(obj_lookup(mem, "secret_key"@)),
                spec_opt_str(obj_lookup(mem, "region"@)),
            ) {
                (Ok(access_key), Ok(secret_key), Ok(region)) => Ok(
                    AwsConfigModel::Credential { access_key, secret_key, region },
                ),
                _ => Err(ConfigError::InvalidValue),
            },
        },
        _ => Err(ConfigError::InvalidValue),
    }
}

/// What the walk over the declared members has gathered so far.
#[verifier::ext_equal]
pub struct DecodeStateModel {
    pub api_key: Option<Seq<char>>,
    pub aws_config: Option<AwsConfigModel>,
    pub api_version: Option<Seq<char>>,
    pub model: Option<Seq<char>>,
}

/// How one declared member updates the walk: unknown keys, duplicate
/// keys and the joint presence of `api_key` and `aws_config` are refused
/// the moment they are seen.
pub open spec fn spec_step(
    k: Seq<char>,
    v: JsonModel,
    st: DecodeStateModel,
) -> Result<DecodeStateModel, ConfigError> {
    if k == "api_key"@ {
        if st.aws_config is Some {
            Err(ConfigError::MutuallyExclusiveFields)
        } else if st.api_key is Some {
            Err(ConfigError::DuplicateField)
        } else {
            match v {
                JsonModel::Str(s) => Ok(DecodeStateModel { api_key: Some(s), ..st }),
                _ => Err(ConfigError::InvalidValue),
            }
        }
    } else if k == "aws_config"@ {
        if st.api_key is Some {
            Err(ConfigError::MutuallyExclusiveFields)
        } else if st.aws_config is Some {
            Err(ConfigError::DuplicateField)
        } else {
            match spec_decode_aws(v) {
                Ok(a) => Ok(DecodeStateModel { aws_config: Some(a), ..st }),
                Err(e) => Err(e),
            }
        }
    } else if k == "api_version"@ {
        if st.api_version is Some {
            Err(ConfigError::DuplicateField)
        } else {
            match v {
                JsonModel::Str(s) => Ok(DecodeStateModel { api_version: Some(s), ..st }),
                _ => Err(ConfigError::InvalidValue),
            }
        }
    } else if k == "model"@ {
        if st.model is Some {
            Err(ConfigError::DuplicateField)
        } else {
            match v {
                JsonModel::Str(s) => Ok(DecodeStateModel { model: Some(s), ..st }),
                _ => Err(ConfigError::InvalidValue),
            }
        }
    } else {
        Err(ConfigError::UnknownField)
    }
}

/// One pass over the declared members, in order.
pub open spec fn spec_walk(
    mem: Seq<(Seq<char>, JsonModel)>,
    i: int,
    st: DecodeStateModel,
) -> Result<DecodeStateModel, ConfigError>
    decreases mem.len() - i,
{
    if i < 0 || i >= mem.len() {
        Ok(st)
    } else {
        match spec_step(mem[i].0, mem[i].1, st) {
            Ok(st2) => spec_walk(mem, i + 1, st2),
            Err(e) => Err(e),
        }
    }
}

/// What a declared configuration text decodes to.  The backend variant
/// is chosen by which credential field is present; declaring both is
/// refused outright, never resolved silently.
pub open spec fn spec_decode_config(body: Seq<char>) -> Result<ModelConfigModel, ConfigError> {
    match crate::json::parse::spec_parse_json(body) {
        Some(JsonModel::Obj(mem)) => match spec_walk(
            mem,
            0,
            DecodeStateModel { api_key: None, aws_config: None, api_version: None, model: None },
        ) {
            Ok(st) => match (st.api_version, st.model) {
                (Some(av), Some(mo)) => match st.api_key {
                    Some(k) => Ok(
                        ModelConfigModel::Anthropic { api_key: k, api_version: av, model: mo },
                    ),
                    None => Ok(
                        ModelConfigModel::Bedrock {
                            aws_config: st.aws_config,
                            api_version: av,
                            model: mo,
                        },
                    ),
                },
                (None, _) => Err(ConfigError::MissingApiVersion),
                (_, None) => Err(ConfigError::MissingModel),
            },
            Err(e) => Err(e),
        },
        Some(_) => Err(ConfigError::Malformed),
        None => Err(ConfigError::Malformed),
    }
}


/// An optional string member of the given object.
fn opt_str_member(mem: &Vec<(String, Json)>, key: &str) -> (r: Result<Option<String>, ConfigError>)
    ensures
        match r {
            Ok(Some(s)) => spec_opt_str(
                obj_lookup(model_members(mem@, mem@.len() as int), key@),
            ) == Ok::<Option<Seq<char>>, ConfigError>(Some(s@)),
            Ok(None) => spec_opt_str(obj_lookup(model_members(mem@, mem@.len() as int), key@))
                == Ok::<Option<Seq<char>>, ConfigError>(None),
            Err(e) => spec_opt_str(obj_lookup(model_members(mem@, mem@.len() as int), key@))
                == Err::<Option<Seq<char>>, ConfigError>(e),
        },
{
    match get_member(mem, key) {
        None => Ok(None),
        Some(v) => match v {
            Json::Null => Ok(None),
            Json::Str(s) => Ok(Some(s.clone())),
            _ => Err(ConfigError::InvalidValue),
        },
    }
}

/// One declared credential configuration: exactly what `spec_decode_aws`
/// says.
fn decode_aws(v: &Json) -> (r: Result<AwsConfig, ConfigError>)
    ensures
        match r {
            Ok(a) => spec_decode_aws(v@) == Ok::<AwsConfigModel, ConfigError>(a@),
            Err(e) => spec_decode_aws(v@) == Err::<AwsConfigModel, ConfigError>(e),
        },
{
    match v {
        Json::Obj(mem) => {
            match opt_str_member(mem, "profile_name") {
                Ok(Some(p)) => match opt_str_member(mem, "region") {
                    Ok(region) => Ok(AwsConfig::Profile { profile_name: p, region }),
                    Err(e) => Err(e),
                },
                Err(_) => Err(ConfigError::InvalidValue),
                Ok(None) => {
                    let access_key = match opt_str_member(mem, "access_key") {
                        Ok(a) => a,
                        Err(e) => {
                            return Err(e);
                        },
                    };
                    let secret_key = match opt_str_member(mem, "secret_key") {
                        Ok(s) => s,
                        Err(e) => {
                            return Err(e);
                        },
                    };
                    let region = match opt_str_member(mem, "region") {
                        Ok(rg) => rg,
                        Err(e) => {
                            return Err(e);
                        },
                    };
                    Ok(AwsConfig::Credential { access_key, secret_key, region })
                },
            }
        },
        _ => Err(ConfigError::InvalidValue),
    }
}

/// What the walk has gathered so far.
pub struct DecodeState {
    pub api_key: Option<String>,
    pub aws_config: Option<AwsConfig>,
    pub api_version: Option<String>,
    pub model: Option<String>,
}

impl View for DecodeState {
    type V = DecodeStateModel;

    open spec fn view(&self) -> DecodeStateModel {
        DecodeStateModel {
            api_key: match self.api_key {
                Some(s) => Some(s@),
                None => None,
            },
            aws_config: match self.aws_config {
                Some(a) => Some(a@),
                None => None,
            },
            api_version: match self.api_version {
                Some(s) => Some(s@),
                None => None,
            },
            model: match self.model {
                Some(s) => Some(s@),
                None => None,
            },
        }
    }
}

/// One declared member's effect on the walk: exactly what `spec_step`
/// says.
pub fn walk_step(k: &String, v: &Json, st: DecodeState) -> (r: Result<DecodeState, ConfigError>)
    ensures
        match r {
            Ok(st2) => spec_step(k@, v@, st@) == Ok::<DecodeStateModel, ConfigError>(st2@),
            Err(e) => spec_step(k@, v@, st@) == Err::<DecodeStateModel, ConfigError>(e),
        },
{
    if str_eq(k.as_str(), "api_key") {
        if st.aws_config.is_some() {
            Err(ConfigError::MutuallyExclusiveFields)
        } else if st.api_key.is_some() {
            Err(ConfigError::DuplicateField)
        } else {
            match v {
                Json::Str(s) => Ok(DecodeState { api_key: Some(s.clone()), ..st }),
                _ => Err(ConfigError::InvalidValue),
            }
        }
    } else if str_eq(k.as_str(), "aws_config") {
        if st.api_key.is_some() {
            Err(ConfigError::MutuallyExclusiveFields)
        } else if st.aws_config.is_some() {
            Err(ConfigError::DuplicateField)
        } else {
            match decode_aws(v) {
                Ok(a) => Ok(DecodeState { aws_config: Some(a), ..st }),
                Err(e) => Err(e),
            }
        }
    } else if str_eq(k.as_str(), "api_version") {
        if st.api_version.is_some() {
            Err(ConfigError::DuplicateField)
        } else {
            match v {
                Json::Str(s) => Ok(DecodeState { api_version: Some(s.clone()), ..st }),
                _ => Err(ConfigError::InvalidValue),
            }
        }
    } else if str_eq(k.as_str(), "model") {
        if st.model.is_some() {
            Err(ConfigError::DuplicateField)
        } else {
            match v {
                Json::Str(s) => Ok(DecodeState { model: Some(s.clone()), ..st }),
                _ => Err(ConfigError::InvalidValue),
            }
        }
    } else {
        Err(ConfigError::UnknownField)
    }
}

/// Decodes a declared configuration text: exactly what
/// `spec_decode_config` says.  The walk refuses a configuration that
/// declares both `api_key` and `aws_config` the moment the second of the
/// two is seen.
#[verifier::rlimit(100)]
#[verifier::spinoff_prover]
#[verifier::loop_isolation(false)]
pub fn decode_model_config(text: &str) -> (r: Result<AnthropicModel, ConfigError>)
    ensures
        match (r, spec_decode_config(text@)) {
            (Ok(m), Ok(mm)) => m@ == mm,
            (Err(e), Err(ee)) => e == ee,
            _ => false,
        },
{
    let parsed = match crate::json::parse::parse_json(text) {
        Some(v) => v,
        None => {
            return Err(ConfigError::Malformed);
        },
    };
    let mem = match &parsed {
        Json::Obj(mem) => mem,
        _ => {
            return Err(ConfigError::Malformed);
        },
    };
    proof {
        lemma_model_members_props(mem@, mem@.len() as int);
    }
    let ghost ms = model_members(mem@, mem@.len() as int);
    let mut st = DecodeState { api_key: None, aws_config: None, api_version: None, model: None };
    let ghost init = st@;
    let n = mem.len();
    let mut i: usize = 0;
    while i < n
        invariant
            i <= n,
            n == mem@.len(),
            ms == model_members(mem@, mem@.len() as int),
            ms.len() == n,
            forall|t: int| 0 <= t < n ==> ms[t] == (mem@[t].0@, json_model(mem@[t].1)),
            spec_walk(ms, 0, init) == spec_walk(ms, i as int, st@),
        decreases n - i,
    {
        let ghost stm = st@;
        st = match walk_step(&mem[i].0, &mem[i].1, st) {
            Ok(st2) => {
                proof {
                    assert(spec_walk(ms, i as int, stm) == spec_walk(ms, i + 1, st2@));
                }
                st2
            },
            Err(e) => {
                proof {
                    assert(spec_step(ms[i as int].0, ms[i as int].1, stm)
                        == Err::<DecodeStateModel, ConfigError>(e));
                    assert(spec_walk(ms, i as int, stm) == Err::<DecodeStateModel, ConfigError>(
                        e,
                    ));
                }
                return Err(e);
            },
        };
        i = i + 1;
    }
    proof {
        assert(spec_walk(ms, n as int, st@) == Ok::<DecodeStateModel, ConfigError>(st@));
        assert(spec_walk(ms, 0, init) == Ok::<DecodeStateModel, ConfigError>(st@));
    }
    let api_version = match st.api_version {
        Some(av) => av,
        None => {
            return Err(ConfigError::MissingApiVersion);
        },
    };
    let model = match st.model {
        Some(mo) => mo,
        None => {
            return Err(ConfigError::MissingModel);
        },
    };
    match st.api_key {
        Some(k) => Ok(AnthropicModel::Anthropic { api_key: k, api_version, model }),
        None => Ok(AnthropicModel::Bedrock { aws_config: st.aws_config, api_version, model }),
    }
}


proof fn lemma_walk_exclusive(mem: Seq<(Seq<char>, JsonModel)>, i: int, st: DecodeStateModel)
    requires
        0 <= i <= mem.len(),
        (exists|p: int| i <= p < mem.len() && mem[p].0 == "api_key"@) || st.api_key is Some,
        (exists|q: int| i <= q < mem.len() && mem[q].0 == "aws_config"@) || st.aws_config
            is Some,
        exists|w: int|
            i <= w < mem.len() && (mem[w].0 == "api_key"@ || mem[w].0 == "aws_config"@),
    ensures
        spec_walk(mem, i, st) is Err,
    decreases mem.len() - i,
{
    broadcast use vstd::string::group_string_axioms;

    reveal_strlit("api_key");
    reveal_strlit("aws_config");
    reveal_strlit("api_version");
    reveal_strlit("model");
    assert("api_key"@.len() == 7);
    assert("aws_config"@.len() == 10);
    let k = mem[i].0;
    match spec_step(k, mem[i].1, st) {
        Ok(st2) => {
            if k == "api_key"@ {
                assert(st2.api_key is Some);
                assert(st.aws_config is Some ==> false);
                let q = choose|q: int| i <= q < mem.len() && mem[q].0 == "aws_config"@;
                assert(i + 1 <= q < mem.len() && mem[q].0 == "aws_config"@);
                lemma_walk_exclusive(mem, i + 1, st2);
            } else if k == "aws_config"@ {
                assert(st2.aws_config is Some);
                let p = choose|p: int| i <= p < mem.len() && mem[p].0 == "api_key"@;
                assert(i + 1 <= p < mem.len() && mem[p].0 == "api_key"@);
                lemma_walk_exclusive(mem, i + 1, st2);
            } else {
                assert(st2.api_key == st.api_key);
                assert(st2.aws_config == st.aws_config);
                assert(exists|w: int|
                    i + 1 <= w < mem.len() && (mem[w].0 == "api_key"@ || mem[w].0
                        == "aws_config"@)) by {
                    let w = choose|w: int|
                        i <= w < mem.len() && (mem[w].0 == "api_key"@ || mem[w].0
                            == "aws_config"@);
                    assert(w != i);
                };
                lemma_walk_exclusive(mem, i + 1, st2);
            }
        },
        Err(e) => {},
    }
}

/// A declared configuration that names both `api_key` and `aws_config`
/// never decodes to a backend: it fails validation outright, whatever
/// else it holds, and neither field is silently preferred.
pub proof fn lemma_config_mutually_exclusive(body: Seq<char>)
    requires
        crate::json::parse::spec_parse_json(body) matches Some(JsonModel::Obj(mem))
            && (exists|p: int| 0 <= p < mem.len() && mem[p].0 == "api_key"@) && (exists|q: int|
            0 <= q < mem.len() && mem[q].0 == "aws_config"@),
    ensures
        spec_decode_config(body) is Err,
{
    let m = crate::json::parse::spec_parse_json(body)->0;
    let mem = m->Obj_0;
    let init = DecodeStateModel { api_key: None, aws_config: None, api_version: None, model: None };
    let p = choose|p: int| 0 <= p < mem.len() && mem[p].0 == "api_key"@;
    lemma_walk_exclusive(mem, 0, init);
}

} // verus!
