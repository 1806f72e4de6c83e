//! Chat-completion request and response shapes, and the prompt builder that
//! serializes a conversation into one model-family-specific prompt string.
use vstd::prelude::*;

use crate::llm::TextGenerationSetting;
use crate::model::{spec_is_mistral, spec_model_id_str, ModelId};

verus! {

/// One function call requested by the assistant.
pub struct AssistantFunctionStub {
    pub name: String,
    pub arguments: String,
}

/// One tool call attached to an assistant message.
pub struct AssistantToolCall {
    pub id: String,
    pub type_: String,
    pub function: AssistantFunctionStub,
}

/// A piece of multi-part user content: a text span or an image reference.
pub enum ContentPart {
    Text { text: String },
    ImageUrl { url: String, detail: Option<String> },
}

/// User content: one text span, or several parts.
pub enum UserContent {
    Text(String),
    Parts(Vec<ContentPart>),
}

/// One message of a conversation, tagged by role.
pub enum ChatMessage {
    System { content: Option<String>, name: Option<String> },
    User { content: UserContent, name: Option<String> },
    Assistant {
        content: Option<String>,
        name: Option<String>,
        tool_calls: Option<Vec<AssistantToolCall>>,
    },
    Tool { content: Option<String>, tool_call_id: String },
}

/// An ordered conversation.
pub struct ChatMessages(pub Vec<ChatMessage>);

/// A tool the caller offers to the model.
pub enum ToolStub {
    Function { function: FunctionStub },
}

/// Description of one offered function; `parameters` carries its JSON schema
/// as text.
pub struct FunctionStub {
    pub description: Option<String>,
    pub name: String,
    pub parameters: String,
}

/// The textual rendering of one content part: the text itself, or a bracketed
/// image placeholder with its optional detail annotation.
pub open spec fn spec_part_text(p: ContentPart) -> Seq<char> {
    match p {
        ContentPart::Text { text } => text@,
        ContentPart::ImageUrl { url, detail } => match detail {
            Option::Some(d) => "<IMAGE "@ + url@ + "> ("@ + d@ + ")"@,
            Option::None => "<IMAGE "@ + url@ + ">"@,
        },
    }
}

/// The concatenated rendering of a sequence of content parts.
pub open spec fn spec_parts_text(ps: Seq<ContentPart>) -> Seq<char>
    decreases ps.len(),
{
    if ps.len() == 0 {
        Seq::empty()
    } else {
        spec_part_text(ps[0]) + spec_parts_text(ps.drop_first())
    }
}

impl ContentPart {
    /// Renders this part as prompt text.
    pub fn render(&self) -> (r: String)
        ensures
            r@ == spec_part_text(*self),
    {
        match self {
            ContentPart::Text { text } => text.clone(),
            ContentPart::ImageUrl { url, detail } => {
                let mut s = String::from_str("<IMAGE ");
                s.append(url.as_str());
                match detail {
                    Option::Some(d) => {
                        s.append("> (");
                        s.append(d.as_str());
                        s.append(")");
                    },
                    Option::None => {
                        s.append(">");
                    },
                }
                s
            },
        }
    }
}

fn render_parts(parts: &Vec<ContentPart>) -> (r: String)
    ensures
        r@ == spec_parts_text(parts@),
{
    let mut s = String::new();
    let n = parts.len();
    let mut i: usize = 0;
    while i < n
        invariant
            0 <= i <= n,
            n == parts@.len(),
            s@ == spec_parts_text(parts@.subrange(0, i as int)),
        decreases n - i,
    {
        let piece = parts[i].render();
        s.append(piece.as_str());
        proof {
            lemma_parts_text_snoc(parts@.subrange(0, i as int), parts@[i as int]);
            assert(parts@.subrange(0, i as int + 1) =~= parts@.subrange(0, i as int).push(
                parts@[i as int],
            ));
        }
        i += 1;
    }
    proof {
        assert(parts@.subrange(0, n as int) =~= parts@);
    }
    s
}

proof fn lemma_parts_text_snoc(ps: Seq<ContentPart>, p: ContentPart)
    ensures
        spec_parts_text(ps.push(p)) == spec_parts_text(ps) + spec_part_text(p),
    decreases ps.len(),
{
    if ps.len() == 0 {
        assert(ps.push(p)[0] == p);
        assert(ps.push(p).drop_first() =~= Seq::<ContentPart>::empty());
        assert(spec_parts_text(ps.push(p)) == spec_part_text(p) + spec_parts_text(
            Seq::<ContentPart>::empty(),
        ));
        assert(spec_part_text(p) + Seq::<char>::empty() =~= spec_part_text(p));
        assert(spec_parts_text(ps) + spec_part_text(p) =~= spec_part_text(p));
    } else {
        assert(ps.push(p).drop_first() =~= ps.drop_first().push(p));
        assert(ps.push(p)[0] == ps[0]);
        lemma_parts_text_snoc(ps.drop_first(), p);
        assert(spec_parts_text(ps.push(p)) =~= spec_parts_text(ps) + spec_part_text(p));
    }
}

/// The prompt fragment one message contributes. A leading `<s>` marker is
/// prepended when a system or user message stands first in the conversation.
pub open spec fn spec_message_prompt(m: ChatMessage, first: bool, mistral: bool) -> Seq<char> {
    let lead: Seq<char> = if first {
        "<s>"@
    } else {
        Seq::empty()
    };
    match m {
        ChatMessage::System { content: Option::Some(data), .. } => lead + (if mistral {
            "[INST] "@ + data@ + " Hi [/INST] Hello! how can I help you</s>"@
        } else {
            "<|SYSTEM|>"@ + data@
        }),
        ChatMessage::User { content: UserContent::Text(data), .. } => lead + (if mistral {
            "[INST] "@ + data@ + " [/INST]"@
        } else {
            "<|USER|>"@ + data@
        }),
        ChatMessage::User { content: UserContent::Parts(ps), .. } => lead + (if mistral {
            "[INST] "@ + spec_parts_text(ps@) + " [/INST]"@
        } else {
            "<|USER|>"@ + spec_parts_text(ps@)
        }),
        ChatMessage::Assistant { content: Option::Some(data), .. } => if mistral {
            data@
        } else {
            "<|ASSISTANT|>"@ + data@
        },
        ChatMessage::Tool { content: Option::Some(data), .. } => "<|TOOL|>"@ + data@,
        _ => Seq::empty(),
    }
}

/// The prompt built from the first `n` messages.
pub open spec fn spec_prompt_prefix(ms: Seq<ChatMessage>, n: int, mistral: bool) -> Seq<char>
    decreases n,
{
    if n <= 0 {
        Seq::empty()
    } else {
        spec_prompt_prefix(ms, n - 1, mistral) + spec_message_prompt(ms[n - 1], n - 1 == 0, mistral)
    }
}

/// The whole prompt of a conversation.
pub open spec fn spec_prompt(ms: Seq<ChatMessage>, mistral: bool) -> Seq<char> {
    spec_prompt_prefix(ms, ms.len() as int, mistral)
}

impl ChatMessages {
    /// Serializes the conversation, in order, into the prompt format of the
    /// given model family. Messages with absent content contribute nothing.
    pub fn to_prompt(&self, model_id: ModelId) -> (r: String)
        ensures
            r@ == spec_prompt(self.0@, spec_is_mistral(model_id)),
    {
        let mistral = model_id.is_mistral();
        let mut prompt = String::new();
        let n = self.0.len();
        let mut i: usize = 0;
        while i < n
            invariant
                0 <= i <= n,
                n == self.0@.len(),
                prompt@ == spec_prompt_prefix(self.0@, i as int, mistral),
                mistral == spec_is_mistral(model_id),
            decreases n - i,
        {
            let ghost pre = prompt@;
            let first = i == 0;
            match &self.0[i] {
                ChatMessage::System { content: Option::Some(data), .. } => {
                    if first {
                        prompt.append("<s>");
                    }
                    if mistral {
                        prompt.append("[INST] ");
                        prompt.append(data.as_str());
                        prompt.append(" Hi [/INST] Hello! how can I help you</s>");
                    } else {
                        prompt.append("<|SYSTEM|>");
                        prompt.append(data.as_str());
                    }
                },
                ChatMessage::User { content: UserContent::Text(data), .. } => {
                    if first {
                        prompt.append("<s>");
                    }
                    if mistral {
                        prompt.append("[INST] ");
                        prompt.append(data.as_str());
                        prompt.append(" [/INST]");
                    } else {
                        prompt.append("<|USER|>");
                        prompt.append(data.as_str());
                    }
                },
                ChatMessage::User { content: UserContent::Parts(ps), .. } => {
                    if first {
                        prompt.append("<s>");
                    }
                    let rendered = render_parts(ps);
                    if mistral {
                        prompt.append("[INST] ");
                        prompt.append(rendered.as_str());
                        prompt.append(" [/INST]");
                    } else {
                        prompt.append("<|USER|>");
                        prompt.append(rendered.as_str());
                    }
                },
                ChatMessage::Assistant { content: Option::Some(data), .. } => {
                    if mistral {
                        prompt.append(data.as_str());
                    } else {
                        prompt.append("<|ASSISTANT|>");
                        prompt.append(data.as_str());
                    }
                },
                ChatMessage::Tool { content: Option::Some(data), .. } => {
                    prompt.append("<|TOOL|>");
                    prompt.append(data.as_str());
                },
                _ => {},
            }
            proof {
                assert(prompt@ =~= pre + spec_message_prompt(
                    self.0@[i as int],
                    i == 0,
                    mistral,
                ));
                assert(prompt@ =~= spec_prompt_prefix(self.0@, i as int + 1, mistral));
            }
            i += 1;
        }
        prompt
    }
}

/// The plain text a message carries, used as the retrieval query: its
/// content, with multi-part user content rendered and concatenated.
pub open spec fn spec_message_text(m: ChatMessage) -> Seq<char> {
    match m {
        ChatMessage::System { content: Option::Some(d), .. } => d@,
        ChatMessage::User { content: UserContent::Text(d), .. } => d@,
        ChatMessage::User { content: UserContent::Parts(ps), .. } => spec_parts_text(ps@),
        ChatMessage::Assistant { content: Option::Some(d), .. } => d@,
        ChatMessage::Tool { content: Option::Some(d), .. } => d@,
        _ => Seq::empty(),
    }
}

impl ChatMessage {
    /// The plain text of this message.
    pub fn message_text(&self) -> (r: String)
        ensures
            r@ == spec_message_text(*self),
    {
        match self {
            ChatMessage::System { content: Option::Some(d), .. } => d.clone(),
            ChatMessage::User { content: UserContent::Text(d), .. } => d.clone(),
            ChatMessage::User { content: UserContent::Parts(ps), .. } => render_parts(ps),
            ChatMessage::Assistant { content: Option::Some(d), .. } => d.clone(),
            ChatMessage::Tool { content: Option::Some(d), .. } => d.clone(),
            _ => String::new(),
        }
    }
}

/// A chat-completion request. Sampling knobs are carried in thousandths
/// (`800` stands for a temperature of 0.8), so that the core's decisions
/// stay exact.
pub struct ChatCompletionRequest {
    pub messages: ChatMessages,
    pub model: String,
    pub frequency_penalty_milli: Option<u64>,
    pub max_tokens: Option<u64>,
    pub seed: Option<u64>,
    pub stop: Option<Vec<String>>,
    pub stream: Option<bool>,
    pub temperature_milli: Option<u64>,
    pub top_p_milli: Option<u64>,
    pub tools: Option<Vec<ToolStub>>,
    pub user: Option<String>,
    pub one_shot: Option<bool>,
}

/// Token counts reported with a batch completion.
pub struct ChatCompletionUsage {
    pub completion_tokens: u64,
    pub prompt_tokens: u64,
    pub total_tokens: u64,
}

/// One choice of a batch completion.
pub struct ChatCompletionChoice {
    pub message: ChatMessage,
    pub finish_reason: Option<String>,
    pub index: i32,
}

/// A batch chat-completion response.
pub struct ChatCompletion {
    pub id: String,
    pub choices: Vec<ChatCompletionChoice>,
    pub created: i64,
    pub model: String,
    pub system_fingerprint: String,
    pub object: String,
    pub usage: ChatCompletionUsage,
}

/// The delta of one streamed chunk.
pub struct ChatCompletionChunkDelta {
    pub content: Option<String>,
    pub role: Option<String>,
}

/// One choice of a streamed chunk.
pub struct ChatCompletionChunkChoice {
    pub delta: ChatCompletionChunkDelta,
    pub finish_reason: Option<String>,
    pub index: u64,
}

/// One chunk of a streamed completion.
pub struct ChatCompletionChunk {
    pub id: String,
    pub choices: Vec<ChatCompletionChunkChoice>,
    pub created: i64,
    pub model: String,
    pub system_fingerprint: String,
    pub object: String,
}

/// The input of an embeddings request: one string or several.
pub enum EmbeddingInput {
    Single(String),
    Many(Vec<String>),
}

/// An embeddings request.
pub struct CreateEmbeddingRequest {
    pub input: EmbeddingInput,
    pub model: String,
    pub encoding_format: Option<String>,
    pub dimensions: Option<usize>,
}

/// One embedding of an embeddings response. Vector entries are fixed-point
/// values in millionths.
pub struct Embedding {
    pub object: String,
    pub embedding: Vec<i64>,
    pub index: usize,
}

/// Token counts reported with an embeddings response.
pub struct EmbeddingsUsage {
    pub prompt_tokens: usize,
    pub total_tokens: usize,
}

/// An embeddings response.
pub struct EmbeddingResponse {
    pub object: String,
    pub embeddings: Vec<Embedding>,
    pub model: String,
    pub usage: EmbeddingsUsage,
}

/// One model listed by the service.
pub struct ModelDescription {
    pub id: String,
    pub created: u64,
    pub object: String,
    pub owned_by: String,
}

/// The list of models the service offers.
pub struct ModelsResponse {
    pub object: String,
    pub data: Vec<ModelDescription>,
}

/// One stored file, as listed by the service.
pub struct File {
    pub id: String,
    pub bytes: i64,
    pub created_at: i64,
    pub filename: String,
    pub object: String,
    pub purpose: String,
}

/// The list of stored files.
pub struct ListFilesResponse {
    pub object: String,
    pub data: Vec<File>,
}

/// Acknowledgement of a file deletion.
pub struct DeleteFileResponse {
    pub id: String,
    pub object: String,
    pub deleted: bool,
}

/// Flattens the embeddings input into the list of texts to embed.
pub fn embedding_inputs(input: &EmbeddingInput) -> (r: Vec<String>)
    ensures
        input matches EmbeddingInput::Single(s) ==> r@.len() == 1 && r@[0]@ == s@,
        input matches EmbeddingInput::Many(v) ==> r@ == v@,
{
    match input {
        EmbeddingInput::Single(s) => {
            let mut v: Vec<String> = Vec::new();
            v.push(s.clone());
            v
        },
        EmbeddingInput::Many(v) => v.clone(),
    }
}

/// Builds the embeddings response: one entry per vector, in order, each
/// numbered by its position.
pub fn embedding_response_of(model: String, vectors: Vec<Vec<i64>>) -> (r: EmbeddingResponse)
    ensures
        r.object@ == "list"@,
        r.model@ == model@,
        r.usage.prompt_tokens == 0,
        r.usage.total_tokens == 0,
        r.embeddings@.len() == vectors@.len(),
        forall|i: int|
            0 <= i < vectors@.len() ==> {
                &&& (#[trigger] r.embeddings@[i]).object@ == "embedding"@
                &&& r.embeddings@[i].embedding@ == vectors@[i]@
                &&& r.embeddings@[i].index == i
            },
{
    let n = vectors.len();
    let mut i: usize = 0;
    let rest = vectors;
    let mut out: Vec<Embedding> = Vec::new();
    while i < n
        invariant
            0 <= i <= n,
            n == rest@.len(),
            out@.len() == i,
            forall|j: int|
                0 <= j < i ==> {
                    &&& (#[trigger] out@[j]).object@ == "embedding"@
                    &&& out@[j].embedding@ == rest@[j]@
                    &&& out@[j].index == j
                },
        decreases n - i,
    {
        out.push(
            Embedding {
                object: String::from_str("embedding"),
                embedding: rest[i].clone(),
                index: i,
            },
        );
        i += 1;
    }
    EmbeddingResponse {
        object: String::from_str("list"),
        embeddings: out,
        model,
        usage: EmbeddingsUsage { prompt_tokens: 0, total_tokens: 0 },
    }
}

/// Builds the batch chat-completion response around the generated text.
pub fn chat_completion_of(
    id: String,
    created: i64,
    model: String,
    system_fingerprint: String,
    content: String,
) -> (r: ChatCompletion)
    ensures
        r.id@ == id@,
        r.created == created,
        r.model@ == model@,
        r.system_fingerprint@ == system_fingerprint@,
        r.object@ == "text_completion"@,
        r.choices@.len() == 1,
        r.choices@[0].index == 0,
        r.choices@[0].finish_reason is None,
        r.choices@[0].message matches ChatMessage::Assistant { content: c, name, tool_calls }
            && c matches Option::Some(t) && t@ == content@ && name is None && tool_calls is None,
        r.usage.completion_tokens == 0 && r.usage.prompt_tokens == 0 && r.usage.total_tokens == 0,
{
    let mut choices: Vec<ChatCompletionChoice> = Vec::new();
    choices.push(
        ChatCompletionChoice {
            message: ChatMessage::Assistant {
                content: Option::Some(content),
                name: Option::None,
                tool_calls: Option::None,
            },
            finish_reason: Option::None,
            index: 0,
        },
    );
    ChatCompletion {
        id,
        choices,
        created,
        model,
        system_fingerprint,
        object: String::from_str("text_completion"),
        usage: ChatCompletionUsage { completion_tokens: 0, prompt_tokens: 0, total_tokens: 0 },
    }
}

/// Builds one streamed chunk around a generated fragment.
pub fn chat_completion_chunk_of(
    id: String,
    created: i64,
    model: String,
    system_fingerprint: String,
    content: String,
) -> (r: ChatCompletionChunk)
    ensures
        r.id@ == id@,
        r.created == created,
        r.model@ == model@,
        r.system_fingerprint@ == system_fingerprint@,
        r.object@ == "text_completion"@,
        r.choices@.len() == 1,
        r.choices@[0].index == 0,
        r.choices@[0].finish_reason is None,
        r.choices@[0].delta.role is None,
        r.choices@[0].delta.content matches Option::Some(t) && t@ == content@,
{
    let mut choices: Vec<ChatCompletionChunkChoice> = Vec::new();
    choices.push(
        ChatCompletionChunkChoice {
            delta: ChatCompletionChunkDelta {
                content: Option::Some(content),
                role: Option::None,
            },
            finish_reason: Option::None,
            index: 0,
        },
    );
    ChatCompletionChunk {
        id,
        choices,
        created,
        model,
        system_fingerprint,
        object: String::from_str("text_completion"),
    }
}

/// Builds the models listing: the chat model and the embedding model, in that
/// order.
pub fn models_response_of(llm_id: ModelId, embedding_id: ModelId, created: u64) -> (r:
    ModelsResponse)
    ensures
        r.object@ == "list"@,
        r.data@.len() == 2,
        r.data@[0].id@ == spec_model_id_str(llm_id),
        r.data@[0].owned_by@ == "llm"@,
        r.data@[0].object@ == "model"@,
        r.data@[0].created == created,
        r.data@[1].id@ == spec_model_id_str(embedding_id),
        r.data@[1].owned_by@ == "embedding"@,
        r.data@[1].object@ == "model"@,
        r.data@[1].created == created,
{
    let mut data: Vec<ModelDescription> = Vec::new();
    data.push(
        ModelDescription {
            id: String::from_str(llm_id.as_str()),
            created,
            object: String::from_str("model"),
            owned_by: String::from_str("llm"),
        },
    );
    data.push(
        ModelDescription {
            id: String::from_str(embedding_id.as_str()),
            created,
            object: String::from_str("model"),
            owned_by: String::from_str("embedding"),
        },
    );
    ModelsResponse { object: String::from_str("list"), data }
}


/// Builds the generation settings of a request, applying the documented
/// defaults: temperature 0.8, seed 299792458, repeat penalty 1.1 over the
/// last 64 tokens, and a budget of 128 tokens; an oversized budget falls
/// back to the default.
pub fn text_gen_setting_of(req: &ChatCompletionRequest, prompt: String) -> (r:
    TextGenerationSetting)
    ensures
        r.temperature_milli == if req.temperature_milli is Some {
            req.temperature_milli->0
        } else {
            800u64
        },
        r.top_p_milli == req.top_p_milli,
        r.seed == if req.seed is Some {
            req.seed->0
        } else {
            299792458u64
        },
        r.repeat_penalty_milli == if req.frequency_penalty_milli is Some {
            req.frequency_penalty_milli->0
        } else {
            1100u64
        },
        r.repeat_last_n == 64,
        r.sample_len == if req.max_tokens is Some {
            if req.max_tokens->0 <= usize::MAX {
                req.max_tokens->0 as usize
            } else {
                128
            }
        } else {
            128
        },
        r.prompt@ == prompt@,
{
    let temperature_milli: u64 = match req.temperature_milli {
        Some(t) => t,
        None => 800,
    };
    let seed: u64 = match req.seed {
        Some(v) => v,
        None => 299792458,
    };
    let repeat_penalty_milli: u64 = match req.frequency_penalty_milli {
        Some(p) => p,
        None => 1100,
    };
    let sample_len: usize = match req.max_tokens {
        Some(v) => {
            if v <= usize::MAX as u64 {
                v as usize
            } else {
                128
            }
        },
        None => 128,
    };
    TextGenerationSetting {
        temperature_milli,
        top_p_milli: req.top_p_milli,
        seed,
        repeat_penalty_milli,
        repeat_last_n: 64,
        sample_len,
        prompt,
    }
}

} // verus!
