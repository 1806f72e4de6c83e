//! The application context: configuration, the knowledge store, and the
//! set-once model handles, built once at startup and passed to every
//! handler.
use vstd::prelude::*;

use crate::conf::BackendConf;
use crate::error::CoreError;
use crate::knowledge_base::{
    spec_is_argmin, spec_valid_vector, EmbeddingModel, EmbeddingRecord, KnowledgeStore,
};
use crate::llm::{spec_valid_setting, LlmModel, Sampler, TextGeneration, TextGenerationSetting};
use crate::model::{spec_is_mistral, ModelId};
use crate::openai::{
    chat_completion_of, embedding_inputs, embedding_response_of, spec_message_text, spec_prompt,
    text_gen_setting_of, ChatCompletion, ChatCompletionRequest, ChatMessage, ChatMessages,
    CreateEmbeddingRequest, EmbeddingResponse, UserContent,
};
use crate::sampling::MAX_PENALTY_MILLI;

verus! {

/// The model ids a chat handle can be installed for.
pub open spec fn spec_llm_supported(model_id: ModelId) -> bool {
    ||| model_id is Mistral7bInstructV0_1
    ||| model_id is Mistral7bInstructV0_2
    ||| model_id is Zephyr7bBeta
    ||| model_id is PhiV2
}

/// The state every request handler works against.
pub struct BackendState<M, E> {
    pub config: BackendConf,
    pub store: KnowledgeStore,
    pub llm: Option<M>,
    pub embedding: Option<E>,
}

impl<M, E> BackendState<M, E> {
    /// A fresh context with an empty store and no model handles.
    pub fn new(config: BackendConf) -> (r: BackendState<M, E>)
        ensures
            r.store.wf(),
            r.store.kbs@.len() == 0,
            r.llm is None,
            r.embedding is None,
            r.config == config,
    {
        BackendState { config, store: KnowledgeStore::new(), llm: None, embedding: None }
    }

    /// Installs the chat model handle, once: an unsupported model id or an
    /// already-set handle is an error.
    pub fn set_llm_model_handle(&mut self, model_id: ModelId, model: M) -> (r: Result<
        (),
        CoreError,
    >)
        ensures
            r is Ok <==> spec_llm_supported(model_id) && old(self).llm is None,
            r is Ok ==> final(self).llm == Some(model),
            r is Err ==> final(self).llm == old(self).llm,
            final(self).config == old(self).config,
            final(self).store == old(self).store,
            final(self).embedding == old(self).embedding,
    {
        match model_id {
            ModelId::Mistral7bInstructV0_2
            | ModelId::Mistral7bInstructV0_1
            | ModelId::Zephyr7bBeta
            | ModelId::PhiV2 => {
                match &self.llm {
                    Some(_) => Err(
                        CoreError::Engine(String::from_str("set_llm_model_handle failed")),
                    ),
                    None => {
                        self.llm = Some(model);
                        Ok(())
                    },
                }
            },
            _ => Err(CoreError::Engine(String::from_str("model not implemented"))),
        }
    }

    /// Installs the embedding model handle, once: a second call is an error.
    pub fn set_embedding_model_handle(&mut self, model_id: ModelId, model: E) -> (r: Result<
        (),
        CoreError,
    >)
        ensures
            r is Ok <==> old(self).embedding is None,
            r is Ok ==> final(self).embedding == Some(model),
            r is Err ==> final(self).embedding == old(self).embedding,
            final(self).config == old(self).config,
            final(self).store == old(self).store,
            final(self).llm == old(self).llm,
    {
        let _ = model_id;
        match &self.embedding {
            Some(_) => Err(
                CoreError::Engine(String::from_str("set_embedding_model_handle failed")),
            ),
            None => {
                self.embedding = Some(model);
                Ok(())
            },
        }
    }

    /// The installed embedding model handle; an error when none was set.
    pub fn get_embedding_model(&self, model_id: ModelId) -> (r: Result<&E, CoreError>)
        ensures
            r is Ok <==> self.embedding is Some,
            r matches Ok(m) ==> (self.embedding matches Some(e) && *m == e),
    {
        let _ = model_id;
        match &self.embedding {
            Some(m) => Ok(m),
            None => Err(CoreError::Engine(String::from_str("get_embedding_model failed"))),
        }
    }
}

impl<M: LlmModel + Clone, E> BackendState<M, E> {
    /// Opens a generation session over a clone of the installed chat model;
    /// an error when no handle was set.
    pub fn get_text_gen<S: Sampler>(&self, sampler: S, setting: TextGenerationSetting) -> (r:
        Result<TextGeneration<M, S>, CoreError>)
        requires
            spec_valid_setting(&setting),
        ensures
            self.llm is None ==> r is Err,
            r matches Ok(g) ==> g.wf() && g.spec_fresh() && g.spec_setting() == setting,
    {
        match &self.llm {
            Some(m) => TextGeneration::new(m.clone(), sampler, setting),
            None => Err(CoreError::Engine(String::from_str("get LLM_MODEL_HANDLE failed"))),
        }
    }
}

/// The knowledge-base-scoped chat prompt: rewrites the last message with
/// retrieved context, then serializes the whole conversation for the model
/// family. On an error the conversation is left untouched.
pub fn kb_augmented_prompt<E2: EmbeddingModel>(
    store: &KnowledgeStore,
    embedder: &mut E2,
    kb_id: i64,
    messages: &mut ChatMessages,
    model_id: ModelId,
) -> (r: Result<String, CoreError>)
    requires
        store.wf(),
    ensures
        r matches Ok(p) ==> p@ == spec_prompt(final(messages).0@, spec_is_mistral(model_id)),
        !store.spec_has_kb(kb_id) ==> r is Err,
        old(messages).0@.len() == 0 ==> r is Err,
        r is Err ==> *final(messages) == *old(messages),
        r is Ok ==> ({
            let msgs0 = old(messages).0@;
            let recs = store.spec_table_records(kb_id);
            &&& msgs0.len() > 0
            &&& recs.len() > 0
            &&& final(messages).0@.len() == msgs0.len()
            &&& final(messages).0@.subrange(0, msgs0.len() - 1) == msgs0.subrange(
                0,
                msgs0.len() - 1,
            )
            &&& final(messages).0@.last() matches ChatMessage::User {
                content: UserContent::Text(t),
                name: Option::None,
            } && (exists|v: Seq<i64>, ri: int|
                #![trigger spec_is_argmin(recs, v, ri)]
                {
                    &&& spec_valid_vector(v)
                    &&& spec_is_argmin(recs, v, ri)
                    &&& t@ == spec_message_text(msgs0.last())
                        + " answer question use the following information: "@ + recs[ri].text@
                })
        }),
{
    match store.augment_last_message(embedder, kb_id, messages) {
        Ok(()) => {},
        Err(e) => {
            return Err(e);
        },
    }
    Ok(messages.to_prompt(model_id))
}


/// The embeddings endpoint's work: flattens the request input, embeds every
/// text through the embedding capability, and numbers the vectors in order.
pub fn create_embeddings_response<E2: EmbeddingModel>(
    embedder: &mut E2,
    req: &CreateEmbeddingRequest,
) -> (r: Result<EmbeddingResponse, CoreError>)
    ensures
        r matches Ok(resp) ==> {
            &&& resp.object@ == "list"@
            &&& resp.model@ == req.model@
            &&& forall|i: int|
                0 <= i < resp.embeddings@.len() ==> (#[trigger] resp.embeddings@[i]).index == i
        },
{
    let inputs = embedding_inputs(&req.input);
    let vectors = match embedder.embedding_batch(&inputs) {
        Ok(v) => v,
        Err(e) => {
            return Err(e);
        },
    };
    Ok(embedding_response_of(req.model.clone(), vectors))
}


/// The batch chat-completion endpoint's work: serializes the conversation,
/// derives the generation settings with their documented defaults, runs the
/// decode loop to completion, and wraps the generated text as the sole
/// assistant choice. A repeat penalty outside the range the policy's
/// arithmetic is defined on is rejected before any model access.
pub fn create_chat_completion<M: LlmModel + Clone, S: Sampler, E>(
    state: &BackendState<M, E>,
    sampler: S,
    req: &ChatCompletionRequest,
    id: String,
    created: i64,
    model_name: String,
    system_fingerprint: String,
) -> (r: Result<ChatCompletion, CoreError>)
    ensures
        state.llm is None ==> r is Err,
        (req.frequency_penalty_milli matches Some(p) && (p < 1 || p > MAX_PENALTY_MILLI))
            ==> r is Err,
        r matches Ok(c) ==> ({
            &&& c.id@ == id@
            &&& c.created == created
            &&& c.model@ == model_name@
            &&& c.system_fingerprint@ == system_fingerprint@
            &&& c.object@ == "text_completion"@
            &&& c.choices@.len() == 1
            &&& c.choices@[0].index == 0
            &&& c.choices@[0].message matches ChatMessage::Assistant { content: cc, .. }
                && cc is Some
            &&& c.usage.total_tokens == 0
        }),
{
    let prompt = req.messages.to_prompt(state.config.llm_conf.model_id);
    let setting = text_gen_setting_of(req, prompt);
    if setting.repeat_penalty_milli < 1 || setting.repeat_penalty_milli > MAX_PENALTY_MILLI {
        return Err(CoreError::BadRequest(String::from_str("repeat penalty out of range")));
    }
    let mut text_gen = match state.get_text_gen(sampler, setting) {
        Ok(g) => g,
        Err(e) => {
            return Err(e);
        },
    };
    let content = match text_gen.generate() {
        Ok(c) => c,
        Err(e) => {
            return Err(e);
        },
    };
    Ok(chat_completion_of(id, created, model_name, system_fingerprint, content))
}

} // verus!
