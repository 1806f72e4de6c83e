//! Model identifiers and engine kinds, with the family predicates that pick
//! prompt formats and decoding defaults.
use vstd::prelude::*;

verus! {

/// The models this service knows how to drive.
#[derive(Clone, Copy, Debug, PartialEq, Eq, Structural)]
pub enum ModelId {
    Zephyr7bAlpha,
    Zephyr7bBeta,
    Mistral7bInstructV0_1,
    Mistral7bInstructV0_2,
    PhiV2,
    BgeLargeZhV1_5,
    NotSet,
}

/// Which inference engine a model runs on.
#[derive(Clone, Copy, Debug, PartialEq, Eq, Structural)]
pub enum ModelEngine {
    HuggingFace,
    Gguf,
    NotSet,
}

pub open spec fn spec_is_mistral(m: ModelId) -> bool {
    m is Zephyr7bAlpha || m is Zephyr7bBeta || m is Mistral7bInstructV0_1
        || m is Mistral7bInstructV0_2
}

pub open spec fn spec_is_zephyr(m: ModelId) -> bool {
    m is Zephyr7bAlpha || m is Zephyr7bBeta
}

/// The canonical text name of a model id.
pub open spec fn spec_model_id_str(m: ModelId) -> Seq<char> {
    match m {
        ModelId::Zephyr7bAlpha => "zephyr-7b-alpha"@,
        ModelId::Zephyr7bBeta => "zephyr-7b-beta"@,
        ModelId::Mistral7bInstructV0_1 => "Mistral-7B-Instruct-v0.1"@,
        ModelId::Mistral7bInstructV0_2 => "Mistral-7B-Instruct-v0.2"@,
        ModelId::PhiV2 => "phi-2"@,
        ModelId::BgeLargeZhV1_5 => "bge-large-zh-v1.5"@,
        ModelId::NotSet => "None"@,
    }
}

impl ModelId {
    /// Mistral-family models share the `[INST] ... [/INST]` prompt format.
    pub fn is_mistral(&self) -> (r: bool)
        ensures
            r == spec_is_mistral(*self),
    {
        matches!(
            self,
            ModelId::Zephyr7bAlpha
                | ModelId::Zephyr7bBeta
                | ModelId::Mistral7bInstructV0_1
                | ModelId::Mistral7bInstructV0_2
        )
    }

    pub fn is_zephyr(&self) -> (r: bool)
        ensures
            r == spec_is_zephyr(*self),
    {
        matches!(self, ModelId::Zephyr7bAlpha | ModelId::Zephyr7bBeta)
    }

    pub fn is_open_chat(&self) -> (r: bool)
        ensures
            r == false,
    {
        false
    }

    /// The canonical text name of the model, as it appears in configuration
    /// and in API responses.
    pub fn as_str(&self) -> (r: &'static str)
        ensures
            r@ == spec_model_id_str(*self),
    {
        match self {
            ModelId::Zephyr7bAlpha => "zephyr-7b-alpha",
            ModelId::Zephyr7bBeta => "zephyr-7b-beta",
            ModelId::Mistral7bInstructV0_1 => "Mistral-7B-Instruct-v0.1",
            ModelId::Mistral7bInstructV0_2 => "Mistral-7B-Instruct-v0.2",
            ModelId::PhiV2 => "phi-2",
            ModelId::BgeLargeZhV1_5 => "bge-large-zh-v1.5",
            ModelId::NotSet => "None",
        }
    }
}

impl Default for ModelId {
    fn default() -> (r: Self)
        ensures
            r is NotSet,
    {
        ModelId::NotSet
    }
}

impl ModelEngine {
    pub fn as_str(&self) -> (r: &'static str)
        ensures
            *self is HuggingFace ==> r@ == "huggingface"@,
            *self is Gguf ==> r@ == "gguf"@,
            *self is NotSet ==> r@ == "None"@,
    {
        match self {
            ModelEngine::HuggingFace => "huggingface",
            ModelEngine::Gguf => "gguf",
            ModelEngine::NotSet => "None",
        }
    }
}

impl Default for ModelEngine {
    fn default() -> (r: Self)
        ensures
            r is NotSet,
    {
        ModelEngine::NotSet
    }
}

} // verus!
