//! Configuration of the backend: model, store and transport settings, with
//! the documented defaults.
use vstd::prelude::*;

use crate::model::{ModelEngine, ModelId};

verus! {

/// Settings of the language model used for chat completion.
pub struct LlmConf {
    pub enabled: bool,
    pub model_id: ModelId,
    pub model_engine: ModelEngine,
    pub model_path: String,
    pub tokenizer_path: String,
    pub device: String,
}

/// Settings of the embedding model used for retrieval.
pub struct EmbeddingConf {
    pub enabled: bool,
    pub model_id: ModelId,
    pub model_engine: ModelEngine,
    pub model_path: String,
    pub tokenizer_path: String,
    pub device: String,
}

/// The whole backend configuration.
pub struct BackendConf {
    pub log_file_path: String,
    pub log_file_name: String,
    pub bind_addr: String,
    pub llm_conf: LlmConf,
    pub embedding_conf: EmbeddingConf,
    pub lancedb_path: String,
    pub redb_path: String,
    pub opendal_path: String,
}

/// Settings of a weights file loaded directly from disk.
pub struct LlamaCppModelConf {
    pub model_id: ModelId,
    pub model_path: String,
    pub tokenizer_path: String,
}

/// Command-line configuration of the backend: where its config file lives.
pub struct BackendConfig {
    pub config: String,
}

impl Default for LlmConf {
    fn default() -> (r: Self)
        ensures
            r.enabled == false,
            r.model_id is NotSet,
            r.model_engine is NotSet,
            r.model_path@ == ""@,
            r.tokenizer_path@ == ""@,
            r.device@ == ""@,
    {
        proof {
            reveal_strlit("");
        }
        LlmConf {
            enabled: false,
            model_id: ModelId::NotSet,
            model_engine: ModelEngine::NotSet,
            model_path: String::new(),
            tokenizer_path: String::new(),
            device: String::new(),
        }
    }
}

impl Default for EmbeddingConf {
    fn default() -> (r: Self)
        ensures
            r.enabled == false,
            r.model_id is NotSet,
            r.model_engine is NotSet,
            r.model_path@ == ""@,
            r.tokenizer_path@ == ""@,
            r.device@ == ""@,
    {
        proof {
            reveal_strlit("");
        }
        EmbeddingConf {
            enabled: false,
            model_id: ModelId::NotSet,
            model_engine: ModelEngine::NotSet,
            model_path: String::new(),
            tokenizer_path: String::new(),
            device: String::new(),
        }
    }
}

impl Default for BackendConf {
    /// The documented defaults: log file `zxrag.log`, bind address
    /// `0.0.0.0:3000`, store paths `lancedb`, `kb.redb` and `opendal`.
    fn default() -> (r: Self)
        ensures
            r.log_file_path@ == ""@,
            r.log_file_name@ == "zxrag.log"@,
            r.bind_addr@ == "0.0.0.0:3000"@,
            r.llm_conf.model_id is NotSet,
            r.embedding_conf.model_id is NotSet,
            r.lancedb_path@ == "lancedb"@,
            r.redb_path@ == "kb.redb"@,
            r.opendal_path@ == "opendal"@,
    {
        proof {
            reveal_strlit("");
        }
        BackendConf {
            log_file_path: String::new(),
            log_file_name: String::from_str("zxrag.log"),
            bind_addr: String::from_str("0.0.0.0:3000"),
            llm_conf: Default::default(),
            embedding_conf: Default::default(),
            lancedb_path: String::from_str("lancedb"),
            redb_path: String::from_str("kb.redb"),
            opendal_path: String::from_str("opendal"),
        }
    }
}

} // verus!
