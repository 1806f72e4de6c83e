use zxrag::error::CoreError;
use zxrag::handle::{create_embeddings_response, kb_augmented_prompt, BackendState};
use zxrag::openai::{CreateEmbeddingRequest, EmbeddingInput};
use zxrag::knowledge_base::{kb_table_name, EmbeddingModel, KnowledgeStore, EMBEDDING_DIM};
use zxrag::model::ModelId;
use zxrag::openai::{ChatMessage, ChatMessages, UserContent};

/// A deterministic embedder: the text's byte sum in the first coordinate,
/// zeros elsewhere, always the fixed dimension.
struct SumEmbedder;

fn embed_text(text: &str) -> Vec<i64> {
    let mut v = vec![0i64; EMBEDDING_DIM];
    v[0] = text.bytes().map(|b| b as i64).sum::<i64>() % 100000;
    v
}

impl EmbeddingModel for SumEmbedder {
    fn embedding_batch(&mut self, prompts: &Vec<String>) -> Result<Vec<Vec<i64>>, CoreError> {
        Ok(prompts.iter().map(|p| embed_text(p)).collect())
    }
}

/// An embedder that always fails.
struct FailingEmbedder;

impl EmbeddingModel for FailingEmbedder {
    fn embedding_batch(&mut self, _prompts: &Vec<String>) -> Result<Vec<Vec<i64>>, CoreError> {
        Err(CoreError::Engine("embedding model failed".to_string()))
    }
}

fn store_with_docs_kb() -> KnowledgeStore {
    let mut store = KnowledgeStore::new();
    let resp = store.create_knowledge_base("docs".to_string(), 100).unwrap();
    assert_eq!(resp.id, 1);
    assert_eq!(resp.name, "docs");
    assert!(!resp.existed);
    store
}

#[test]
fn end_to_end_ingestion_lists_one_record() {
    // Create the knowledge base, upload one file, ingest it, and list the
    // embeddings of the knowledge base.
    let mut store = store_with_docs_kb();
    let file = store
        .upload_file(
            1,
            "a.txt".to_string(),
            b"hello world".to_vec(),
            "embedding".to_string(),
            100,
        )
        .unwrap();
    assert_eq!(file.id, 1);
    assert_eq!(file.bytes, 11);
    let mut embedder = SumEmbedder;
    store.create_embeddings(1, 1, &mut embedder).unwrap();
    let listing = store.list_embeddings(1, ModelId::BgeLargeZhV1_5).unwrap();
    assert_eq!(listing.embeddings.len(), 1);
    let row = &listing.embeddings[0];
    assert_eq!(row.filename, "a.txt");
    assert_eq!(row.text, "hello world");
    assert_eq!(row.embedding.len(), 1024);
    assert_eq!(row.kb_id, 1);
    assert_eq!(row.file_id, 1);
    assert_eq!(row.index, 0);
    // The fresh random id renders as 36 characters.
    assert_eq!(row.id.len(), 36);
    assert_eq!(listing.model, "bge-large-zh-v1.5");
}

#[test]
fn reingesting_adds_a_second_row() {
    let mut store = store_with_docs_kb();
    store
        .upload_file(1, "a.txt".to_string(), b"abc".to_vec(), "embedding".to_string(), 1)
        .unwrap();
    let mut embedder = SumEmbedder;
    store.create_embeddings(1, 1, &mut embedder).unwrap();
    store.create_embeddings(1, 1, &mut embedder).unwrap();
    let listing = store.list_embeddings(1, ModelId::BgeLargeZhV1_5).unwrap();
    assert_eq!(listing.embeddings.len(), 2);
    assert_ne!(listing.embeddings[0].id, listing.embeddings[1].id);
}

#[test]
fn self_retrieval_returns_the_inserted_record() {
    let mut store = store_with_docs_kb();
    let va = embed_text("alpha");
    let vb = embed_text("beta");
    let vc = embed_text("gamma");
    store
        .insert_embedding(1, "ra".to_string(), 1, "f".to_string(), "alpha".to_string(), va)
        .unwrap();
    store
        .insert_embedding(1, "rb".to_string(), 2, "f".to_string(), "beta".to_string(), vb.clone())
        .unwrap();
    store
        .insert_embedding(1, "rc".to_string(), 3, "f".to_string(), "gamma".to_string(), vc)
        .unwrap();
    let hit = store.search_top1(1, &vb).unwrap().expect("a record must be found");
    assert_eq!(hit.id, "rb");
    assert_eq!(hit.text, "beta");
}

#[test]
fn search_on_empty_table_finds_nothing() {
    let store = store_with_docs_kb();
    let q = embed_text("anything");
    assert!(store.search_top1(1, &q).unwrap().is_none());
}

#[test]
fn search_without_table_is_a_store_error() {
    let store = KnowledgeStore::new();
    let q = embed_text("anything");
    assert!(matches!(store.search_top1(9, &q), Err(CoreError::Store(_))));
}

#[test]
fn augment_rewrites_the_last_message() {
    let mut store = store_with_docs_kb();
    store
        .insert_embedding(
            1,
            "r1".to_string(),
            1,
            "a.txt".to_string(),
            "hello world".to_string(),
            embed_text("hello world"),
        )
        .unwrap();
    let mut messages = ChatMessages(vec![ChatMessage::User {
        content: UserContent::Text("q".to_string()),
        name: None,
    }]);
    let mut embedder = SumEmbedder;
    store.augment_last_message(&mut embedder, 1, &mut messages).unwrap();
    match &messages.0[0] {
        ChatMessage::User { content: UserContent::Text(t), name } => {
            assert_eq!(t, "q answer question use the following information: hello world");
            assert!(name.is_none());
        }
        _ => panic!("the last message must be a plain user message"),
    }
}

#[test]
fn kb_chat_prompt_embeds_retrieved_context() {
    let mut store = store_with_docs_kb();
    store
        .insert_embedding(
            1,
            "r1".to_string(),
            1,
            "a.txt".to_string(),
            "ctx".to_string(),
            embed_text("ctx"),
        )
        .unwrap();
    let mut messages = ChatMessages(vec![ChatMessage::User {
        content: UserContent::Text("q".to_string()),
        name: None,
    }]);
    let mut embedder = SumEmbedder;
    let prompt = kb_augmented_prompt(
        &store,
        &mut embedder,
        1,
        &mut messages,
        ModelId::Mistral7bInstructV0_2,
    )
    .unwrap();
    assert_eq!(
        prompt,
        "<s>[INST] q answer question use the following information: ctx [/INST]"
    );
}

#[test]
fn augment_with_empty_conversation_is_a_bad_request() {
    let mut store = store_with_docs_kb();
    store
        .insert_embedding(1, "r1".to_string(), 1, "f".to_string(), "x".to_string(), embed_text("x"))
        .unwrap();
    let mut messages = ChatMessages(vec![]);
    let mut embedder = SumEmbedder;
    assert!(matches!(
        store.augment_last_message(&mut embedder, 1, &mut messages),
        Err(CoreError::BadRequest(_))
    ));
}

#[test]
fn augment_with_empty_retrieval_is_an_error() {
    let store = store_with_docs_kb();
    let mut messages = ChatMessages(vec![ChatMessage::User {
        content: UserContent::Text("q".to_string()),
        name: None,
    }]);
    let mut embedder = SumEmbedder;
    assert!(matches!(
        store.augment_last_message(&mut embedder, 1, &mut messages),
        Err(CoreError::NotFound(_))
    ));
}

#[test]
fn augment_with_failing_embedder_propagates_the_engine_error() {
    let mut store = store_with_docs_kb();
    store
        .insert_embedding(1, "r1".to_string(), 1, "f".to_string(), "x".to_string(), embed_text("x"))
        .unwrap();
    let mut messages = ChatMessages(vec![ChatMessage::User {
        content: UserContent::Text("q".to_string()),
        name: None,
    }]);
    let mut embedder = FailingEmbedder;
    assert!(matches!(
        store.augment_last_message(&mut embedder, 1, &mut messages),
        Err(CoreError::Engine(_))
    ));
    // The conversation is left untouched on failure.
    assert_eq!(messages.0.len(), 1);
    match &messages.0[0] {
        ChatMessage::User { content: UserContent::Text(t), .. } => assert_eq!(t, "q"),
        _ => panic!("the message must be unchanged"),
    }
}

#[test]
fn unknown_knowledge_base_is_not_found() {
    let mut store = KnowledgeStore::new();
    assert!(matches!(
        store.delete_knowledge_base(7),
        Err(CoreError::NotFound(_))
    ));
    assert!(matches!(
        store.upload_file(7, "f".to_string(), vec![], "p".to_string(), 0),
        Err(CoreError::NotFound(_))
    ));
    assert!(matches!(store.list_files(7), Err(CoreError::NotFound(_))));
    let mut embedder = SumEmbedder;
    assert!(matches!(
        store.create_embeddings(7, 1, &mut embedder),
        Err(CoreError::NotFound(_))
    ));
    assert!(matches!(
        store.list_embeddings(7, ModelId::NotSet),
        Err(CoreError::NotFound(_))
    ));
}

#[test]
fn ingesting_a_missing_file_is_not_found() {
    let mut store = store_with_docs_kb();
    let mut embedder = SumEmbedder;
    assert!(matches!(
        store.create_embeddings(1, 42, &mut embedder),
        Err(CoreError::NotFound(_))
    ));
}

#[test]
fn non_utf8_content_is_a_store_error() {
    let mut store = store_with_docs_kb();
    store
        .upload_file(1, "bin".to_string(), vec![0xff, 0xfe], "embedding".to_string(), 0)
        .unwrap();
    let mut embedder = SumEmbedder;
    assert!(matches!(
        store.create_embeddings(1, 1, &mut embedder),
        Err(CoreError::Store(_))
    ));
}

#[test]
fn wrong_dimension_vector_is_rejected() {
    let mut store = store_with_docs_kb();
    assert!(matches!(
        store.insert_embedding(1, "r".to_string(), 1, "f".to_string(), "t".to_string(), vec![1, 2]),
        Err(CoreError::Store(_))
    ));
}

#[test]
fn deleting_an_unknown_embedding_is_a_no_op() {
    let mut store = store_with_docs_kb();
    store
        .insert_embedding(1, "r1".to_string(), 1, "f".to_string(), "t".to_string(), embed_text("t"))
        .unwrap();
    store.delete_embeddings(1, &"nope".to_string()).unwrap();
    assert_eq!(store.list_embeddings(1, ModelId::NotSet).unwrap().embeddings.len(), 1);
    store.delete_embeddings(1, &"r1".to_string()).unwrap();
    assert_eq!(store.list_embeddings(1, ModelId::NotSet).unwrap().embeddings.len(), 0);
}

#[test]
fn knowledge_bases_list_and_delete() {
    let mut store = KnowledgeStore::new();
    store.create_knowledge_base("a".to_string(), 1).unwrap();
    store.create_knowledge_base("b".to_string(), 2).unwrap();
    assert_eq!(store.list_knowledge_bases().data.len(), 2);
    let gone = store.delete_knowledge_base(1).unwrap();
    assert_eq!(gone.name, "a");
    let remaining = store.list_knowledge_bases().data;
    assert_eq!(remaining.len(), 1);
    assert_eq!(remaining[0].name, "b");
    // Deleting again: the row is gone, so this reports not-found.
    assert!(store.delete_knowledge_base(1).is_err());
}

#[test]
fn files_upload_list_delete() {
    let mut store = store_with_docs_kb();
    store
        .upload_file(1, "x.txt".to_string(), b"x".to_vec(), "embedding".to_string(), 5)
        .unwrap();
    store
        .upload_file(0, "free.txt".to_string(), b"y".to_vec(), "fine-tune".to_string(), 6)
        .unwrap();
    let kb_files = store.list_files(1).unwrap();
    assert_eq!(kb_files.object, "list");
    assert_eq!(kb_files.data.len(), 1);
    assert_eq!(kb_files.data[0].filename, "x.txt");
    assert_eq!(kb_files.data[0].id, "1");
    assert_eq!(kb_files.data[0].object, "file");
    let free_files = store.list_files(0).unwrap();
    assert_eq!(free_files.data.len(), 1);
    assert_eq!(free_files.data[0].purpose, "fine-tune");
    assert_eq!(store.blobs.len(), 2);
    let deleted = store.delete_file(1, 1).unwrap();
    assert!(deleted.deleted);
    assert_eq!(deleted.id, "1");
    assert_eq!(store.list_files(1).unwrap().data.len(), 0);
    // The file's blob went with its row; the other upload's blob remains.
    assert_eq!(store.blobs.len(), 1);
    assert_eq!(store.blobs[0].filename, "free.txt");
    assert!(matches!(store.delete_file(1, 1), Err(CoreError::NotFound(_))));
}

#[test]
fn table_names_are_deterministic() {
    assert_eq!(kb_table_name(1), "kb_1");
    assert_eq!(kb_table_name(12345), "kb_12345");
}

#[test]
fn backend_state_handles_set_once() {
    let mut state: BackendState<u8, u8> =
        BackendState::new(Default::default());
    assert!(state.get_embedding_model(ModelId::NotSet).is_err());
    state.set_llm_model_handle(ModelId::Mistral7bInstructV0_2, 1).unwrap();
    assert!(state.set_llm_model_handle(ModelId::Mistral7bInstructV0_2, 2).is_err());
    state.set_embedding_model_handle(ModelId::BgeLargeZhV1_5, 3).unwrap();
    assert!(state.set_embedding_model_handle(ModelId::BgeLargeZhV1_5, 4).is_err());
    assert_eq!(*state.get_embedding_model(ModelId::BgeLargeZhV1_5).unwrap(), 3);
}

#[test]
fn unsupported_model_ids_are_rejected() {
    let mut state: BackendState<u8, u8> =
        BackendState::new(Default::default());
    assert!(state.set_llm_model_handle(ModelId::Zephyr7bAlpha, 1).is_err());
    assert!(state.set_llm_model_handle(ModelId::NotSet, 1).is_err());
    // Zephyr7bBeta is supported.
    state.set_llm_model_handle(ModelId::Zephyr7bBeta, 1).unwrap();
}


#[test]
fn embeddings_endpoint_numbers_every_input() {
    let req = CreateEmbeddingRequest {
        input: EmbeddingInput::Many(vec!["one".to_string(), "two".to_string()]),
        model: "bge-large-zh-v1.5".to_string(),
        encoding_format: None,
        dimensions: None,
    };
    let mut embedder = SumEmbedder;
    let resp = create_embeddings_response(&mut embedder, &req).unwrap();
    assert_eq!(resp.object, "list");
    assert_eq!(resp.model, "bge-large-zh-v1.5");
    assert_eq!(resp.embeddings.len(), 2);
    assert_eq!(resp.embeddings[0].index, 0);
    assert_eq!(resp.embeddings[1].index, 1);
    assert_eq!(resp.embeddings[0].embedding, embed_text("one"));
    assert_eq!(resp.embeddings[1].embedding, embed_text("two"));

    let single = CreateEmbeddingRequest {
        input: EmbeddingInput::Single("solo".to_string()),
        model: "m".to_string(),
        encoding_format: None,
        dimensions: None,
    };
    let resp = create_embeddings_response(&mut embedder, &single).unwrap();
    assert_eq!(resp.embeddings.len(), 1);
    assert_eq!(resp.embeddings[0].embedding, embed_text("solo"));
}
