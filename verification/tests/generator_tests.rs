use zxrag::conf::BackendConf;
use zxrag::error::CoreError;
use zxrag::handle::{create_chat_completion, BackendState};
use zxrag::knowledge_base::EmbeddingModel;
use zxrag::openai::{ChatCompletionRequest, ChatMessage, ChatMessages, UserContent};
use zxrag::llm::{
    choose_next_token, GenState, LlmModel, Sampler, TextGeneration, TextGenerationSetting,
    TextGenerationStream, truncate_prompt_tokens,
};
use zxrag::model::{ModelEngine, ModelId};

/// A deterministic toy model over a vocabulary of 8 tokens: one token per
/// character, and a forward pass whose best next token is always
/// `(last + 1) % 8`.
#[derive(Clone)]
struct CycleModel;

const VOCAB: u32 = 8;

impl LlmModel for CycleModel {
    fn id(&self) -> ModelId {
        ModelId::Mistral7bInstructV0_2
    }

    fn engine(&self) -> ModelEngine {
        ModelEngine::Gguf
    }

    fn token_id_of(&self, token_text: &str) -> Option<u32> {
        if token_text == "</s>" {
            Some(6)
        } else {
            None
        }
    }

    fn encode(&self, text: &str) -> Result<Vec<u32>, CoreError> {
        Ok(text.bytes().map(|b| (b as u32) % VOCAB).collect())
    }

    fn decode(&self, tokens: &Vec<u32>) -> Result<String, CoreError> {
        Ok(tokens
            .iter()
            .map(|t| char::from(b'a' + (*t % VOCAB) as u8))
            .collect())
    }

    fn forward(&mut self, tokens: &Vec<u32>, _index_pos: usize) -> Result<Vec<i64>, CoreError> {
        let last = *tokens.last().expect("context is never empty") % VOCAB;
        let best = (last + 1) % VOCAB;
        let mut logits = vec![0i64; VOCAB as usize];
        logits[best as usize] = 5;
        Ok(logits)
    }
}

/// A model whose forward pass always fails.
#[derive(Clone)]
struct BrokenModel;

impl LlmModel for BrokenModel {
    fn id(&self) -> ModelId {
        ModelId::Mistral7bInstructV0_2
    }

    fn engine(&self) -> ModelEngine {
        ModelEngine::Gguf
    }

    fn token_id_of(&self, token_text: &str) -> Option<u32> {
        if token_text == "</s>" {
            Some(6)
        } else {
            None
        }
    }

    fn encode(&self, text: &str) -> Result<Vec<u32>, CoreError> {
        Ok(text.bytes().map(|b| (b as u32) % VOCAB).collect())
    }

    fn decode(&self, _tokens: &Vec<u32>) -> Result<String, CoreError> {
        Ok(String::new())
    }

    fn forward(&mut self, _tokens: &Vec<u32>, _index_pos: usize) -> Result<Vec<i64>, CoreError> {
        Err(CoreError::Engine("forward pass failed".to_string()))
    }
}

/// A stochastic stand-in that always picks the first maximal score.
struct FirstMaxSampler;

impl Sampler for FirstMaxSampler {
    fn sample(&mut self, logits: &Vec<i64>) -> Result<u32, CoreError> {
        let mut best: usize = 0;
        for (i, l) in logits.iter().enumerate() {
            if *l > logits[best] {
                best = i;
            }
        }
        Ok(best as u32)
    }
}

fn setting(temperature_milli: u64, seed: u64, sample_len: usize) -> TextGenerationSetting {
    TextGenerationSetting {
        temperature_milli,
        top_p_milli: None,
        seed,
        repeat_penalty_milli: 1000,
        repeat_last_n: 64,
        sample_len,
        prompt: "a".to_string(),
    }
}

#[test]
fn greedy_batch_follows_the_cycle() {
    // Prompt "a" encodes to token 1; the cycle emits 2, 3, 4, 5 and stops at
    // the end-of-sequence token 6 before any budget runs out.
    let mut g = TextGeneration::new(CycleModel, FirstMaxSampler, setting(0, 1, 50)).unwrap();
    assert_eq!(g.generate().unwrap(), "cdef");
}

#[test]
fn greedy_is_deterministic_across_seeds() {
    let mut g1 = TextGeneration::new(CycleModel, FirstMaxSampler, setting(0, 1, 50)).unwrap();
    let mut g2 =
        TextGeneration::new(CycleModel, FirstMaxSampler, setting(0, 987654321, 50)).unwrap();
    let out1 = g1.generate().unwrap();
    let out2 = g2.generate().unwrap();
    assert_eq!(out1, out2);
}

#[test]
fn disabled_penalty_equals_empty_window() {
    // A run with the penalty at 1.0 over a 64-token window decides exactly as
    // a run with a sharp penalty over an empty window: both sample unmodified
    // scores.
    let mut a = TextGeneration::new(CycleModel, FirstMaxSampler, setting(0, 1, 50)).unwrap();
    let mut s = setting(0, 1, 50);
    s.repeat_penalty_milli = 1700;
    s.repeat_last_n = 0;
    let mut b = TextGeneration::new(CycleModel, FirstMaxSampler, s).unwrap();
    assert_eq!(a.generate().unwrap(), b.generate().unwrap());
}

#[test]
fn budget_limits_generation() {
    let mut g = TextGeneration::new(CycleModel, FirstMaxSampler, setting(0, 1, 2)).unwrap();
    assert_eq!(g.generate().unwrap(), "cd");
}

#[test]
fn zero_length_batch_is_empty() {
    let mut g = TextGeneration::new(CycleModel, FirstMaxSampler, setting(0, 1, 0)).unwrap();
    assert_eq!(g.generate().unwrap(), "");
}

#[test]
fn zero_length_stream_ends_on_first_pull() {
    let g = TextGeneration::new(CycleModel, FirstMaxSampler, setting(0, 1, 0)).unwrap();
    let mut stream = TextGenerationStream::new(g).unwrap();
    assert_eq!(stream.state(), GenState::Ready);
    assert!(stream.next_fragment().is_none());
    assert_eq!(stream.state(), GenState::Done);
}

#[test]
fn stream_yields_fragments_then_stays_done() {
    let g = TextGeneration::new(CycleModel, FirstMaxSampler, setting(0, 1, 50)).unwrap();
    let mut stream = TextGenerationStream::new(g).unwrap();
    let mut out = String::new();
    while let Some(fragment) = stream.next_fragment() {
        out.push_str(&fragment);
    }
    assert_eq!(out, "cdef");
    assert_eq!(stream.state(), GenState::Done);
    // No transition leaves Done: further pulls keep yielding end-of-stream.
    assert!(stream.next_fragment().is_none());
    assert!(stream.next_fragment().is_none());
    assert_eq!(stream.state(), GenState::Done);
}

#[test]
fn engine_failure_ends_stream_for_good() {
    let g = TextGeneration::new(BrokenModel, FirstMaxSampler, setting(0, 1, 50)).unwrap();
    let mut stream = TextGenerationStream::new(g).unwrap();
    assert!(stream.next_fragment().is_none());
    assert_eq!(stream.state(), GenState::Failed);
    assert!(stream.next_fragment().is_none());
    assert_eq!(stream.state(), GenState::Failed);
}

#[test]
fn engine_failure_aborts_batch() {
    let mut g = TextGeneration::new(BrokenModel, FirstMaxSampler, setting(0, 1, 50)).unwrap();
    assert!(g.generate().is_err());
}

/// A model that hands back scores outside the accepted range.
#[derive(Clone)]
struct WildModel(CycleModel);

impl LlmModel for WildModel {
    fn id(&self) -> ModelId {
        self.0.id()
    }
    fn engine(&self) -> ModelEngine {
        self.0.engine()
    }
    fn token_id_of(&self, token_text: &str) -> Option<u32> {
        self.0.token_id_of(token_text)
    }
    fn encode(&self, text: &str) -> Result<Vec<u32>, CoreError> {
        self.0.encode(text)
    }
    fn decode(&self, tokens: &Vec<u32>) -> Result<String, CoreError> {
        self.0.decode(tokens)
    }
    fn forward(&mut self, _tokens: &Vec<u32>, _index_pos: usize) -> Result<Vec<i64>, CoreError> {
        Ok(vec![i64::MAX, 0, 0])
    }
}

#[test]
fn out_of_range_scores_abort_the_session() {
    let mut g = TextGeneration::new(WildModel(CycleModel), FirstMaxSampler, setting(0, 1, 4))
        .unwrap();
    assert!(matches!(g.generate(), Err(CoreError::Engine(_))));
}

/// The cycle model under a model id whose end-of-sequence text the
/// vocabulary lacks.
#[derive(Clone)]
struct PhiLike(CycleModel);

impl LlmModel for PhiLike {
    fn id(&self) -> ModelId {
        ModelId::PhiV2
    }
    fn engine(&self) -> ModelEngine {
        self.0.engine()
    }
    fn token_id_of(&self, token_text: &str) -> Option<u32> {
        self.0.token_id_of(token_text)
    }
    fn encode(&self, text: &str) -> Result<Vec<u32>, CoreError> {
        self.0.encode(text)
    }
    fn decode(&self, tokens: &Vec<u32>) -> Result<String, CoreError> {
        self.0.decode(tokens)
    }
    fn forward(&mut self, tokens: &Vec<u32>, index_pos: usize) -> Result<Vec<i64>, CoreError> {
        self.0.forward(tokens, index_pos)
    }
}

#[test]
fn missing_eos_token_fails_session_setup() {
    assert!(TextGeneration::new(PhiLike(CycleModel), FirstMaxSampler, setting(0, 1, 4)).is_err());
}

#[test]
fn penalty_moves_the_greedy_choice_off_repeated_tokens() {
    // Score 6 at token 1, score 5 at token 2. With token 1 in the recent
    // window and a penalty of 2.0 its score halves to 3, so the choice moves
    // to token 2; without the penalty it stays at token 1.
    let logits = vec![0i64, 6, 5, 0];
    let window = vec![1u32];
    let mut s = FirstMaxSampler;
    let picked = choose_next_token(&mut s, &logits, 0, 2000, &window).unwrap();
    assert_eq!(picked, 2);
    let unpenalized = choose_next_token(&mut s, &logits, 0, 1000, &window).unwrap();
    assert_eq!(unpenalized, 1);
    let no_window = choose_next_token(&mut s, &logits, 0, 2000, &vec![]).unwrap();
    assert_eq!(no_window, 1);
}

#[test]
fn greedy_takes_last_maximum_on_ties() {
    let logits = vec![5i64, 5, 5];
    let mut s = FirstMaxSampler;
    let picked = choose_next_token(&mut s, &logits, 0, 1000, &vec![]).unwrap();
    assert_eq!(picked, 2);
}

#[test]
fn empty_logits_are_an_error_at_temperature_zero() {
    let mut s = FirstMaxSampler;
    assert!(choose_next_token(&mut s, &vec![], 0, 1000, &vec![]).is_err());
}

#[test]
fn nonzero_temperature_defers_to_the_sampler() {
    let logits = vec![9i64, 1, 1];
    let mut s = FirstMaxSampler;
    let picked = choose_next_token(&mut s, &logits, 800, 1000, &vec![]).unwrap();
    assert_eq!(picked, 0);
}

#[test]
fn long_prompts_are_truncated_from_the_front() {
    let ids: Vec<u32> = (0..5000u32).collect();
    let kept = truncate_prompt_tokens(ids.clone(), 100);
    // 5000 + 100 exceeds 4086, so 5000 + 100 + 10 - 4096 = 1014 trailing
    // tokens are kept.
    assert_eq!(kept.len(), 1014);
    assert_eq!(kept[0], 5000 - 1014);
    assert_eq!(*kept.last().unwrap(), 4999);
    let short: Vec<u32> = (0..10u32).collect();
    assert_eq!(truncate_prompt_tokens(short.clone(), 100), short);
}

/// An embedder handle for the context; the chat path never calls it.
struct NoEmbedder;

impl EmbeddingModel for NoEmbedder {
    fn embedding_batch(&mut self, _prompts: &Vec<String>) -> Result<Vec<Vec<i64>>, CoreError> {
        Err(CoreError::Engine("not available".to_string()))
    }
}

#[test]
fn chat_completion_runs_end_to_end() {
    let mut conf = BackendConf::default();
    // The plain-tag prompt format ends the prompt in the user text itself.
    conf.llm_conf.model_id = ModelId::PhiV2;
    let mut state: BackendState<CycleModel, NoEmbedder> = BackendState::new(conf);
    state
        .set_llm_model_handle(ModelId::Mistral7bInstructV0_2, CycleModel)
        .unwrap();
    let req = ChatCompletionRequest {
        messages: ChatMessages(vec![ChatMessage::User {
            content: UserContent::Text("a".to_string()),
            name: None,
        }]),
        model: "main".to_string(),
        frequency_penalty_milli: Some(1000),
        max_tokens: Some(50),
        seed: None,
        stop: None,
        stream: Some(false),
        temperature_milli: Some(0),
        top_p_milli: None,
        tools: None,
        user: None,
        one_shot: None,
    };
    let resp = create_chat_completion(
        &state,
        FirstMaxSampler,
        &req,
        "cmpl-1".to_string(),
        11,
        "main".to_string(),
        "fp".to_string(),
    )
    .unwrap();
    assert_eq!(resp.object, "text_completion");
    assert_eq!(resp.choices.len(), 1);
    match &resp.choices[0].message {
        ChatMessage::Assistant { content, .. } => {
            // The prompt "<s><|USER|>a" ends in 'a', token 1, so the cycle
            // generates "cdef" before the end-of-sequence token.
            assert_eq!(content.as_deref(), Some("cdef"));
        }
        _ => panic!("expected an assistant choice"),
    }
}

#[test]
fn chat_completion_rejects_zero_penalty() {
    let mut conf = BackendConf::default();
    conf.llm_conf.model_id = ModelId::Mistral7bInstructV0_2;
    let mut state: BackendState<CycleModel, NoEmbedder> = BackendState::new(conf);
    state
        .set_llm_model_handle(ModelId::Mistral7bInstructV0_2, CycleModel)
        .unwrap();
    let mut req = ChatCompletionRequest {
        messages: ChatMessages(vec![]),
        model: "main".to_string(),
        frequency_penalty_milli: Some(0),
        max_tokens: None,
        seed: None,
        stop: None,
        stream: None,
        temperature_milli: None,
        top_p_milli: None,
        tools: None,
        user: None,
        one_shot: None,
    };
    let denied = create_chat_completion(
        &state,
        FirstMaxSampler,
        &req,
        "cmpl-2".to_string(),
        0,
        "main".to_string(),
        "fp".to_string(),
    );
    assert!(matches!(denied, Err(CoreError::BadRequest(_))));
    req.frequency_penalty_milli = Some(2_000_000);
    let denied = create_chat_completion(
        &state,
        FirstMaxSampler,
        &req,
        "cmpl-3".to_string(),
        0,
        "main".to_string(),
        "fp".to_string(),
    );
    assert!(matches!(denied, Err(CoreError::BadRequest(_))));
}
