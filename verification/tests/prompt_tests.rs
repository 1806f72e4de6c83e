use zxrag::model::ModelId;
use zxrag::openai::{
    chat_completion_chunk_of, chat_completion_of, embedding_response_of, models_response_of,
    text_gen_setting_of, ChatCompletionRequest, ChatMessage, ChatMessages, ContentPart,
    UserContent,
};

fn sys(text: &str) -> ChatMessage {
    ChatMessage::System { content: Some(text.to_string()), name: None }
}

fn user(text: &str) -> ChatMessage {
    ChatMessage::User { content: UserContent::Text(text.to_string()), name: None }
}

#[test]
fn mistral_golden_prompt() {
    let messages = ChatMessages(vec![sys("S"), user("U")]);
    let prompt = messages.to_prompt(ModelId::Mistral7bInstructV0_2);
    assert_eq!(
        prompt,
        "<s>[INST] S Hi [/INST] Hello! how can I help you</s>[INST] U [/INST]"
    );
}

#[test]
fn non_mistral_golden_prompt() {
    let messages = ChatMessages(vec![sys("S"), user("U")]);
    let prompt = messages.to_prompt(ModelId::PhiV2);
    assert_eq!(prompt, "<s><|SYSTEM|>S<|USER|>U");
}

#[test]
fn assistant_is_appended_verbatim_for_mistral() {
    let messages = ChatMessages(vec![
        user("q"),
        ChatMessage::Assistant {
            content: Some("a".to_string()),
            name: None,
            tool_calls: None,
        },
        user("r"),
    ]);
    let prompt = messages.to_prompt(ModelId::Zephyr7bBeta);
    assert_eq!(prompt, "<s>[INST] q [/INST]a[INST] r [/INST]");
}

#[test]
fn absent_content_emits_nothing() {
    let messages = ChatMessages(vec![
        ChatMessage::System { content: None, name: None },
        user("U"),
    ]);
    let prompt = messages.to_prompt(ModelId::PhiV2);
    // The first message carries no content, so not even the leading marker
    // appears for it; the user message is no longer first.
    assert_eq!(prompt, "<|USER|>U");
}

#[test]
fn multipart_user_content_renders_inline() {
    let parts = vec![
        ContentPart::Text { text: "look: ".to_string() },
        ContentPart::ImageUrl { url: "http://x/cat.png".to_string(), detail: None },
        ContentPart::ImageUrl {
            url: "http://x/dog.png".to_string(),
            detail: Some("high".to_string()),
        },
    ];
    let messages = ChatMessages(vec![ChatMessage::User {
        content: UserContent::Parts(parts),
        name: None,
    }]);
    let prompt = messages.to_prompt(ModelId::Mistral7bInstructV0_1);
    assert_eq!(
        prompt,
        "<s>[INST] look: <IMAGE http://x/cat.png><IMAGE http://x/dog.png> (high) [/INST]"
    );
}

#[test]
fn tool_messages_render_with_tag() {
    let messages = ChatMessages(vec![ChatMessage::Tool {
        content: Some("result".to_string()),
        tool_call_id: "t1".to_string(),
    }]);
    let prompt = messages.to_prompt(ModelId::Mistral7bInstructV0_1);
    assert_eq!(prompt, "<|TOOL|>result");
}

#[test]
fn message_text_of_multipart_user() {
    let m = ChatMessage::User {
        content: UserContent::Parts(vec![
            ContentPart::Text { text: "a".to_string() },
            ContentPart::Text { text: "b".to_string() },
        ]),
        name: None,
    };
    assert_eq!(m.message_text(), "ab");
}

fn empty_request() -> ChatCompletionRequest {
    ChatCompletionRequest {
        messages: ChatMessages(vec![]),
        model: "main".to_string(),
        frequency_penalty_milli: None,
        max_tokens: None,
        seed: None,
        stop: None,
        stream: None,
        temperature_milli: None,
        top_p_milli: None,
        tools: None,
        user: None,
        one_shot: None,
    }
}

#[test]
fn setting_defaults_match_documented_values() {
    let req = empty_request();
    let s = text_gen_setting_of(&req, "p".to_string());
    assert_eq!(s.temperature_milli, 800);
    assert_eq!(s.top_p_milli, None);
    assert_eq!(s.seed, 299792458);
    assert_eq!(s.repeat_penalty_milli, 1100);
    assert_eq!(s.repeat_last_n, 64);
    assert_eq!(s.sample_len, 128);
    assert_eq!(s.prompt, "p");
}

#[test]
fn setting_takes_request_values() {
    let mut req = empty_request();
    req.temperature_milli = Some(0);
    req.seed = Some(7);
    req.frequency_penalty_milli = Some(1000);
    req.max_tokens = Some(16);
    let s = text_gen_setting_of(&req, "x".to_string());
    assert_eq!(s.temperature_milli, 0);
    assert_eq!(s.seed, 7);
    assert_eq!(s.repeat_penalty_milli, 1000);
    assert_eq!(s.sample_len, 16);
}

#[test]
fn batch_response_shape() {
    let r = chat_completion_of(
        "id1".to_string(),
        42,
        "main".to_string(),
        "fp".to_string(),
        "hello".to_string(),
    );
    assert_eq!(r.object, "text_completion");
    assert_eq!(r.choices.len(), 1);
    match &r.choices[0].message {
        ChatMessage::Assistant { content, name, tool_calls } => {
            assert_eq!(content.as_deref(), Some("hello"));
            assert!(name.is_none());
            assert!(tool_calls.is_none());
        }
        _ => panic!("expected an assistant message"),
    }
    assert_eq!(r.usage.total_tokens, 0);
}

#[test]
fn embeddings_response_is_numbered_in_order() {
    let r = embedding_response_of("m".to_string(), vec![vec![1, 2], vec![3]]);
    assert_eq!(r.object, "list");
    assert_eq!(r.embeddings.len(), 2);
    assert_eq!(r.embeddings[0].index, 0);
    assert_eq!(r.embeddings[0].embedding, vec![1, 2]);
    assert_eq!(r.embeddings[1].index, 1);
    assert_eq!(r.embeddings[1].embedding, vec![3]);
}

#[test]
fn models_response_lists_both_models() {
    let r = models_response_of(ModelId::Mistral7bInstructV0_2, ModelId::BgeLargeZhV1_5, 5);
    assert_eq!(r.object, "list");
    assert_eq!(r.data.len(), 2);
    assert_eq!(r.data[0].id, "Mistral-7B-Instruct-v0.2");
    assert_eq!(r.data[0].owned_by, "llm");
    assert_eq!(r.data[1].id, "bge-large-zh-v1.5");
    assert_eq!(r.data[1].owned_by, "embedding");
}

#[test]
fn chunk_response_shape() {
    let c = chat_completion_chunk_of(
        "id2".to_string(),
        9,
        "main".to_string(),
        "fp".to_string(),
        "frag".to_string(),
    );
    assert_eq!(c.object, "text_completion");
    assert_eq!(c.choices.len(), 1);
    assert_eq!(c.choices[0].delta.content.as_deref(), Some("frag"));
    assert!(c.choices[0].delta.role.is_none());
    assert!(c.choices[0].finish_reason.is_none());
}
