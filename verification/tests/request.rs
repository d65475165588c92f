use chat_gateway::chat::{capped, wire_messages, BotReply, ChatRequestExecutor, GlobalSettings};
use chat_gateway::client::{LLMClient, ParsedOptions};
use chat_gateway::entities::{
    GenericConfig, GenericOptions, MessageDTO, OllamaOptions, OpenAIOptions, Providers,
};
use chat_gateway::errors::{BuildError, ChatError, DecodeError, TransportError};
use chat_gateway::json::JsonNumber;
use chat_gateway::providers::custom::{
    CustomChatCompletionResponse, CustomChoice, CustomConfig, CustomContent,
};
use chat_gateway::providers::ollama::{
    OllamaChatCompletionResponse, OllamaConfig, OllamaMessage, RawOllamaConfig,
};
use chat_gateway::providers::types::{ChatCompletionResponseCommon, ResponseFrame, Usage};
use chat_gateway::transport::check_status;

fn message(role: &str, content: &str) -> MessageDTO {
    MessageDTO { role: role.to_string(), content: content.to_string() }
}

fn number(text: &str) -> Option<JsonNumber> {
    Some(JsonNumber { text: text.to_string() })
}

fn payload(text: &str) -> GenericOptions {
    GenericOptions { options: text.to_string() }
}

fn local_client(model: Option<&str>) -> LLMClient {
    LLMClient::OllamaClient(
        OllamaConfig { api_base: "http://localhost:11434".to_string() },
        model.map(|m| m.to_string()),
    )
}

fn local_executor() -> ChatRequestExecutor<JsonNumber> {
    ChatRequestExecutor::ollama(
        &OllamaConfig::default(),
        vec![message("user", "hi")],
        payload("{}"),
        GlobalSettings { max_tokens: 0 },
        "m".to_string(),
        false,
    )
    .unwrap()
}

fn body(content: &str, counts: &str) -> String {
    format!(
        "{{\"model\":\"m\",\"created_at\":\"2024-05-01T00:00:00Z\",\"message\":{{\"role\":\"assistant\",\"content\":{}}},\"done\":true{}}}",
        serde_json::Value::String(content.to_string()),
        counts
    )
}

#[test]
fn local_chat_single_shot_gives_one_reply() {
    let client = local_client(Some("llama3"));
    let executor = client
        .chat(
            vec![message("user", "hi")],
            payload(r#"{"stream":false,"temperature":0.2}"#),
            GlobalSettings { max_tokens: 0 },
        )
        .expect("the request is built");
    assert_eq!(executor.kind(), Providers::Ollama);
    assert_eq!(executor.endpoint(), "http://localhost:11434/api/chat");
    match &executor {
        ChatRequestExecutor::OllamaChatRequestExecutor(config, request) => {
            assert_eq!(config.api_base, "http://localhost:11434");
            assert_eq!(request.common.model, "llama3");
            assert_eq!(request.common.stream, Some(false));
            assert_eq!(request.common.stream_options, None);
            assert_eq!(request.common.temperature, None);
            assert_eq!(request.common.top_p, None);
            assert_eq!(request.common.max_tokens, None);
            assert_eq!(request.common.presence_penalty, None);
            assert_eq!(request.common.frequency_penalty, None);
            assert_eq!(request.messages, vec![OllamaMessage::User("hi".to_string())]);
            let options = request.options.as_ref().expect("the options are sent");
            assert_eq!(options.temperature, number("0.2"));
            assert_eq!(options.top_p, None);
            assert_eq!(options.top_k, None);
            assert_eq!(options.stream, Some(false));
        }
        other => panic!("not a local chat request: {:?}", other),
    }
    let reply = executor.execute(Ok(body("Hello there!", "")));
    assert_eq!(
        reply,
        Ok(BotReply {
            message: "Hello there!".to_string(),
            reasoning: None,
            prompt_token: None,
            completion_token: None,
            reasoning_token: None,
            total_token: None,
        })
    );
}

#[test]
fn unparsable_options_are_refused_with_the_payload() {
    let client = local_client(Some("llama3"));
    let built = client.chat(
        vec![message("user", "hi")],
        payload("not json"),
        GlobalSettings { max_tokens: 0 },
    );
    assert_eq!(
        built,
        Err(ChatError::Build(BuildError::InvalidOptions("not json".to_string())))
    );
    assert_eq!(
        built.unwrap_err().message(),
        "Failed to parse conversation options: not json"
    );
    let streamed = client.chat_stream(vec![], payload("not json"), GlobalSettings { max_tokens: 0 });
    assert_eq!(
        streamed,
        Err(ChatError::Build(BuildError::InvalidOptions("not json".to_string())))
    );
}

#[test]
fn options_that_are_no_object_or_hold_the_wrong_kind_of_value_are_refused() {
    let client = local_client(Some("m"));
    for text in [
        "",
        "[]",
        "7",
        "null",
        "\"{}\"",
        r#"{"stream":"yes"}"#,
        r#"{"stream":1}"#,
        r#"{"temperature":"hot"}"#,
        r#"{"temperature":true}"#,
        r#"{"top_p":[0.9]}"#,
        r#"{"top_k":{}}"#,
        r#"{"temperature":0.2"#,
    ] {
        let built = client.chat(vec![], payload(text), GlobalSettings { max_tokens: 0 });
        assert_eq!(
            built,
            Err(ChatError::Build(BuildError::InvalidOptions(text.to_string()))),
            "{:?}",
            text
        );
    }
}

#[test]
fn options_may_be_left_out_or_null_and_other_members_are_passed_over() {
    assert_eq!(
        OllamaOptions::read("{}"),
        Some(OllamaOptions { stream: None, temperature: None, top_p: None, top_k: None })
    );
    assert_eq!(
        OllamaOptions::read(r#"{"stream":null,"temperature":null,"top_p":null,"top_k":null,"seed":7}"#),
        Some(OllamaOptions { stream: None, temperature: None, top_p: None, top_k: None })
    );
    assert_eq!(
        OllamaOptions::read(r#" {"top_k": 40, "top_p": 0.9, "temperature": 1, "stream": true} "#),
        Some(OllamaOptions {
            stream: Some(true),
            temperature: number("1"),
            top_p: number("0.9"),
            top_k: number("40"),
        })
    );
    assert_eq!(
        OllamaOptions::read(r#"{"temperature":-0.5,"top_p":1e-3}"#),
        Some(OllamaOptions {
            stream: None,
            temperature: number("-0.5"),
            top_p: number("0.001"),
            top_k: None,
        })
    );
}

#[test]
fn compatible_options_are_read_member_by_member() {
    assert_eq!(
        OpenAIOptions::read(
            r#"{"stream":true,"temperature":0.5,"top_p":0.25,"max_tokens":256,"presence_penalty":-1,"frequency_penalty":1.5,"user":"u-1","reasoning_effort":2}"#
        ),
        Some(OpenAIOptions {
            stream: Some(true),
            temperature: number("0.5"),
            top_p: number("0.25"),
            max_tokens: Some(256),
            presence_penalty: number("-1"),
            frequency_penalty: number("1.5"),
            user: Some("u-1".to_string()),
            reasoning_effort: number("2"),
        })
    );
    assert_eq!(
        OpenAIOptions::read("{}"),
        Some(OpenAIOptions {
            stream: None,
            temperature: None,
            top_p: None,
            max_tokens: None,
            presence_penalty: None,
            frequency_penalty: None,
            user: None,
            reasoning_effort: None,
        })
    );
    for text in [
        r#"{"max_tokens":-1}"#,
        r#"{"max_tokens":1.5}"#,
        r#"{"max_tokens":4294967296}"#,
        r#"{"max_tokens":"100"}"#,
        r#"{"user":7}"#,
        "[]",
    ] {
        assert_eq!(OpenAIOptions::read(text), None, "{:?}", text);
    }
    assert_eq!(
        OpenAIOptions::read(r#"{"max_tokens":4294967295}"#).unwrap().max_tokens,
        Some(u32::MAX)
    );
}

#[test]
fn options_of_another_shape_are_refused_with_the_payload() {
    let client = local_client(Some("llama3"));
    let other: ParsedOptions<JsonNumber> = ParsedOptions::OpenAI(OpenAIOptions {
        stream: None,
        temperature: None,
        top_p: None,
        max_tokens: None,
        presence_penalty: None,
        frequency_penalty: None,
        user: None,
        reasoning_effort: None,
    });
    let built =
        client.prepare(vec![], payload("{}"), Some(other), GlobalSettings { max_tokens: 0 }, true);
    assert_eq!(built, Err(ChatError::Build(BuildError::InvalidOptions("{}".to_string()))));
}

#[test]
fn chat_without_a_model_is_refused_before_the_options_are_looked_at() {
    let client = local_client(None);
    let built =
        client.chat(vec![message("user", "hi")], payload("not json"), GlobalSettings { max_tokens: 0 });
    assert_eq!(built, Err(ChatError::Build(BuildError::MissingModel)));
    assert_eq!(built.unwrap_err().message(), "Model not set for chat");
}

#[test]
fn roles_map_to_the_wire_vocabulary_and_unknown_roles_to_user() {
    let wire = wire_messages(vec![
        message("system", "be brief"),
        message("user", "hi"),
        message("assistant", "hello"),
        message("tool", "42"),
        message("System", "case matters"),
        message("", "no role"),
    ]);
    assert_eq!(
        wire,
        vec![
            OllamaMessage::System("be brief".to_string()),
            OllamaMessage::User("hi".to_string()),
            OllamaMessage::Assistant("hello".to_string()),
            OllamaMessage::User("42".to_string()),
            OllamaMessage::User("case matters".to_string()),
            OllamaMessage::User("no role".to_string()),
        ]
    );
    assert_eq!(wire[0].role_name(), "system");
    assert_eq!(wire[1].role_name(), "user");
    assert_eq!(wire[2].role_name(), "assistant");
    assert_eq!(
        OllamaMessage::from(message("assistant", "x")),
        OllamaMessage::Assistant("x".to_string())
    );
}

#[test]
fn message_order_is_conversation_order() {
    let messages: Vec<MessageDTO> = (0..20)
        .map(|i| message(if i % 2 == 0 { "user" } else { "assistant" }, &i.to_string()))
        .collect();
    let wire = wire_messages(messages);
    assert_eq!(wire.len(), 20);
    for (i, m) in wire.iter().enumerate() {
        let expected = if i % 2 == 0 {
            OllamaMessage::User(i.to_string())
        } else {
            OllamaMessage::Assistant(i.to_string())
        };
        assert_eq!(*m, expected);
    }
}

#[test]
fn the_request_states_the_mode_of_the_operation_whatever_the_options_say() {
    let client = local_client(Some("m"));
    for text in [r#"{"stream":true}"#, r#"{"stream":false}"#, "{}"] {
        let single = client.chat(vec![], payload(text), GlobalSettings { max_tokens: 0 }).unwrap();
        let streamed =
            client.chat_stream(vec![], payload(text), GlobalSettings { max_tokens: 0 }).unwrap();
        match (single, streamed) {
            (
                ChatRequestExecutor::OllamaChatRequestExecutor(_, single),
                ChatRequestExecutor::OllamaChatRequestExecutor(_, streamed),
            ) => {
                assert_eq!(single.common.stream, Some(false));
                assert_eq!(streamed.common.stream, Some(true));
            }
            _ => panic!("not local chat requests"),
        }
    }
}

/// Reads the options of a conversation back from a request.
fn options_back<N: Clone>(executor: &ChatRequestExecutor<N>) -> OllamaOptions<N> {
    match executor {
        ChatRequestExecutor::OllamaChatRequestExecutor(_, request) => {
            let wire = request.options.as_ref().expect("options are sent");
            OllamaOptions {
                stream: wire.stream,
                temperature: wire.temperature.clone(),
                top_p: wire.top_p.clone(),
                top_k: wire.top_k.clone(),
            }
        }
        _ => panic!("not a local chat request"),
    }
}

#[test]
fn options_can_be_read_back_from_the_request() {
    let cases = [
        OllamaOptions { stream: None, temperature: None, top_p: None, top_k: None },
        OllamaOptions {
            stream: Some(true),
            temperature: Some(0.7f32),
            top_p: Some(0.9),
            top_k: Some(40.0),
        },
        OllamaOptions { stream: Some(false), temperature: None, top_p: Some(1.0), top_k: None },
        OllamaOptions { stream: None, temperature: Some(0.0), top_p: None, top_k: Some(1.0) },
    ];
    for given in cases {
        let executor = ChatRequestExecutor::ollama_with(
            &OllamaConfig::default(),
            vec![message("user", "hi")],
            payload(""),
            Some(given.clone()),
            GlobalSettings { max_tokens: 512 },
            "m".to_string(),
            true,
        )
        .unwrap();
        assert_eq!(options_back(&executor), given);
    }
    for text in [
        "{}",
        r#"{"stream":true,"temperature":0.7,"top_p":0.9,"top_k":40}"#,
        r#"{"temperature":0.0,"top_k":1}"#,
    ] {
        let executor = ChatRequestExecutor::ollama(
            &OllamaConfig::default(),
            vec![],
            payload(text),
            GlobalSettings { max_tokens: 0 },
            "m".to_string(),
            false,
        )
        .unwrap();
        assert_eq!(Some(options_back(&executor)), OllamaOptions::read(text));
    }
}

fn open_ai(max_tokens: Option<u32>) -> OpenAIOptions<f32> {
    OpenAIOptions {
        stream: Some(true),
        temperature: Some(0.5),
        top_p: Some(0.25),
        max_tokens,
        presence_penalty: Some(-1.0),
        frequency_penalty: Some(1.5),
        user: Some("u-1".to_string()),
        reasoning_effort: Some(1.0),
    }
}

#[test]
fn compatible_request_carries_the_options_and_holds_the_limit_under_the_ceiling() {
    let config = CustomConfig {
        api_base: "https://example.test".to_string(),
        api_key: Some("opaque-key".to_string()),
    };
    let build = |max_tokens: Option<u32>, ceiling: u32| {
        match ChatRequestExecutor::custom_with(
            &config,
            vec![message("system", "s"), message("user", "u")],
            payload(""),
            Some(open_ai(max_tokens)),
            GlobalSettings { max_tokens: ceiling },
            "gpt".to_string(),
            false,
        )
        .unwrap()
        {
            ChatRequestExecutor::CustomChatRequestExecutor(target, request) => (target, request),
            _ => panic!("not a compatible request"),
        }
    };
    let (target, request) = build(Some(100), 0);
    assert_eq!(target, config);
    assert_eq!(request.common.model, "gpt");
    assert_eq!(request.common.stream, Some(false));
    assert_eq!(request.common.stream_options, None);
    assert_eq!(request.common.temperature, Some(0.5));
    assert_eq!(request.common.top_p, Some(0.25));
    assert_eq!(request.common.presence_penalty, Some(-1.0));
    assert_eq!(request.common.frequency_penalty, Some(1.5));
    assert_eq!(request.user, Some("u-1".to_string()));
    assert_eq!(
        request.messages,
        vec![OllamaMessage::System("s".to_string()), OllamaMessage::User("u".to_string())]
    );
    assert_eq!(request.common.max_tokens, Some(100));
    assert_eq!(build(Some(100), 4096).1.common.max_tokens, Some(100));
    assert_eq!(build(Some(5000), 4096).1.common.max_tokens, Some(4096));
    assert_eq!(build(Some(4096), 4096).1.common.max_tokens, Some(4096));
    assert_eq!(build(None, 4096).1.common.max_tokens, Some(4096));
    assert_eq!(build(None, 0).1.common.max_tokens, None);
}

#[test]
fn token_limit_is_held_under_the_ceiling() {
    assert_eq!(capped(None, 0), None);
    assert_eq!(capped(Some(7), 0), Some(7));
    assert_eq!(capped(None, 9), Some(9));
    assert_eq!(capped(Some(7), 9), Some(7));
    assert_eq!(capped(Some(9), 9), Some(9));
    assert_eq!(capped(Some(10), 9), Some(9));
    assert_eq!(capped(Some(u32::MAX), 1), Some(1));
}

#[test]
fn compatible_chat_goes_to_the_chat_completions_path() {
    let client = LLMClient::new(GenericConfig {
        provider: "custom".to_string(),
        config: r#"{"api_base":"https://example.test","model":"gpt","api_key":"opaque-key"}"#
            .to_string(),
    })
    .unwrap();
    let executor = client
        .chat(
            vec![message("user", "hi")],
            payload(r#"{"max_tokens":9000,"temperature":0.3,"user":"u-7"}"#),
            GlobalSettings { max_tokens: 4096 },
        )
        .unwrap();
    assert_eq!(executor.kind(), Providers::Custom);
    assert_eq!(executor.endpoint(), "https://example.test/v1/chat/completions");
    match &executor {
        ChatRequestExecutor::CustomChatRequestExecutor(target, request) => {
            assert_eq!(target.api_key, Some("opaque-key".to_string()));
            assert_eq!(request.common.max_tokens, Some(4096));
            assert_eq!(request.common.temperature, number("0.3"));
            assert_eq!(request.common.stream, Some(false));
            assert_eq!(request.user, Some("u-7".to_string()));
        }
        _ => panic!("not a compatible request"),
    }
    let reply = executor
        .execute(Ok(r#"{"id":"x","choices":[{"index":0,"message":{"role":"assistant","content":"<think>hm</think>Hello"},"finish_reason":"stop"}],"usage":{"prompt_tokens":3,"completion_tokens":4,"total_tokens":7}}"#.to_string()))
        .unwrap();
    assert_eq!(
        reply,
        BotReply {
            message: "Hello".to_string(),
            reasoning: Some("hm".to_string()),
            prompt_token: Some(3),
            completion_token: Some(4),
            reasoning_token: None,
            total_token: Some(7),
        }
    );
}

#[test]
fn server_error_surfaces_and_gives_no_reply() {
    let executor = local_executor();
    let reply = executor.execute(check_status(500, "boom".to_string()));
    assert_eq!(
        reply,
        Err(ChatError::Transport(TransportError::Http(500, "boom".to_string())))
    );
    assert_eq!(
        reply.unwrap_err().message(),
        "Failed to get chat completion response: HTTP 500: boom"
    );
}

#[test]
fn network_failure_surfaces_with_its_cause() {
    let executor = local_executor();
    let reply = executor.execute(Err(TransportError::Network("connection refused".to_string())));
    assert_eq!(
        reply,
        Err(ChatError::Transport(TransportError::Network("connection refused".to_string())))
    );
    assert_eq!(
        reply.unwrap_err().message(),
        "Failed to get chat completion response: connection refused"
    );
}

#[test]
fn body_that_is_no_response_is_a_malformed_frame() {
    let executor = local_executor();
    for text in [
        "",
        "<html>502</html>",
        "[]",
        r#"{"message":"hi"}"#,
        r#"{"message":{"role":"robot","content":"hi"}}"#,
        r#"{"message":{"role":"assistant"}}"#,
        r#"{"message":{"role":"assistant","content":7}}"#,
        r#"{"message":{"role":"assistant","content":"hi"},"eval_count":-1}"#,
        r#"{"message":{"role":"assistant","content":"hi"},"prompt_eval_count":"3"}"#,
    ] {
        let reply = executor.execute(Ok(text.to_string()));
        assert_eq!(
            reply,
            Err(ChatError::Decode(DecodeError::MalformedFrame(text.to_string()))),
            "{:?}",
            text
        );
    }
    assert_eq!(
        ChatError::Decode(DecodeError::MalformedFrame("[]".to_string())).message(),
        "JSON parse error: []"
    );
}

#[test]
fn total_is_the_sum_of_the_counts_and_absent_without_both() {
    let executor = local_executor();
    let reply = executor
        .execute(Ok(body("ok", ",\"prompt_eval_count\":11,\"eval_count\":31")))
        .unwrap();
    assert_eq!(reply.prompt_token, Some(11));
    assert_eq!(reply.completion_token, Some(31));
    assert_eq!(reply.total_token, Some(42));
    assert_eq!(reply.reasoning_token, None);

    let reply = executor.execute(Ok(body("ok", ",\"prompt_eval_count\":11"))).unwrap();
    assert_eq!(
        (reply.prompt_token, reply.completion_token, reply.total_token),
        (Some(11), None, None)
    );
    let reply = executor.execute(Ok(body("ok", ",\"eval_count\":31"))).unwrap();
    assert_eq!(
        (reply.prompt_token, reply.completion_token, reply.total_token),
        (None, Some(31), None)
    );
    let reply = executor.execute(Ok(body("ok", ""))).unwrap();
    assert_eq!(reply.total_token, None);
    let reply = executor
        .execute(Ok(body("ok", ",\"prompt_eval_count\":4294967295,\"eval_count\":1")))
        .unwrap();
    assert_eq!(reply.prompt_token, Some(u32::MAX));
    assert_eq!(reply.total_token, None);
}

#[test]
fn single_shot_reply_separates_reasoning_from_the_answer() {
    let executor = local_executor();
    let reply = executor
        .execute(Ok(body(
            "<think>2+2 is 4</think>The answer is 4.",
            ",\"prompt_eval_count\":5,\"eval_count\":9",
        )))
        .unwrap();
    assert_eq!(reply.message, "The answer is 4.");
    assert_eq!(reply.reasoning, Some("2+2 is 4".to_string()));
    assert_eq!(reply.total_token, Some(14));
}

#[test]
fn empty_reasoning_is_absent() {
    let executor = local_executor();
    let reply = executor.execute(Ok(body("<think></think>four", ""))).unwrap();
    assert_eq!(reply.message, "four");
    assert_eq!(reply.reasoning, None);
}

#[test]
fn single_shot_reply_that_ends_inside_reasoning_is_a_reply_with_a_warning() {
    let executor = local_executor();
    let text = body("<think>abc", ",\"prompt_eval_count\":3,\"eval_count\":5");
    let reply = executor.execute(Ok(text.clone()));
    assert_eq!(
        reply,
        Ok(BotReply {
            message: String::new(),
            reasoning: Some("abc".to_string()),
            prompt_token: Some(3),
            completion_token: Some(5),
            reasoning_token: None,
            total_token: Some(8),
        })
    );
    let frame = ResponseFrame::read(Providers::Ollama, text.as_bytes()).unwrap();
    assert_eq!(
        ChatRequestExecutor::<JsonNumber>::unclosed(&frame, "ChatRequest::execute"),
        Some(
            "[ChatRequest::execute] The response ended inside a reasoning segment that was never closed"
                .to_string()
        )
    );

    let frame = ResponseFrame {
        content_delta: Some("<think>a</think>b<think>".to_string()),
        prompt_tokens: None,
        completion_tokens: Some(2),
        is_terminal: false,
    };
    assert!(ChatRequestExecutor::<JsonNumber>::unclosed(&frame, "t").is_some());
    assert_eq!(
        ChatRequestExecutor::<JsonNumber>::reply(frame),
        BotReply {
            message: "b".to_string(),
            reasoning: Some("a".to_string()),
            prompt_token: None,
            completion_token: Some(2),
            reasoning_token: None,
            total_token: None,
        }
    );
}

#[test]
fn closed_reasoning_is_worth_no_warning() {
    for content in ["", "plain", "<think>a</think>b", "</think>", "<think>a</think><thin"] {
        let frame = ResponseFrame {
            content_delta: Some(content.to_string()),
            prompt_tokens: None,
            completion_tokens: None,
            is_terminal: false,
        };
        assert_eq!(ChatRequestExecutor::<JsonNumber>::unclosed(&frame, "t"), None, "{:?}", content);
    }
    let nothing = ResponseFrame {
        content_delta: None,
        prompt_tokens: None,
        completion_tokens: None,
        is_terminal: true,
    };
    assert_eq!(ChatRequestExecutor::<JsonNumber>::unclosed(&nothing, "t"), None);
    assert_eq!(ChatRequestExecutor::<JsonNumber>::reply(nothing), BotReply::default());
}

#[test]
fn response_without_assistant_content_gives_an_empty_reply_and_a_warning() {
    let executor = local_executor();
    let text = r#"{"message":{"role":"user","content":"echo"},"prompt_eval_count":1,"eval_count":2}"#;
    let foreign = OllamaChatCompletionResponse::read(text.as_bytes()).unwrap();
    assert_eq!(
        foreign,
        OllamaChatCompletionResponse {
            common: ChatCompletionResponseCommon { usage: None },
            message: Some(OllamaMessage::User("echo".to_string())),
            prompt_eval_count: Some(1),
            eval_count: Some(2),
        }
    );
    assert_eq!(
        foreign.anomaly("ChatRequest::execute", false),
        Some("[ChatRequest::execute] OllamaChat::create returned a non-assistant message".to_string())
    );
    assert_eq!(
        foreign.anomaly("ChatRequest::execute_stream", true),
        Some(
            "[ChatRequest::execute_stream] OllamaChat::create_stream returned a non-assistant message"
                .to_string()
        )
    );
    let frame = foreign.into_frame();
    assert_eq!(frame.content_delta, None);
    assert!(!frame.is_terminal);
    let reply = executor.execute(Ok(text.to_string())).unwrap();
    assert_eq!(reply.message, "");
    assert_eq!(reply.total_token, Some(3));

    let empty = OllamaChatCompletionResponse::read(b"{\"done\":true}").unwrap();
    assert_eq!(empty.message, None);
    assert_eq!(
        empty.anomaly("ChatRequest::execute", false),
        Some("[ChatRequest::execute] OllamaChat::create returned an empty message".to_string())
    );
    assert_eq!(empty.anomaly("ChatRequest::execute_stream", true), None);
    assert!(empty.into_frame().is_terminal);

    let fine = OllamaChatCompletionResponse::read(body("hi", "").as_bytes()).unwrap();
    assert_eq!(fine.anomaly("t", false), None);
    assert_eq!(fine.anomaly("t", true), None);
}

#[test]
fn compatible_response_gives_the_content_of_the_first_choice_and_the_usage() {
    let response = CustomChatCompletionResponse {
        common: ChatCompletionResponseCommon {
            usage: Some(Usage {
                prompt_tokens: 3,
                completion_tokens: 4,
                total_tokens: 7,
                completion_tokens_details: None,
                reasoning_tokens: None,
            }),
        },
        choices: vec![
            CustomChoice {
                message: Some(CustomContent { content: Some("first".to_string()) }),
                delta: None,
                finish_reason: Some("stop".to_string()),
            },
            CustomChoice {
                message: Some(CustomContent { content: Some("second".to_string()) }),
                delta: None,
                finish_reason: None,
            },
        ],
    };
    let frame = response.into_frame();
    assert_eq!(
        frame,
        ResponseFrame {
            content_delta: Some("first".to_string()),
            prompt_tokens: Some(3),
            completion_tokens: Some(4),
            is_terminal: false,
        }
    );
    let delta = CustomChatCompletionResponse {
        common: ChatCompletionResponseCommon { usage: None },
        choices: vec![CustomChoice {
            message: None,
            delta: Some(CustomContent { content: Some("piece".to_string()) }),
            finish_reason: None,
        }],
    };
    assert_eq!(delta.into_frame().content_delta, Some("piece".to_string()));
    let nothing = CustomChatCompletionResponse {
        common: ChatCompletionResponseCommon { usage: None },
        choices: vec![],
    };
    assert_eq!(
        nothing.into_frame(),
        ResponseFrame {
            content_delta: None,
            prompt_tokens: None,
            completion_tokens: None,
            is_terminal: false
        }
    );
}

#[test]
fn compatible_response_is_read_from_its_payload() {
    let text = r#"{"choices":[{"index":0,"delta":{"role":"assistant","content":"piece"},"finish_reason":null},{"index":1,"delta":{"content":"other"}}],"usage":{"prompt_tokens":1,"completion_tokens":2,"total_tokens":3,"completion_tokens_details":{"reasoning_tokens":1}}}"#;
    assert_eq!(
        CustomChatCompletionResponse::read(text.as_bytes()),
        Some(CustomChatCompletionResponse {
            common: ChatCompletionResponseCommon {
                usage: Some(Usage {
                    prompt_tokens: 1,
                    completion_tokens: 2,
                    total_tokens: 3,
                    completion_tokens_details: Some(
                        chat_gateway::providers::types::CompletionTokensDetails {
                            reasoning_tokens: Some(1)
                        }
                    ),
                    reasoning_tokens: None,
                }),
            },
            choices: vec![CustomChoice {
                message: None,
                delta: Some(CustomContent { content: Some("piece".to_string()) }),
                finish_reason: None,
            }],
        })
    );
    assert_eq!(
        CustomChatCompletionResponse::read(b"{}"),
        Some(CustomChatCompletionResponse {
            common: ChatCompletionResponseCommon { usage: None },
            choices: vec![],
        })
    );
    assert_eq!(
        CustomChatCompletionResponse::read(b"{\"choices\":[],\"usage\":null}"),
        Some(CustomChatCompletionResponse {
            common: ChatCompletionResponseCommon { usage: None },
            choices: vec![],
        })
    );
    for text in [
        "[]",
        r#"{"choices":{}}"#,
        r#"{"choices":[7]}"#,
        r#"{"choices":[{"delta":"x"}]}"#,
        r#"{"choices":[{"delta":{"content":7}}]}"#,
        r#"{"choices":[{"message":{"content":"x"},"finish_reason":1}]}"#,
        r#"{"usage":{"prompt_tokens":1}}"#,
        r#"{"usage":7}"#,
        r#"{"usage":{"prompt_tokens":1,"completion_tokens":2,"total_tokens":"3"}}"#,
    ] {
        assert_eq!(CustomChatCompletionResponse::read(text.as_bytes()), None, "{:?}", text);
    }
}

#[test]
fn stored_configuration_without_address_means_this_machine() {
    let raw = RawOllamaConfig { model: Some("m".to_string()), api_base: None };
    assert_eq!(OllamaConfig::from(raw).api_base, "http://localhost:11434");
    let raw = RawOllamaConfig { model: None, api_base: Some("http://box:1".to_string()) };
    assert_eq!(OllamaConfig::from(raw).api_base, "http://box:1");
    assert_eq!(OllamaConfig::default().api_base, "http://localhost:11434");
}
