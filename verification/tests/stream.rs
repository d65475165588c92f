use chat_gateway::chat::BotReply;
use chat_gateway::entities::Providers;
use chat_gateway::errors::{ChatError, DecodeError, TransportError};
use chat_gateway::providers::types::ResponseFrame;
use chat_gateway::stream::{Action, BotReplyStream, Phase};

/// A connection that hands out prepared chunks and counts how often it is
/// read.
struct Connection {
    chunks: Vec<Result<Vec<u8>, String>>,
    next: usize,
    reads: usize,
}

impl Connection {
    fn of(chunks: &[&[u8]]) -> Self {
        Connection { chunks: chunks.iter().map(|c| Ok(c.to_vec())).collect(), next: 0, reads: 0 }
    }

    fn read(&mut self) -> Option<Result<Vec<u8>, String>> {
        self.reads += 1;
        let chunk = self.chunks.get(self.next).cloned();
        self.next += 1;
        chunk
    }
}

/// Pulls the next value of the stream, driving the machine as a caller
/// does: reading the connection only when the machine asks for bytes.
fn pull(
    stream: &mut BotReplyStream,
    connection: &mut Connection,
) -> Option<Result<BotReply, ChatError>> {
    loop {
        match stream.poll() {
            Action::Yield(reply) => return Some(Ok(reply)),
            Action::Fail(error) => return Some(Err(error)),
            Action::Done => return None,
            Action::Read => match connection.read() {
                Some(Ok(bytes)) => stream.chunk(&bytes),
                Some(Err(cause)) => stream.broken(TransportError::Network(cause)),
                None => stream.end(),
            },
        }
    }
}

fn drain(kind: Providers, chunks: &[&[u8]]) -> Vec<Result<BotReply, ChatError>> {
    let mut stream = BotReplyStream::new(kind);
    let mut connection = Connection::of(chunks);
    let mut out = Vec::new();
    while let Some(value) = pull(&mut stream, &mut connection) {
        out.push(value);
    }
    assert_eq!(stream.phase(), Phase::Closed);
    assert_eq!(stream.poll(), Action::Done);
    out
}

fn answer(text: &str) -> BotReply {
    BotReply { message: text.to_string(), ..BotReply::default() }
}

fn reasoning(text: &str) -> BotReply {
    BotReply { reasoning: Some(text.to_string()), ..BotReply::default() }
}

fn line(content: &str) -> String {
    format!(
        "{}\n",
        serde_json::to_string(&serde_json::Value::Object(
            [
                ("model".to_string(), serde_json::Value::String("m".to_string())),
                (
                    "message".to_string(),
                    serde_json::Value::Object(
                        [
                            ("role".to_string(), serde_json::Value::String("assistant".to_string())),
                            ("content".to_string(), serde_json::Value::String(content.to_string())),
                        ]
                        .into_iter()
                        .collect()
                    )
                ),
                ("done".to_string(), serde_json::Value::Bool(false)),
            ]
            .into_iter()
            .collect()
        ))
        .unwrap()
    )
}

const LAST_LINE: &str = "{\"model\":\"m\",\"done\":true,\"prompt_eval_count\":10,\"eval_count\":20}\n";

#[test]
fn streamed_deltas_give_reasoning_then_answer_without_markers() {
    let body = [line("<thi"), line("nk>reasoning here</thi"), line("nk>answer")].concat();
    let out = drain(Providers::Ollama, &[body.as_bytes()]);
    assert_eq!(out, vec![Ok(reasoning("reasoning here")), Ok(answer("answer"))]);
}

#[test]
fn last_line_without_message_carries_the_counts() {
    let body = [line("Hel"), line("lo"), LAST_LINE.to_string()].concat();
    let out = drain(Providers::Ollama, &[body.as_bytes()]);
    assert_eq!(
        out,
        vec![
            Ok(answer("Hel")),
            Ok(answer("lo")),
            Ok(BotReply {
                message: String::new(),
                reasoning: None,
                prompt_token: Some(10),
                completion_token: Some(20),
                reasoning_token: None,
                total_token: Some(30),
            }),
        ]
    );
}

#[test]
fn chunk_boundaries_do_not_matter() {
    let body = [
        line("one <thi"),
        line("nk>two</think> three"),
        line(" caf\u{e9} <"),
        line("/think> x"),
        LAST_LINE.to_string(),
    ]
    .concat();
    let bytes = body.as_bytes();
    let whole = drain(Providers::Ollama, &[bytes]);
    assert_eq!(whole.len(), 6);
    assert!(whole.iter().all(|v| v.is_ok()));
    for cut in 0..=bytes.len() {
        let (first, second) = bytes.split_at(cut);
        assert_eq!(drain(Providers::Ollama, &[first, second]), whole, "cut at {}", cut);
    }
    let singles: Vec<&[u8]> = bytes.chunks(1).collect();
    assert_eq!(drain(Providers::Ollama, &singles), whole);
    let triples: Vec<&[u8]> = bytes.chunks(3).collect();
    assert_eq!(drain(Providers::Ollama, &triples), whole);
}

#[test]
fn every_increment_has_text_in_exactly_one_channel_or_counts_only() {
    let body = [
        line("a<think>b</think>c"),
        line(""),
        line("<think>"),
        line("d"),
        line("</think>"),
        "{\"message\":{\"role\":\"assistant\",\"content\":\"e<think>f</think>\"},\"prompt_eval_count\":1,\"eval_count\":2}\n".to_string(),
        LAST_LINE.to_string(),
    ]
    .concat();
    let out = drain(Providers::Ollama, &[body.as_bytes()]);
    let mut with_counts = reasoning("f");
    with_counts.prompt_token = Some(1);
    with_counts.completion_token = Some(2);
    with_counts.total_token = Some(3);
    let mut counts_only = BotReply::default();
    counts_only.prompt_token = Some(10);
    counts_only.completion_token = Some(20);
    counts_only.total_token = Some(30);
    assert_eq!(
        out,
        vec![
            Ok(answer("a")),
            Ok(reasoning("b")),
            Ok(answer("c")),
            Ok(reasoning("d")),
            Ok(answer("e")),
            Ok(with_counts),
            Ok(counts_only),
        ]
    );
    for value in out {
        let reply = value.unwrap();
        let in_answer = !reply.message.is_empty();
        let in_reasoning = reply.reasoning.as_ref().is_some_and(|r| !r.is_empty());
        let counts = reply.prompt_token.is_some() || reply.completion_token.is_some();
        assert!(in_answer != in_reasoning || (!in_answer && !in_reasoning && counts));
        assert_eq!(reply.reasoning_token, None);
    }
}

#[test]
fn malformed_frame_ends_the_stream_after_what_was_decoded() {
    let body = [line("good"), "{\"message\": oops}\n".to_string(), line("never seen")].concat();
    let out = drain(Providers::Ollama, &[body.as_bytes()]);
    assert_eq!(
        out,
        vec![
            Ok(answer("good")),
            Err(ChatError::Decode(DecodeError::MalformedFrame("{\"message\": oops}".to_string()))),
        ]
    );
    assert_eq!(
        out[1].clone().unwrap_err().message(),
        "JSON parse error: {\"message\": oops}"
    );
    let body = [line("good"), "{\"message\":{\"role\":\"assistant\"}}\n".to_string(), line("x")].concat();
    let out = drain(Providers::Ollama, &[body.as_bytes()]);
    assert_eq!(out.len(), 2);
    assert!(matches!(out[1], Err(ChatError::Decode(DecodeError::MalformedFrame(_)))));
    let out = drain(Providers::Ollama, &[b"\xff\xfe\n"]);
    assert_eq!(
        out,
        vec![Err(ChatError::Decode(DecodeError::MalformedFrame("\u{fffd}\u{fffd}".to_string())))]
    );
}

#[test]
fn stream_that_ends_inside_a_frame_is_truncated() {
    let body = [line("good"), "{\"message\":{\"role\":\"assistant\",\"con".to_string()].concat();
    let out = drain(Providers::Ollama, &[body.as_bytes()]);
    assert_eq!(
        out,
        vec![Ok(answer("good")), Err(ChatError::Decode(DecodeError::TruncatedStream))]
    );
    assert_eq!(
        ChatError::Decode(DecodeError::TruncatedStream).message(),
        "Stream ended inside a frame"
    );
}

#[test]
fn stream_that_ends_inside_reasoning_releases_the_rest_and_reports_it() {
    let body = [line("<think>half a thou"), line("ght</thi")].concat();
    let out = drain(Providers::Ollama, &[body.as_bytes()]);
    assert_eq!(
        out,
        vec![
            Ok(reasoning("half a thou")),
            Ok(reasoning("ght")),
            Ok(reasoning("</thi")),
            Err(ChatError::Decode(DecodeError::UnterminatedReasoning)),
        ]
    );
}

#[test]
fn carry_over_is_released_when_the_stream_ends() {
    let body = [line("a <thin")].concat();
    let out = drain(Providers::Ollama, &[body.as_bytes()]);
    assert_eq!(out, vec![Ok(answer("a ")), Ok(answer("<thin"))]);
}

#[test]
fn failing_connection_ends_the_stream_after_what_was_decoded() {
    let mut stream = BotReplyStream::new(Providers::Ollama);
    let first = line("good");
    let mut connection = Connection {
        chunks: vec![Ok(first.into_bytes()), Err("connection reset".to_string())],
        next: 0,
        reads: 0,
    };
    assert_eq!(pull(&mut stream, &mut connection), Some(Ok(answer("good"))));
    let failure = pull(&mut stream, &mut connection);
    assert_eq!(
        failure,
        Some(Err(ChatError::Stream(TransportError::Network("connection reset".to_string()))))
    );
    assert_eq!(failure.unwrap().unwrap_err().message(), "Stream error: connection reset");
    assert_eq!(pull(&mut stream, &mut connection), None);
    assert_eq!(connection.reads, 2);
}

#[test]
fn nothing_is_read_ahead_and_nothing_after_the_stream_is_given_up() {
    let lines: Vec<String> = (0..5).map(|i| line(&format!("part {} ", i))).collect();
    let chunks: Vec<&[u8]> = lines.iter().map(|l| l.as_bytes()).collect();
    let mut stream = BotReplyStream::new(Providers::Ollama);
    let mut connection = Connection::of(&chunks);
    assert_eq!(connection.reads, 0);
    assert_eq!(pull(&mut stream, &mut connection), Some(Ok(answer("part 0 "))));
    assert_eq!(connection.reads, 1);
    assert_eq!(pull(&mut stream, &mut connection), Some(Ok(answer("part 1 "))));
    assert_eq!(connection.reads, 2);
    stream.close();
    assert_eq!(stream.phase(), Phase::Closed);
    for _ in 0..3 {
        assert_eq!(pull(&mut stream, &mut connection), None);
    }
    assert_eq!(connection.reads, 2);
    stream.chunk(lines[2].as_bytes());
    stream.frame(ResponseFrame::read(Providers::Ollama, lines[3].as_bytes()));
    stream.end();
    assert_eq!(stream.poll(), Action::Done);
    assert_eq!(connection.reads, 2);
}

#[test]
fn terminal_frame_ends_the_stream_without_another_read() {
    let body = [line("hi"), LAST_LINE.to_string()].concat();
    let mut stream = BotReplyStream::new(Providers::Ollama);
    let mut connection = Connection::of(&[body.as_bytes(), b"{\"late\":1}\n"]);
    let mut out = Vec::new();
    while let Some(value) = pull(&mut stream, &mut connection) {
        out.push(value);
    }
    assert_eq!(out.len(), 2);
    assert_eq!(connection.reads, 1);
}

#[test]
fn a_fresh_stream_asks_for_bytes() {
    let mut stream = BotReplyStream::new(Providers::Ollama);
    assert_eq!(stream.phase(), Phase::Open);
    assert_eq!(stream.poll(), Action::Read);
    stream.chunk(b"{\"message\":{\"role\":\"assistant\",");
    assert_eq!(stream.poll(), Action::Read);
    stream.chunk(b"\"content\":\"\"}}\n");
    // the frame holds neither text nor counts: nothing to hand out
    assert_eq!(stream.poll(), Action::Read);
    stream.end();
    assert_eq!(stream.phase(), Phase::Ended);
    assert_eq!(stream.poll(), Action::Done);
    assert_eq!(stream.phase(), Phase::Closed);
}

#[test]
fn a_frame_without_message_ends_the_stream() {
    let mut stream = BotReplyStream::new(Providers::Ollama);
    stream.chunk(b"{\"a\":1}\n{\"message\":{\"role\":\"assistant\",\"content\":\"late\"}}\n");
    assert_eq!(stream.poll(), Action::Done);
    assert_eq!(stream.phase(), Phase::Closed);
    assert_eq!(stream.poll(), Action::Done);
}

#[test]
fn empty_body_gives_an_empty_stream() {
    assert_eq!(drain(Providers::Ollama, &[]), vec![]);
    assert_eq!(drain(Providers::Custom, &[]), vec![]);
    assert_eq!(drain(Providers::Ollama, &[b"\n\r\n\n"]), vec![]);
}

fn event(content: &str) -> String {
    format!(
        "data: {{\"choices\":[{{\"index\":0,\"delta\":{{\"content\":{}}},\"finish_reason\":null}}]}}\n\n",
        serde_json::Value::String(content.to_string())
    )
}

#[test]
fn compatible_stream_gives_the_deltas_until_the_sentinel() {
    let body = [
        ": keep-alive\n\n".to_string(),
        event("<think>hm"),
        event("m</think>Hi"),
        "event: ping\r\n\r\n".to_string(),
        event("!"),
        "data: {\"choices\":[],\"usage\":{\"prompt_tokens\":7,\"completion_tokens\":5,\"total_tokens\":12}}\n\n".to_string(),
        "data: [DONE]\n\n".to_string(),
        event("after the end"),
    ]
    .concat();
    let mut counts = BotReply::default();
    counts.prompt_token = Some(7);
    counts.completion_token = Some(5);
    counts.total_token = Some(12);
    let expected = vec![
        Ok(reasoning("hm")),
        Ok(reasoning("m")),
        Ok(answer("Hi")),
        Ok(answer("!")),
        Ok(counts),
    ];
    assert_eq!(drain(Providers::Custom, &[body.as_bytes()]), expected);
    let bytes = body.as_bytes();
    for cut in 0..=bytes.len() {
        let (first, second) = bytes.split_at(cut);
        assert_eq!(
            drain(Providers::Custom, &[first, second]),
            expected,
            "cut at {}",
            cut
        );
    }
}

#[test]
fn compatible_stream_without_sentinel_ends_with_the_connection() {
    let body = [event("a"), event("b")].concat();
    assert_eq!(
        drain(Providers::Custom, &[body.as_bytes()]),
        vec![Ok(answer("a")), Ok(answer("b"))]
    );
}

#[test]
fn events_after_a_failure_are_ignored() {
    let mut stream = BotReplyStream::new(Providers::Ollama);
    stream.frame(Err(DecodeError::MalformedFrame("bad".to_string())));
    assert_eq!(stream.phase(), Phase::Closed);
    stream.frame(ResponseFrame::read(Providers::Ollama, line("late").as_bytes()));
    stream.chunk(line("later").as_bytes());
    assert_eq!(
        stream.poll(),
        Action::Fail(ChatError::Decode(DecodeError::MalformedFrame("bad".to_string())))
    );
    assert_eq!(stream.poll(), Action::Done);
    assert_eq!(stream.poll(), Action::Done);
}

#[test]
fn ready_increments_go_out_before_a_failure() {
    let mut stream = BotReplyStream::new(Providers::Ollama);
    stream.frame(ResponseFrame::read(Providers::Ollama, line("a<think>b").as_bytes()));
    stream.broken(TransportError::Http(502, "bad gateway".to_string()));
    assert_eq!(stream.poll(), Action::Yield(answer("a")));
    assert_eq!(stream.poll(), Action::Yield(reasoning("b")));
    assert_eq!(
        stream.poll(),
        Action::Fail(ChatError::Stream(TransportError::Http(502, "bad gateway".to_string())))
    );
    assert_eq!(stream.poll(), Action::Done);
}
