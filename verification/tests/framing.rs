use chat_gateway::entities::Providers;
use chat_gateway::framing::{FrameDecoder, Framing, Record};

fn records(framing: Framing, chunks: &[&[u8]]) -> (Vec<Record>, bool) {
    let mut decoder = FrameDecoder::new(framing);
    let mut out = Vec::new();
    for chunk in chunks {
        decoder.push(chunk);
        while let Some(record) = decoder.next() {
            out.push(record);
        }
    }
    (out, decoder.is_empty())
}

fn payload(text: &str) -> Record {
    Record::Payload(text.as_bytes().to_vec())
}

#[test]
fn lines_are_records() {
    let (out, empty) = records(Framing::Lines, &[b"{\"a\":1}\n{\"b\":2}\n"]);
    assert_eq!(out, vec![payload("{\"a\":1}"), payload("{\"b\":2}")]);
    assert!(empty);
}

#[test]
fn an_unfinished_line_stays_in_the_buffer() {
    let mut decoder = FrameDecoder::new(Framing::Lines);
    assert!(decoder.is_empty());
    decoder.push(b"{\"a\":");
    assert!(!decoder.is_empty());
    assert_eq!(decoder.next(), None);
    assert!(!decoder.is_empty());
    decoder.push(b"1}\n{\"b\"");
    assert_eq!(decoder.next(), Some(payload("{\"a\":1}")));
    assert_eq!(decoder.next(), None);
    assert!(!decoder.is_empty());
    decoder.push(b":2}\n");
    assert_eq!(decoder.next(), Some(payload("{\"b\":2}")));
    assert_eq!(decoder.next(), None);
    assert!(decoder.is_empty());
}

#[test]
fn one_call_hands_out_one_record() {
    let mut decoder = FrameDecoder::new(Framing::Lines);
    decoder.push(b"1\n2\n3\n");
    assert_eq!(decoder.next(), Some(payload("1")));
    assert!(!decoder.is_empty());
    assert_eq!(decoder.next(), Some(payload("2")));
    assert_eq!(decoder.next(), Some(payload("3")));
    assert!(decoder.is_empty());
    assert_eq!(decoder.next(), None);
}

#[test]
fn carriage_returns_and_blank_lines_are_dropped() {
    let (out, empty) = records(Framing::Lines, &[b"\r\n{\"a\":1}\r\n\n\n{\"b\":2}\n\r\n"]);
    assert_eq!(out, vec![payload("{\"a\":1}"), payload("{\"b\":2}")]);
    assert!(empty);
    let (out, _) = records(Framing::Lines, &[b"a\rb\r\r\n"]);
    assert_eq!(out, vec![payload("a\rb\r")]);
}

#[test]
fn the_cut_into_chunks_does_not_matter_for_lines() {
    let body = b"{\"a\":1}\r\n\n{\"bb\":22}\n{\"c\":\"\xc3\xa9\"}\nrest";
    let (whole, _) = records(Framing::Lines, &[body]);
    assert_eq!(whole.len(), 3);
    for cut in 0..=body.len() {
        let (first, second) = body.split_at(cut);
        let (out, empty) = records(Framing::Lines, &[first, second]);
        assert_eq!(out, whole, "cut at {}", cut);
        assert!(!empty);
    }
    let singles: Vec<&[u8]> = body.chunks(1).collect();
    assert_eq!(records(Framing::Lines, &singles).0, whole);
}

#[test]
fn data_lines_are_records_and_other_lines_are_not() {
    let body = b": comment\nevent: message\nid: 7\ndata: {\"a\":1}\n\ndata:{\"b\":2}\r\n\r\ndata:  two spaces\ndata:\ndata: \nretry: 5\ndat: x\n";
    let (out, empty) = records(Framing::Events, &[body]);
    assert_eq!(out, vec![payload("{\"a\":1}"), payload("{\"b\":2}"), payload(" two spaces")]);
    assert!(empty);
}

#[test]
fn the_sentinel_is_told_apart_from_payloads() {
    let (out, _) = records(
        Framing::Events,
        &[b"data: [DONE]\n\ndata:[DONE]\r\ndata: [DONE] \ndata: [done]\ndata: x[DONE]\n"],
    );
    assert_eq!(
        out,
        vec![Record::Done, Record::Done, payload("[DONE] "), payload("[done]"), payload("x[DONE]")]
    );
    // with line framing the same bytes are an ordinary payload
    let (out, _) = records(Framing::Lines, &[b"[DONE]\n"]);
    assert_eq!(out, vec![payload("[DONE]")]);
}

#[test]
fn the_cut_into_chunks_does_not_matter_for_events() {
    let body = b"data: {\"a\":1}\n\n: ping\n\ndata: {\"b\":2}\r\n\r\ndata: [DONE]\n\n";
    let (whole, _) = records(Framing::Events, &[body]);
    assert_eq!(whole, vec![payload("{\"a\":1}"), payload("{\"b\":2}"), Record::Done]);
    for cut in 0..=body.len() {
        let (first, second) = body.split_at(cut);
        assert_eq!(records(Framing::Events, &[first, second]).0, whole, "cut at {}", cut);
    }
}

#[test]
fn providers_choose_the_framing() {
    let mut local = FrameDecoder::for_provider(Providers::Ollama);
    local.push(b"data: x\n");
    assert_eq!(local.next(), Some(payload("data: x")));
    let mut compatible = FrameDecoder::for_provider(Providers::Custom);
    compatible.push(b"data: x\n{\"a\":1}\n");
    assert_eq!(compatible.next(), Some(payload("x")));
    assert_eq!(compatible.next(), None);
    assert!(compatible.is_empty());
}

#[test]
fn cleared_decoder_holds_nothing() {
    let mut decoder = FrameDecoder::new(Framing::Lines);
    decoder.push(b"{\"a\":1}\n{\"b\"");
    decoder.clear();
    assert!(decoder.is_empty());
    assert_eq!(decoder.next(), None);
    decoder.push(b":2}\n");
    assert_eq!(decoder.next(), Some(payload(":2}")));
}
