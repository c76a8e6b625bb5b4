use observability_lib::llm::{
    api_key, base_url, has_stray_space, model, open_stream, read_stream, stream_request, unary_outcome,
    unary_request, Field, FieldValue, Snapshot, StreamAccumulator, StreamChunk, StreamEvent,
    StreamStep,
};
use observability_lib::server::{
    chat_step, email_outcome, next_price_event, order_reply, payment_outcome, plan_order, price,
    price_event, ChatAction, OrderStep, Received,
};
use serde_json::Value;

fn text_of(field: &Field) -> &str {
    match &field.value {
        FieldValue::Text(t) => t.as_str(),
        _ => panic!("no text"),
    }
}

fn chunk(contents: &[Option<&str>], meta: Option<Value>, usage: Option<Option<Value>>) -> StreamChunk {
    StreamChunk {
        contents: contents.iter().map(|c| c.map(|s| s.to_string())).collect(),
        meta,
        usage,
    }
}

fn reading(step: StreamStep) -> StreamAccumulator {
    match step {
        StreamStep::Reading(reply) => reply,
        StreamStep::Reply(_) => panic!("over"),
    }
}

fn reply(step: StreamStep) -> Vec<Field> {
    match step {
        StreamStep::Reply(fields) => fields,
        StreamStep::Reading(_) => panic!("not over"),
    }
}

#[test]
fn settings_are_trimmed_or_default() {
    assert_eq!(api_key(Some(" \u{a0}sk-1\n")), "sk-1");
    assert_eq!(api_key(None), "sk-placeholder");
    assert_eq!(api_key(Some(" \t ")), "");
    assert_eq!(base_url(Some("http://x y/ ")), "http://x y/");
    assert_eq!(base_url(None), "https://api.openai.com/v1");
    assert_eq!(model(Some(" m ")), " m ");
    assert_eq!(model(None), "gpt-3.5-turbo");
}

#[test]
fn stray_space_in_keys_is_found() {
    assert!(has_stray_space("sk-1\n"));
    assert!(has_stray_space("\u{2003}sk-1"));
    assert!(!has_stray_space("sk 1"));
    assert!(!has_stray_space(""));
    assert!(has_stray_space(" "));
}

#[test]
fn requests_to_the_model() {
    let request = stream_request("m".to_string());
    assert_eq!(request.model, "m");
    assert_eq!(request.prompt, "Write a short poem about Rust.");
    assert!(request.stream && request.include_usage);
    let request = unary_request("m".to_string());
    assert_eq!(request.prompt, "Write a haiku about Rust.");
    assert!(!request.stream && !request.include_usage);
}

#[test]
fn streamed_reply_is_the_whole_stream() {
    let step = open_stream(Ok(()));
    let first = chunk(&[Some("Fer"), None, Some("ris")], Some(Value::Bool(true)), None);
    let step = read_stream(reading(step), StreamEvent::Chunk(first, 12));
    let second = chunk(&[None], None, Some(None));
    let step = read_stream(reading(step), StreamEvent::Chunk(second, 30));
    let third = chunk(&[Some("!")], Some(Value::Null), Some(Some(Value::Bool(false))));
    let step = read_stream(reading(step), StreamEvent::Chunk(third, 31));
    let whole = reading(step);
    assert_eq!(whole.text(), "Ferris!");
    {
        let records = whole.chunks();
        assert_eq!(records.len(), 3);
        assert_eq!(records[0].index, 0);
        assert_eq!(records[0].content_delta, Some("ris".to_string()));
        assert!(records[0].usage_snapshot.is_none());
        assert_eq!(records[1].index, 1);
        assert_eq!(records[1].content_delta, None);
        assert_eq!(records[1].elapsed_ms, 30);
        assert!(matches!(
            records[1].usage_snapshot,
            Some(Snapshot::Note { key: "error", text: "serialize_failed" })
        ));
        assert!(matches!(records[2].usage_snapshot, Some(Snapshot::Json(Value::Bool(false)))));
    }
    let fields = reply(read_stream(whole, StreamEvent::Ended));
    assert_eq!(fields.len(), 3);
    assert_eq!(fields[0].key, "reply");
    assert_eq!(text_of(&fields[0]), "Ferris!");
    assert_eq!(fields[1].key, "meta");
    assert!(matches!(fields[1].value, FieldValue::Snapshot(Snapshot::Json(Value::Null))));
    assert_eq!(fields[2].key, "chunk_count");
    assert!(matches!(fields[2].value, FieldValue::Count(3)));
}

#[test]
fn streamed_reply_without_chunks() {
    let fields = reply(read_stream(reading(open_stream(Ok(()))), StreamEvent::Ended));
    assert_eq!(text_of(&fields[0]), "");
    assert!(matches!(
        fields[1].value,
        FieldValue::Snapshot(Snapshot::Note { key: "warning", text: "no_chunks" })
    ));
    assert!(matches!(fields[2].value, FieldValue::Count(0)));
}

#[test]
fn unserialised_chunk_is_noted() {
    let step = read_stream(
        reading(open_stream(Ok(()))),
        StreamEvent::Chunk(chunk(&[], None, None), 0),
    );
    let fields = reply(read_stream(reading(step), StreamEvent::Ended));
    assert!(matches!(
        fields[1].value,
        FieldValue::Snapshot(Snapshot::Note { key: "error", text: "serialize_failed" })
    ));
}

#[test]
fn broken_streams_are_failures() {
    let fields = reply(open_stream(Err("refused".to_string())));
    assert_eq!(fields.len(), 2);
    assert_eq!((fields[0].key, text_of(&fields[0])), ("error", "Handshake failed"));
    assert_eq!((fields[1].key, text_of(&fields[1])), ("details", "refused"));
    let step = read_stream(
        reading(open_stream(Ok(()))),
        StreamEvent::Chunk(chunk(&[Some("lost")], None, None), 0),
    );
    let fields = reply(read_stream(reading(step), StreamEvent::Broken("reset".to_string())));
    assert_eq!(fields.len(), 2);
    assert_eq!((fields[0].key, text_of(&fields[0])), ("error", "Stream interrupted"));
    assert_eq!((fields[1].key, text_of(&fields[1])), ("details", "reset"));
}

#[test]
fn plain_replies() {
    let fields = unary_outcome(Ok(vec![Some("one".to_string()), Some("two".to_string())]));
    assert_eq!(fields.len(), 1);
    assert_eq!((fields[0].key, text_of(&fields[0])), ("reply", "one"));
    assert_eq!(text_of(&unary_outcome(Ok(vec![None, Some("two".to_string())]))[0]), "");
    assert_eq!(text_of(&unary_outcome(Ok(Vec::new()))[0]), "");
    let fields = unary_outcome(Err("quota".to_string()));
    assert_eq!(fields.len(), 1);
    assert_eq!((fields[0].key, text_of(&fields[0])), ("error", "quota"));
}

#[test]
fn prices() {
    assert_eq!(price(0), 100);
    assert_eq!(price(255), 355);
    assert_eq!(price_event(0), "Price: $100");
    assert_eq!(price_event(205), "Price: $305");
}

#[test]
fn next_price_is_some_price_and_varies() {
    let events: Vec<String> = (0..200).map(|_| next_price_event()).collect();
    for event in &events {
        let value: u16 = event.strip_prefix("Price: $").unwrap().parse().unwrap();
        assert!((100..=355).contains(&value));
    }
    assert!(events.iter().any(|e| e != &events[0]));
}

#[test]
fn orders_mails_and_payments() {
    let fields = order_reply(true);
    assert_eq!((fields[0].key, text_of(&fields[0])), ("status", "failed"));
    assert_eq!(text_of(&order_reply(false)[0]), "created");
    assert_eq!(email_outcome(true), Err("SMTP Fail"));
    assert_eq!(email_outcome(false), Ok(()));
    assert_eq!(payment_outcome(), Err("Gateway Fail"));
}

#[test]
fn payments_run_for_declined_orders_only() {
    let declined = plan_order(true);
    assert_eq!(declined.steps, vec![OrderStep::StartMail, OrderStep::RunPayment]);
    assert_eq!(text_of(&declined.reply[0]), "failed");
    let taken = plan_order(false);
    assert_eq!(taken.steps, vec![OrderStep::StartMail]);
    assert_eq!((taken.reply.len(), text_of(&taken.reply[0])), (1, "created"));
}

#[test]
fn chat_echoes_text() {
    assert!(matches!(chat_step(Received::Text("hi".to_string())), ChatAction::Send(t) if t == "hi"));
    assert!(matches!(chat_step(Received::Other), ChatAction::Skip));
    assert!(matches!(chat_step(Received::Closed), ChatAction::Stop));
}
