//! Calls to a language model: settings, requests, and what a reply is made of.

use serde_json::Value;
use vstd::prelude::*;
use vstd::string::StringExecFns;

use crate::text;

verus! {

/// The key that is used where none is set.
pub const DEFAULT_API_KEY: &'static str = "sk-placeholder";

/// The address that is used where none is set.
pub const DEFAULT_BASE_URL: &'static str = "https://api.openai.com/v1";

/// The model that is used where none is set.
pub const DEFAULT_MODEL: &'static str = "gpt-3.5-turbo";

/// What a setting says, or its default where it is not set.
pub open spec fn setting_or(setting: Option<Seq<char>>, default: Seq<char>) -> Seq<char> {
    match setting {
        Some(s) => s,
        None => default,
    }
}

/// The key to use, without the white space at its ends.
pub fn api_key(setting: Option<&str>) -> (key: String)
    ensures
        text::is_trimmed(setting_or(text::text_view(setting), DEFAULT_API_KEY@), key@),
{
    match setting {
        Some(s) => text::trim(s),
        None => text::trim(DEFAULT_API_KEY),
    }
}

/// The address to use, without the white space at its ends.
pub fn base_url(setting: Option<&str>) -> (url: String)
    ensures
        text::is_trimmed(setting_or(text::text_view(setting), DEFAULT_BASE_URL@), url@),
{
    match setting {
        Some(s) => text::trim(s),
        None => text::trim(DEFAULT_BASE_URL),
    }
}

/// The model to use, as it is set.
pub fn model(setting: Option<&str>) -> (name: String)
    ensures
        name@ == setting_or(text::text_view(setting), DEFAULT_MODEL@),
{
    match setting {
        Some(s) => String::from(s),
        None => String::from(DEFAULT_MODEL),
    }
}

/// Whether a key has white space at its ends, which breaks the headers it is put in.
pub fn has_stray_space(key: &str) -> (stray: bool)
    ensures
        stray == !text::is_trimmed(key@, key@),
{
    let trimmed = text::trim(key);
    proof {
        if text::is_trimmed(key@, key@) {
            text::law_trimming_is_unique(key@, key@, trimmed@);
        }
    }
    !text::same(trimmed.as_str(), key)
}

/// A request to the model.
#[derive(Debug)]
pub struct ChatRequest {
    pub model: String,
    /// What the user says.
    pub prompt: &'static str,
    /// Whether the reply comes in chunks.
    pub stream: bool,
    /// Whether the last chunk says what the reply took.
    pub include_usage: bool,
}

/// The prompt of the streamed request.
pub const STREAM_PROMPT: &'static str = "Write a short poem about Rust.";

/// The prompt of the plain request.
pub const UNARY_PROMPT: &'static str = "Write a haiku about Rust.";

/// The request whose reply is streamed.
pub fn stream_request(model: String) -> (request: ChatRequest)
    ensures
        request.model == model,
        request.prompt@ == STREAM_PROMPT@,
        request.stream,
        request.include_usage,
{
    ChatRequest { model, prompt: STREAM_PROMPT, stream: true, include_usage: true }
}

/// The request whose reply comes at once.
pub fn unary_request(model: String) -> (request: ChatRequest)
    ensures
        request.model == model,
        request.prompt@ == UNARY_PROMPT@,
        !request.stream,
        !request.include_usage,
{
    ChatRequest { model, prompt: UNARY_PROMPT, stream: false, include_usage: false }
}

/// A JSON value, carried as it is.
#[verifier::external_type_specification]
#[verifier::external_body]
pub struct ExValue(Value);

/// A JSON value, or an object with one text entry that stands in its place.
#[derive(Debug)]
pub enum Snapshot {
    Json(Value),
    Note { key: &'static str, text: &'static str },
}

/// A snapshot over characters.
pub enum SnapshotView {
    Json(Value),
    Note { key: Seq<char>, text: Seq<char> },
}

impl View for Snapshot {
    type V = SnapshotView;

    open spec fn view(&self) -> SnapshotView {
        match *self {
            Snapshot::Json(value) => SnapshotView::Json(value),
            Snapshot::Note { key, text } => SnapshotView::Note { key: key@, text: text@ },
        }
    }
}

/// An optional snapshot over characters.
pub open spec fn snapshot_view(snapshot: Option<Snapshot>) -> Option<SnapshotView> {
    match snapshot {
        Some(s) => Some(s@),
        None => None,
    }
}

/// The snapshot of a value that may not have been serialised.
pub open spec fn snapshot_of(value: Option<Value>) -> SnapshotView {
    match value {
        Some(v) => SnapshotView::Json(v),
        None => SnapshotView::Note { key: "error"@, text: "serialize_failed"@ },
    }
}

/// The snapshot of what a chunk says of usage, where it speaks of it.
pub open spec fn usage_of(usage: Option<Option<Value>>) -> Option<SnapshotView> {
    match usage {
        Some(value) => Some(snapshot_of(value)),
        None => None,
    }
}

fn take_snapshot(value: Option<Value>) -> (snapshot: Snapshot)
    ensures
        snapshot@ == snapshot_of(value),
{
    match value {
        Some(v) => Snapshot::Json(v),
        None => Snapshot::Note { key: "error", text: "serialize_failed" },
    }
}

/// A chunk of a streamed reply.
#[derive(Debug)]
pub struct StreamChunk {
    /// What each choice adds to the text, in order.
    pub contents: Vec<Option<String>>,
    /// The chunk in JSON, unless it could not be serialised.
    pub meta: Option<Value>,
    /// What the chunk says of usage in JSON, unless that could not be
    /// serialised; nothing where it does not speak of usage.
    pub usage: Option<Option<Value>>,
}

/// A chunk over characters.
pub struct ChunkView {
    pub contents: Seq<Option<Seq<char>>>,
    pub meta: Option<Value>,
    pub usage: Option<Option<Value>>,
}

/// What choices add, over characters.
pub open spec fn contents_view(contents: Seq<Option<String>>) -> Seq<Option<Seq<char>>> {
    contents.map_values(|c: Option<String>| text::owned_view(c))
}

impl View for StreamChunk {
    type V = ChunkView;

    open spec fn view(&self) -> ChunkView {
        ChunkView { contents: contents_view(self.contents@), meta: self.meta, usage: self.usage }
    }
}

/// All that the choices add, one after the other.
pub open spec fn joined(contents: Seq<Option<Seq<char>>>) -> Seq<char>
    decreases contents.len(),
{
    if contents.len() == 0 {
        Seq::empty()
    } else if contents.last() is Some {
        joined(contents.drop_last()) + contents.last()->0
    } else {
        joined(contents.drop_last())
    }
}

/// What the last choice adds that adds anything.
pub open spec fn last_content(contents: Seq<Option<Seq<char>>>) -> Option<Seq<char>>
    decreases contents.len(),
{
    if contents.len() == 0 {
        None
    } else if contents.last() is Some {
        contents.last()
    } else {
        last_content(contents.drop_last())
    }
}

/// What is kept of a chunk.
#[derive(Debug)]
pub struct StreamChunkRecord {
    pub index: usize,
    pub content_delta: Option<String>,
    pub usage_snapshot: Option<Snapshot>,
    pub elapsed_ms: u128,
}

/// A chunk record over characters.
pub struct RecordView {
    pub index: nat,
    pub content_delta: Option<Seq<char>>,
    pub usage_snapshot: Option<SnapshotView>,
    pub elapsed_ms: u128,
}

impl View for StreamChunkRecord {
    type V = RecordView;

    open spec fn view(&self) -> RecordView {
        RecordView {
            index: self.index as nat,
            content_delta: text::owned_view(self.content_delta),
            usage_snapshot: snapshot_view(self.usage_snapshot),
            elapsed_ms: self.elapsed_ms,
        }
    }
}

/// Puts a streamed reply together.
#[derive(Debug)]
pub struct StreamAccumulator {
    text: String,
    chunks: Vec<StreamChunkRecord>,
    meta: Option<Snapshot>,
}

/// A reply in the making, over characters.
pub struct AccumulatorView {
    pub text: Seq<char>,
    pub chunks: Seq<RecordView>,
    pub meta: Option<SnapshotView>,
}

impl View for StreamAccumulator {
    type V = AccumulatorView;

    closed spec fn view(&self) -> AccumulatorView {
        AccumulatorView {
            text: self.text@,
            chunks: self.chunks@.map_values(|r: StreamChunkRecord| r@),
            meta: snapshot_view(self.meta),
        }
    }
}

/// A reply before its first chunk.
pub open spec fn nothing_yet() -> AccumulatorView {
    AccumulatorView { text: Seq::empty(), chunks: Seq::empty(), meta: None }
}

/// A reply after one more chunk, which came `elapsed_ms` after the request.
pub open spec fn after_chunk(
    reply: AccumulatorView,
    chunk: ChunkView,
    elapsed_ms: u128,
) -> AccumulatorView {
    AccumulatorView {
        text: reply.text + joined(chunk.contents),
        chunks: reply.chunks.push(
            RecordView {
                index: reply.chunks.len(),
                content_delta: last_content(chunk.contents),
                usage_snapshot: usage_of(chunk.usage),
                elapsed_ms,
            },
        ),
        meta: Some(snapshot_of(chunk.meta)),
    }
}

/// The value of a field of a reply.
#[derive(Debug)]
pub enum FieldValue {
    Text(String),
    Count(usize),
    Snapshot(Snapshot),
}

/// The value of a field over characters.
pub enum FieldView {
    Text(Seq<char>),
    Count(nat),
    Snapshot(SnapshotView),
}

/// A field of a reply.
#[derive(Debug)]
pub struct Field {
    pub key: &'static str,
    pub value: FieldValue,
}

impl View for Field {
    type V = (Seq<char>, FieldView);

    open spec fn view(&self) -> (Seq<char>, FieldView) {
        (
            self.key@,
            match self.value {
                FieldValue::Text(t) => FieldView::Text(t@),
                FieldValue::Count(n) => FieldView::Count(n as nat),
                FieldValue::Snapshot(s) => FieldView::Snapshot(s@),
            },
        )
    }
}

/// The fields of a reply over characters.
pub open spec fn fields_view(fields: Seq<Field>) -> Seq<(Seq<char>, FieldView)> {
    fields.map_values(|f: Field| f@)
}

/// The fields of a complete streamed reply: the text, what the last chunk was,
/// and how many chunks there were.
pub open spec fn complete_reply(reply: AccumulatorView) -> Seq<(Seq<char>, FieldView)> {
    seq![
        ("reply"@, FieldView::Text(reply.text)),
        (
            "meta"@,
            FieldView::Snapshot(
                match reply.meta {
                    Some(meta) => meta,
                    None => SnapshotView::Note { key: "warning"@, text: "no_chunks"@ },
                },
            ),
        ),
        ("chunk_count"@, FieldView::Count(reply.chunks.len())),
    ]
}

impl StreamAccumulator {
    /// A reply before its first chunk.
    pub fn new() -> (reply: Self)
        ensures
            reply@ == nothing_yet(),
    {
        let reply = StreamAccumulator { text: String::new(), chunks: Vec::new(), meta: None };
        assert(reply@.chunks =~= Seq::empty());
        reply
    }

    /// Takes in a chunk that came `elapsed_ms` after the request.
    pub fn push(&mut self, chunk: StreamChunk, elapsed_ms: u128)
        ensures
            final(self)@ == after_chunk(old(self)@, chunk@, elapsed_ms),
    {
        let ghost before = self@;
        let ghost contents = contents_view(chunk.contents@);
        let mut delta: Option<String> = None;
        let mut i: usize = 0;
        assert(joined(contents.take(0)) =~= Seq::empty());
        assert(before.text + joined(contents.take(0)) =~= before.text);
        while i < chunk.contents.len()
            invariant
                i <= chunk.contents@.len(),
                contents == contents_view(chunk.contents@),
                self.text@ == before.text + joined(contents.take(i as int)),
                text::owned_view(delta) == last_content(contents.take(i as int)),
                self.chunks == old(self).chunks,
            decreases chunk.contents@.len() - i,
        {
            assert(contents.take(i + 1).drop_last() =~= contents.take(i as int));
            match &chunk.contents[i] {
                Some(content) => {
                    self.text.append(content.as_str());
                    delta = Some(content.clone());
                    assert(contents[i as int] == Some(content@));
                    assert(self.text@ =~= before.text + joined(contents.take(i + 1)));
                },
                None => {},
            }
            i = i + 1;
        }
        assert(contents.take(i as int) =~= contents);
        let usage_snapshot = match chunk.usage {
            Some(usage) => Some(take_snapshot(usage)),
            None => None,
        };
        let index = self.chunks.len();
        self.chunks.push(
            StreamChunkRecord { index, content_delta: delta, usage_snapshot, elapsed_ms },
        );
        self.meta = Some(take_snapshot(chunk.meta));
        assert(self@.chunks =~= after_chunk(before, chunk@, elapsed_ms).chunks);
    }

    /// The text so far.
    pub fn text(&self) -> (t: &str)
        ensures
            t@ == self@.text,
    {
        self.text.as_str()
    }

    /// The chunks that were taken in, in order.
    pub fn chunks(&self) -> (chunks: &Vec<StreamChunkRecord>)
        ensures
            chunks@.map_values(|r: StreamChunkRecord| r@) == self@.chunks,
    {
        &self.chunks
    }

    /// The stream is over: the fields of the reply.
    pub fn finish(self) -> (fields: Vec<Field>)
        ensures
            fields_view(fields@) == complete_reply(self@),
    {
        let meta = match self.meta {
            Some(m) => m,
            None => Snapshot::Note { key: "warning", text: "no_chunks" },
        };
        let fields = vec![
            Field { key: "reply", value: FieldValue::Text(self.text) },
            Field { key: "meta", value: FieldValue::Snapshot(meta) },
            Field { key: "chunk_count", value: FieldValue::Count(self.chunks.len()) },
        ];
        assert(fields_view(fields@) =~= complete_reply(self@));
        fields
    }
}

/// The fields of a reply that tells of an error.
pub open spec fn failure(what: Seq<char>, details: Seq<char>) -> Seq<(Seq<char>, FieldView)> {
    seq![("error"@, FieldView::Text(what)), ("details"@, FieldView::Text(details))]
}

fn report_failure(what: &str, details: String) -> (fields: Vec<Field>)
    ensures
        fields_view(fields@) == failure(what@, details@),
{
    let fields = vec![
        Field { key: "error", value: FieldValue::Text(String::from(what)) },
        Field { key: "details", value: FieldValue::Text(details) },
    ];
    assert(fields_view(fields@) =~= failure(what@, details@));
    fields
}

/// The reply where the stream broke off: nothing of what had come is in it.
fn stream_interrupted(details: String) -> (fields: Vec<Field>)
    ensures
        fields_view(fields@) == failure("Stream interrupted"@, details@),
{
    report_failure("Stream interrupted", details)
}

/// The reply where the stream did not open.
fn handshake_failed(details: String) -> (fields: Vec<Field>)
    ensures
        fields_view(fields@) == failure("Handshake failed"@, details@),
{
    report_failure("Handshake failed", details)
}

/// What happens to a streamed reply.
#[derive(Debug)]
pub enum StreamEvent {
    /// A chunk came, so many milliseconds after the request.
    Chunk(StreamChunk, u128),
    /// The stream broke off with this error.
    Broken(String),
    /// The stream is over.
    Ended,
}

/// Where a streamed reply stands.
#[derive(Debug)]
pub enum StreamStep {
    /// More is to come.
    Reading(StreamAccumulator),
    /// This is the reply.
    Reply(Vec<Field>),
}

/// A streamed reply starts with its handshake: it is read if the handshake
/// succeeds, and is a failure otherwise.
pub fn open_stream(handshake: Result<(), String>) -> (step: StreamStep)
    ensures
        match handshake {
            Ok(_) => step matches StreamStep::Reading(reply) && reply@ == nothing_yet(),
            Err(details) => step matches StreamStep::Reply(fields) && fields_view(fields@)
                == failure("Handshake failed"@, details@),
        },
{
    match handshake {
        Ok(_) => StreamStep::Reading(StreamAccumulator::new()),
        Err(details) => StreamStep::Reply(handshake_failed(details)),
    }
}

/// Takes a streamed reply one event further. A stream that breaks off is a
/// failure, whatever had come before.
pub fn read_stream(reply: StreamAccumulator, event: StreamEvent) -> (step: StreamStep)
    ensures
        match event {
            StreamEvent::Chunk(chunk, elapsed_ms) => step matches StreamStep::Reading(next)
                && next@ == after_chunk(reply@, chunk@, elapsed_ms),
            StreamEvent::Broken(details) => step matches StreamStep::Reply(fields) && fields_view(
                fields@,
            ) == failure("Stream interrupted"@, details@),
            StreamEvent::Ended => step matches StreamStep::Reply(fields) && fields_view(fields@)
                == complete_reply(reply@),
        },
{
    match event {
        StreamEvent::Chunk(chunk, elapsed_ms) => {
            let mut next = reply;
            next.push(chunk, elapsed_ms);
            StreamStep::Reading(next)
        },
        StreamEvent::Broken(details) => StreamStep::Reply(stream_interrupted(details)),
        StreamEvent::Ended => StreamStep::Reply(reply.finish()),
    }
}

/// The text of a reply that came at once: that of the first choice.
pub open spec fn first_content(contents: Seq<Option<Seq<char>>>) -> Seq<char> {
    if contents.len() > 0 && contents[0] is Some {
        contents[0]->0
    } else {
        Seq::empty()
    }
}

/// The fields of the reply to a plain request: the text of the first choice, or
/// the error.
pub open spec fn plain_reply(answer: Result<Seq<Option<Seq<char>>>, Seq<char>>) -> Seq<
    (Seq<char>, FieldView),
> {
    match answer {
        Ok(contents) => seq![("reply"@, FieldView::Text(first_content(contents)))],
        Err(details) => seq![("error"@, FieldView::Text(details))],
    }
}

/// The answer to a plain request over characters.
pub open spec fn answer_view(answer: Result<Vec<Option<String>>, String>) -> Result<
    Seq<Option<Seq<char>>>,
    Seq<char>,
> {
    match answer {
        Ok(contents) => Ok(contents_view(contents@)),
        Err(details) => Err(details@),
    }
}

/// The reply to a plain request, which was answered with the text of each
/// choice or failed with an error.
pub fn unary_outcome(answer: Result<Vec<Option<String>>, String>) -> (fields: Vec<Field>)
    ensures
        fields_view(fields@) == plain_reply(answer_view(answer)),
{
    let fields = match answer {
        Ok(contents) => {
            let reply = if contents.len() > 0 {
                match &contents[0] {
                    Some(content) => content.clone(),
                    None => String::new(),
                }
            } else {
                String::new()
            };
            vec![Field { key: "reply", value: FieldValue::Text(reply) }]
        },
        Err(details) => vec![Field { key: "error", value: FieldValue::Text(details) }],
    };
    assert(fields_view(fields@) =~= plain_reply(answer_view(answer)));
    fields
}

/// A reply after a run of chunks, each with the time that it took to come.
pub open spec fn after_chunks(chunks: Seq<(ChunkView, u128)>) -> AccumulatorView
    decreases chunks.len(),
{
    if chunks.len() == 0 {
        nothing_yet()
    } else {
        after_chunk(after_chunks(chunks.drop_last()), chunks.last().0, chunks.last().1)
    }
}

/// All that a run of chunks adds, one after the other.
pub open spec fn all_joined(chunks: Seq<(ChunkView, u128)>) -> Seq<char>
    decreases chunks.len(),
{
    if chunks.len() == 0 {
        Seq::empty()
    } else {
        all_joined(chunks.drop_last()) + joined(chunks.last().0.contents)
    }
}

/// A streamed reply is all that its chunks add, in their order; its chunks are
/// all counted and numbered from zero without a gap; and it tells of the last
/// of them.
pub proof fn law_reply_is_the_whole_stream(chunks: Seq<(ChunkView, u128)>)
    ensures
        after_chunks(chunks).text == all_joined(chunks),
        after_chunks(chunks).chunks.len() == chunks.len(),
        forall|i: int|
            0 <= i < chunks.len() ==> {
                let record = #[trigger] after_chunks(chunks).chunks[i];
                &&& record.index == i
                &&& record.content_delta == last_content(chunks[i].0.contents)
                &&& record.usage_snapshot == usage_of(chunks[i].0.usage)
                &&& record.elapsed_ms == chunks[i].1
            },
        after_chunks(chunks).meta == (if chunks.len() > 0 {
            Some(snapshot_of(chunks.last().0.meta))
        } else {
            None
        }),
    decreases chunks.len(),
{
    if chunks.len() > 0 {
        law_reply_is_the_whole_stream(chunks.drop_last());
    }
}

proof fn lemma_default_is_trimmed(default: Seq<char>, t: Seq<char>)
    requires
        default.len() > 0,
        !text::white_space(default[0]),
        !text::white_space(default[default.len() - 1]),
        text::is_trimmed(default, t),
    ensures
        t == default,
{
    let none = Seq::<char>::empty();
    assert(default =~= none + default + none);
    assert(text::stands_between_space(default, default, none, none));
    text::law_trimming_takes_off_space(default, default);
    text::law_trimming_is_unique(default, default, t);
}

/// The key is the one that is set without the white space at its ends, or the
/// default as it stands.
pub proof fn law_keys_are_trimmed(setting: Option<&str>, key: String)
    requires
        call_ensures(api_key, (setting,), key),
    ensures
        setting is Some ==> exists|before: Seq<char>, after: Seq<char>| #[trigger]
            text::stands_between_space(setting->0@, key@, before, after),
        setting is None ==> key@ == "sk-placeholder"@,
{
    if setting is Some {
        text::law_trimming_takes_off_space(setting->0@, key@);
    } else {
        reveal_strlit("sk-placeholder");
        lemma_default_is_trimmed("sk-placeholder"@, key@);
    }
}

/// The address is the one that is set without the white space at its ends, or the
/// default as it stands.
pub proof fn law_addresses_are_trimmed(setting: Option<&str>, url: String)
    requires
        call_ensures(base_url, (setting,), url),
    ensures
        setting is Some ==> exists|before: Seq<char>, after: Seq<char>| #[trigger]
            text::stands_between_space(setting->0@, url@, before, after),
        setting is None ==> url@ == "https://api.openai.com/v1"@,
{
    if setting is Some {
        text::law_trimming_takes_off_space(setting->0@, url@);
    } else {
        reveal_strlit("https://api.openai.com/v1");
        lemma_default_is_trimmed("https://api.openai.com/v1"@, url@);
    }
}

/// The model is the one that is set, with its white space, or the default.
pub proof fn law_models_are_taken_as_set(setting: Option<&str>, name: String)
    requires
        call_ensures(model, (setting,), name),
    ensures
        setting is Some ==> name@ == setting->0@,
        setting is None ==> name@ == "gpt-3.5-turbo"@,
{
}

/// A key has stray space exactly where its first or its last character is white
/// space.
pub proof fn law_stray_space_is_at_the_ends(key: &str, stray: bool)
    requires
        call_ensures(has_stray_space, (key,), stray),
    ensures
        stray <==> key@.len() > 0 && (text::white_space(key@[0]) || text::white_space(
            key@[key@.len() - 1],
        )),
{
    let none = Seq::<char>::empty();
    text::law_trimming_takes_off_space(key@, key@);
    if !stray {
        let (before, after) = choose|before: Seq<char>, after: Seq<char>| #[trigger]
            text::stands_between_space(key@, key@, before, after);
        assert((before + key@ + after).len() == key@.len());
    }
    if !(key@.len() > 0 && (text::white_space(key@[0]) || text::white_space(
        key@[key@.len() - 1],
    ))) {
        assert(key@ =~= none + key@ + none);
        assert(text::stands_between_space(key@, key@, none, none));
    }
}

/// Both requests are for the model that is asked for. The streamed one asks for
/// usage too, the plain one for neither.
pub proof fn law_requests_ask_the_model(name: String, streamed: ChatRequest, plain: ChatRequest)
    requires
        call_ensures(stream_request, (name,), streamed),
        call_ensures(unary_request, (name,), plain),
    ensures
        streamed.model@ == name@,
        streamed.prompt@ == "Write a short poem about Rust."@,
        streamed.stream && streamed.include_usage,
        plain.model@ == name@,
        plain.prompt@ == "Write a haiku about Rust."@,
        !plain.stream && !plain.include_usage,
{
}

/// What each choice says: nothing where it has no content.
pub open spec fn said(contents: Seq<Option<String>>) -> Seq<Seq<char>> {
    Seq::new(
        contents.len(),
        |i: int|
            if contents[i] is Some {
                contents[i]->0@
            } else {
                Seq::empty()
            },
    )
}

proof fn lemma_joined_is_said(contents: Seq<Option<String>>)
    ensures
        joined(contents_view(contents)) == said(contents).flatten(),
    decreases contents.len(),
{
    let pieces = said(contents);
    let views = contents_view(contents);
    pieces.lemma_flatten_and_flatten_alt_are_equivalent();
    if contents.len() > 0 {
        let front = contents.drop_last();
        lemma_joined_is_said(front);
        said(front).lemma_flatten_and_flatten_alt_are_equivalent();
        assert(pieces.drop_last() =~= said(front));
        assert(views.drop_last() =~= contents_view(front));
        assert(views.last() == text::owned_view(contents.last()));
        assert(joined(views) =~= said(front).flatten() + pieces.last());
    }
}

proof fn lemma_last_content_is(contents: Seq<Option<String>>, d: int)
    requires
        -1 <= d < contents.len(),
        d >= 0 ==> contents[d] is Some,
        forall|j: int| d < j < contents.len() ==> (#[trigger] contents[j]) is None,
    ensures
        last_content(contents_view(contents)) == (if d >= 0 {
            Some(contents[d]->0@)
        } else {
            None
        }),
    decreases contents.len(),
{
    let views = contents_view(contents);
    if contents.len() > 0 {
        assert(views.last() == text::owned_view(contents.last()));
        if d < contents.len() - 1 {
            let front = contents.drop_last();
            assert(contents[contents.len() - 1] is None);
            assert forall|j: int| d < j < front.len() implies (#[trigger] front[j]) is None by {
                assert(front[j] == contents[j]);
            }
            lemma_last_content_is(front, d);
            assert(views.drop_last() =~= contents_view(front));
        }
    }
}

/// Whether a snapshot is that of a value: the value itself, or a note where the
/// value could not be serialised.
pub open spec fn shows_value(snapshot: Snapshot, value: Option<Value>) -> bool {
    &&& value is Some ==> snapshot == Snapshot::Json(value->0)
    &&& value is None ==> (snapshot matches Snapshot::Note { key, text } && key@ == "error"@
        && text@ == "serialize_failed"@)
}

proof fn lemma_shows_value(snapshot: Snapshot, value: Option<Value>)
    requires
        snapshot@ == snapshot_of(value),
    ensures
        shows_value(snapshot, value),
{
}

/// A chunk adds to the text all that its choices say, in their order, and one
/// record at the end, which leaves the others as they were: its number, what its
/// last choice with content says, what it says of usage, and when it came. `d` is
/// the place of that choice, and minus one where there is none.
pub proof fn law_chunks_add_up(
    reply: StreamAccumulator,
    chunk: StreamChunk,
    elapsed_ms: u128,
    step: StreamStep,
    text_before: &str,
    text_after: &str,
    before: &Vec<StreamChunkRecord>,
    after: &Vec<StreamChunkRecord>,
    d: int,
)
    requires
        call_ensures(read_stream, (reply, StreamEvent::Chunk(chunk, elapsed_ms)), step),
        call_ensures(StreamAccumulator::text, (&reply,), text_before),
        call_ensures(StreamAccumulator::chunks, (&reply,), before),
        step matches StreamStep::Reading(next) ==> call_ensures(
            StreamAccumulator::text,
            (&next,),
            text_after,
        ) && call_ensures(StreamAccumulator::chunks, (&next,), after),
        -1 <= d < chunk.contents@.len(),
        d >= 0 ==> chunk.contents@[d] is Some,
        forall|j: int| d < j < chunk.contents@.len() ==> (#[trigger] chunk.contents@[j]) is None,
    ensures
        step is Reading,
        text_after@ == text_before@ + said(chunk.contents@).flatten(),
        after@.len() == before@.len() + 1,
        forall|i: int| 0 <= i < before@.len() ==> (#[trigger] after@[i])@ == before@[i]@,
        ({
            let record = after@[after@.len() - 1];
            &&& record.index == before@.len()
            &&& record.elapsed_ms == elapsed_ms
            &&& record.content_delta is Some <==> d >= 0
            &&& d >= 0 ==> record.content_delta->0@ == chunk.contents@[d]->0@
            &&& record.usage_snapshot is Some <==> chunk.usage is Some
            &&& chunk.usage is Some ==> shows_value(record.usage_snapshot->0, chunk.usage->0)
        }),
{
    lemma_joined_is_said(chunk.contents@);
    lemma_last_content_is(chunk.contents@, d);
    let next = step->Reading_0;
    let seen = after@.map_values(|r: StreamChunkRecord| r@);
    let had = before@.map_values(|r: StreamChunkRecord| r@);
    assert(seen == next@.chunks);
    assert(had == reply@.chunks);
    assert(seen.len() == had.len() + 1);
    assert forall|i: int| 0 <= i < before@.len() implies (#[trigger] after@[i])@ == before@[i]@ by {
        assert(seen[i] == after@[i]@);
        assert(had[i] == before@[i]@);
    }
    let record = after@[after@.len() - 1];
    assert(seen[seen.len() - 1] == record@);
    if chunk.usage is Some {
        lemma_shows_value(record.usage_snapshot->0, chunk.usage->0);
    }
}

/// At the end of a stream the reply is the whole text, and the number of chunks;
/// in between stands what the last chunk was.
pub proof fn law_ends_give_the_whole_reply(
    reply: StreamAccumulator,
    step: StreamStep,
    t: &str,
    records: &Vec<StreamChunkRecord>,
)
    requires
        call_ensures(read_stream, (reply, StreamEvent::Ended), step),
        call_ensures(StreamAccumulator::text, (&reply,), t),
        call_ensures(StreamAccumulator::chunks, (&reply,), records),
    ensures
        step matches StreamStep::Reply(fields) && {
            &&& fields@.len() == 3
            &&& fields@[0].key@ == "reply"@
            &&& fields@[0].value matches FieldValue::Text(whole) && whole@ == t@
            &&& fields@[1].key@ == "meta"@
            &&& fields@[1].value is Snapshot
            &&& fields@[2].key@ == "chunk_count"@
            &&& fields@[2].value matches FieldValue::Count(n) && n == records@.len()
        },
{
    lemma_fields_seen(step->Reply_0@);
    assert(records@.map_values(|r: StreamChunkRecord| r@).len() == records@.len());
}

proof fn lemma_fields_seen(fields: Seq<Field>)
    ensures
        fields_view(fields).len() == fields.len(),
        forall|i: int| 0 <= i < fields.len() ==> #[trigger] fields[i]@ == fields_view(fields)[i],
{
    assert forall|i: int| 0 <= i < fields.len() implies #[trigger] fields[i]@ == fields_view(
        fields,
    )[i] by {}
}

/// A stream that ends after a chunk tells of that chunk, whatever came before.
pub proof fn law_replies_tell_of_the_last_chunk(
    reply: StreamAccumulator,
    chunk: StreamChunk,
    elapsed_ms: u128,
    step: StreamStep,
    last: StreamStep,
)
    requires
        call_ensures(read_stream, (reply, StreamEvent::Chunk(chunk, elapsed_ms)), step),
        step matches StreamStep::Reading(next) ==> call_ensures(
            read_stream,
            (next, StreamEvent::Ended),
            last,
        ),
    ensures
        last matches StreamStep::Reply(fields) && {
            &&& fields@.len() == 3
            &&& fields@[1].value matches FieldValue::Snapshot(meta) && shows_value(
                meta,
                chunk.meta,
            )
        },
{
    lemma_fields_seen(last->Reply_0@);
    lemma_shows_value(last->Reply_0@[1].value->Snapshot_0, chunk.meta);
}

/// A stream that opens and ends without a chunk has an empty reply, counts no
/// chunk, and warns of it.
pub proof fn law_streams_without_chunks_warn(
    step: StreamStep,
    t: &str,
    records: &Vec<StreamChunkRecord>,
    last: StreamStep,
)
    requires
        call_ensures(open_stream, (Ok::<(), String>(()),), step),
        step matches StreamStep::Reading(reply) ==> call_ensures(
            StreamAccumulator::text,
            (&reply,),
            t,
        ) && call_ensures(StreamAccumulator::chunks, (&reply,), records) && call_ensures(
            read_stream,
            (reply, StreamEvent::Ended),
            last,
        ),
    ensures
        step is Reading,
        t@.len() == 0,
        records@.len() == 0,
        last matches StreamStep::Reply(fields) && {
            &&& fields@.len() == 3
            &&& fields@[0].value matches FieldValue::Text(whole) && whole@.len() == 0
            &&& fields@[1].value matches FieldValue::Snapshot(meta) && meta matches Snapshot::Note {
                key,
                text,
            } && key@ == "warning"@ && text@ == "no_chunks"@
            &&& fields@[2].value matches FieldValue::Count(n) && n == 0
        },
{
    lemma_fields_seen(last->Reply_0@);
    assert(records@.map_values(|r: StreamChunkRecord| r@).len() == records@.len());
}

/// Whether fields tell of a failure: what failed, its details, and no more.
pub open spec fn tells_failure(fields: Seq<Field>, what: Seq<char>, details: Seq<char>) -> bool {
    &&& fields.len() == 2
    &&& fields[0].key@ == "error"@
    &&& fields[0].value matches FieldValue::Text(w) && w@ == what
    &&& fields[1].key@ == "details"@
    &&& fields[1].value matches FieldValue::Text(t) && t@ == details
}

/// A handshake that fails is the reply: the stream is not read.
pub proof fn law_failed_handshakes_are_the_reply(details: String, step: StreamStep)
    requires
        call_ensures(open_stream, (Err::<(), String>(details),), step),
    ensures
        step matches StreamStep::Reply(fields) && tells_failure(
            fields@,
            "Handshake failed"@,
            details@,
        ),
{
    lemma_fields_seen(step->Reply_0@);
}

/// A stream that breaks off is a failure, and nothing of what had come is in the
/// reply.
pub proof fn law_broken_streams_are_failures(
    reply: StreamAccumulator,
    details: String,
    step: StreamStep,
)
    requires
        call_ensures(read_stream, (reply, StreamEvent::Broken(details)), step),
    ensures
        step matches StreamStep::Reply(fields) && tells_failure(
            fields@,
            "Stream interrupted"@,
            details@,
        ),
{
    lemma_fields_seen(step->Reply_0@);
}

/// The reply to a plain request is one field: what the first choice says,
/// whatever the others do, or the error.
pub proof fn law_plain_replies_take_the_first_choice(
    answer: Result<Vec<Option<String>>, String>,
    fields: Vec<Field>,
)
    requires
        call_ensures(unary_outcome, (answer,), fields),
    ensures
        fields@.len() == 1,
        fields@[0].value is Text,
        answer matches Err(details) ==> fields@[0].key@ == "error"@ && fields@[0].value->Text_0@
            == details@,
        answer matches Ok(contents) ==> {
            &&& fields@[0].key@ == "reply"@
            &&& contents@.len() > 0 && contents@[0] is Some ==> fields@[0].value->Text_0@
                == contents@[0]->0@
            &&& contents@.len() == 0 || contents@[0] is None ==> fields@[0].value->Text_0@.len()
                == 0
        },
{
    lemma_fields_seen(fields@);
    assert(fields@[0]@ == plain_reply(answer_view(answer))[0]);
    if let Ok(contents) = answer {
        if contents@.len() > 0 {
            assert(contents_view(contents@)[0] == text::owned_view(contents@[0]));
        }
    }
}

} // verus!
