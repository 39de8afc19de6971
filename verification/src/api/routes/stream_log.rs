//! The accounting of a streamed response: what each chunk adds to it, and the
//! one record that is made of it.

use crate::json::{json_of_text, Json, JsonModel};
use crate::text::{
    after_prefix, has_prefix, lines, lines_of, opt_text, same, text_of_bytes, texts, trim, trimmed,
    utf8_text, white,
};
use vstd::prelude::*;

verus! {

/// Usage as the provider reported it inside a streamed chunk. `cached_tokens` is
/// the part of the prompt that came from the provider's prompt cache.
#[derive(Debug, Clone, Copy, PartialEq, Eq, Structural)]
pub struct ReportedUsage {
    pub prompt_tokens: u32,
    pub completion_tokens: u32,
    pub cached_tokens: u32,
}

impl Default for ReportedUsage {
    fn default() -> (r: ReportedUsage)
        ensures
            r == (ReportedUsage { prompt_tokens: 0, completion_tokens: 0, cached_tokens: 0 }),
    {
        ReportedUsage { prompt_tokens: 0, completion_tokens: 0, cached_tokens: 0 }
    }
}

/// What one chunk contributed to a stream's accounting.
#[derive(Debug, PartialEq, Eq)]
pub struct SseChunkInfo {
    /// Delta text from every `data:` line in the chunk, one after the other.
    pub text: String,
    /// The last usage in the chunk, if any line carried one.
    pub usage: Option<ReportedUsage>,
    /// The last finish reason in the chunk.
    pub finish_reason: Option<String>,
    /// Whether the terminal `[DONE]` marker was in this chunk.
    pub done: bool,
}

pub struct SseModel {
    pub text: Seq<char>,
    pub usage: Option<ReportedUsage>,
    pub finish_reason: Option<Seq<char>>,
    pub done: bool,
}

impl View for SseChunkInfo {
    type V = SseModel;

    open spec fn view(&self) -> SseModel {
        SseModel {
            text: self.text@,
            usage: self.usage,
            finish_reason: opt_text(self.finish_reason),
            done: self.done,
        }
    }
}

pub open spec fn nothing_yet() -> SseModel {
    SseModel { text: Seq::empty(), usage: None, finish_reason: None, done: false }
}

impl Default for SseChunkInfo {
    fn default() -> (r: SseChunkInfo)
        ensures
            r@ == nothing_yet(),
    {
        SseChunkInfo { text: String::new(), usage: None, finish_reason: None, done: false }
    }
}

/// The low 32 bits of a count.
pub open spec fn low32(n: u64) -> u32 {
    (n % 0x1_0000_0000) as u32
}

pub fn to_low32(n: u64) -> (r: u32)
    ensures
        r == low32(n),
{
    (n % 0x1_0000_0000) as u32
}

/// The usage that a document reports: it must give both counts. A `null` is no
/// usage.
pub open spec fn usage_in(json: JsonModel) -> Option<ReportedUsage> {
    let u = json.at("usage"@);
    match (u.at("prompt_tokens"@).unsigned(), u.at("completion_tokens"@).unsigned()) {
        (Some(p), Some(c)) => Some(
            ReportedUsage {
                prompt_tokens: low32(p),
                completion_tokens: low32(c),
                cached_tokens: match u.at("prompt_tokens_details"@).at("cached_tokens"@).unsigned() {
                    Some(n) => low32(n),
                    None => 0,
                },
            },
        ),
        _ => None,
    }
}

/// What is known after one more document of the stream.
pub open spec fn after_json(info: SseModel, json: JsonModel) -> SseModel {
    let choice = json.at("choices"@).item(0);
    SseModel {
        text: match choice.at("delta"@).at("content"@).text() {
            Some(t) => info.text + t,
            None => info.text,
        },
        finish_reason: match choice.at("finish_reason"@).text() {
            Some(r) => Some(r),
            None => info.finish_reason,
        },
        usage: match usage_in(json) {
            Some(u) => Some(u),
            None => info.usage,
        },
        done: info.done,
    }
}

/// What is known after one more line: a `data:` line with the terminal marker or
/// a document counts, anything else does not.
pub open spec fn after_line(info: SseModel, line: Seq<char>) -> SseModel {
    if !has_prefix(line, "data: "@) {
        info
    } else {
        let data = line.skip("data: "@.len() as int);
        if trimmed(data) == "[DONE]"@ {
            SseModel { done: true, ..info }
        } else {
            match json_of_text(data) {
                Some(json) => after_json(info, json),
                None => info,
            }
        }
    }
}

pub open spec fn after_lines(lines: Seq<Seq<char>>) -> SseModel
    decreases lines.len(),
{
    if lines.len() == 0 {
        nothing_yet()
    } else {
        after_line(after_lines(lines.drop_last()), lines.last())
    }
}

/// What a chunk says; nothing where it is not text.
pub open spec fn chunk_info(chunk: Seq<u8>) -> SseModel {
    match text_of_bytes(chunk) {
        Some(text) => after_lines(lines_of(text)),
        None => nothing_yet(),
    }
}

fn member<'a>(json: Option<&'a Json>, key: &str, Ghost(m): Ghost<JsonModel>) -> (r: Option<&'a Json>)
    requires
        match json {
            Some(j) => j.model() == m,
            None => m == JsonModel::Null,
        },
    ensures
        match r {
            Some(j) => j.model() == m.at(key@),
            None => m.at(key@) == JsonModel::Null,
        },
{
    match json {
        Some(j) => j.get(key),
        None => None,
    }
}

fn count(json: Option<&Json>, Ghost(m): Ghost<JsonModel>) -> (r: Option<u64>)
    requires
        match json {
            Some(j) => j.model() == m,
            None => m == JsonModel::Null,
        },
    ensures
        r == m.unsigned(),
{
    match json {
        Some(j) => j.as_u64(),
        None => None,
    }
}

/// The usage that a document reports.
pub fn reported_usage(json: &Json) -> (r: Option<ReportedUsage>)
    ensures
        r == usage_in(json.model()),
{
    let ghost u = json.model().at("usage"@);
    let usage = json.get("usage");
    let prompt = count(member(usage, "prompt_tokens", Ghost(u)), Ghost(u.at("prompt_tokens"@)));
    let completion = count(
        member(usage, "completion_tokens", Ghost(u)),
        Ghost(u.at("completion_tokens"@)),
    );
    let ghost d = u.at("prompt_tokens_details"@);
    let details = member(usage, "prompt_tokens_details", Ghost(u));
    let cached = count(member(details, "cached_tokens", Ghost(d)), Ghost(d.at("cached_tokens"@)));
    match (prompt, completion) {
        (Some(p), Some(c)) => Some(
            ReportedUsage {
                prompt_tokens: to_low32(p),
                completion_tokens: to_low32(c),
                cached_tokens: match cached {
                    Some(n) => to_low32(n),
                    None => 0,
                },
            },
        ),
        _ => None,
    }
}

impl SseChunkInfo {
    /// Adds one document of the stream.
    pub fn take(self, json: &Json) -> (r: SseChunkInfo)
        ensures
            r@ == after_json(self@, json.model()),
    {
        let mut out = self;
        let ghost m = json.model();
        let choices = json.get("choices");
        let choice = match choices {
            Some(list) => list.get_item(0),
            None => None,
        };
        let ghost c = m.at("choices"@).item(0);
        let delta = member(choice, "delta", Ghost(c));
        let content = member(delta, "content", Ghost(c.at("delta"@)));
        if let Some(v) = content {
            if let Some(t) = v.as_str() {
                out.text.append(t);
            }
        }
        if let Some(v) = member(choice, "finish_reason", Ghost(c)) {
            if let Some(reason) = v.as_str() {
                out.finish_reason = Some(reason.to_owned());
            }
        }
        if let Some(u) = reported_usage(json) {
            out.usage = Some(u);
        }
        out
    }
}

/// Reads everything the ledger cares about out of one chunk. A chunk may carry
/// several `data:` lines, so every line is examined.
pub fn parse_sse_chunk(chunk: &[u8]) -> (r: SseChunkInfo)
    ensures
        r@ == chunk_info(chunk@),
{
    let mut info = SseChunkInfo::default();
    let text = match utf8_text(chunk) {
        Some(text) => text,
        None => {
            return info;
        },
    };
    let all = lines(text.as_str());
    let ghost ls = lines_of(text@);
    let mut i: usize = 0;
    while i < all.len()
        invariant
            i <= all@.len(),
            texts(all@) == ls,
            info@ == after_lines(ls.take(i as int)),
        decreases all@.len() - i,
    {
        assert(ls.take(i + 1).drop_last() =~= ls.take(i as int));
        assert(ls.take(i + 1).last() == all@[i as int]@);
        if let Some(data) = after_prefix(all[i].as_str(), "data: ") {
            if same(trim(data), "[DONE]") {
                info.done = true;
            } else if let Some(json) = Json::parse(data) {
                info = info.take(&json);
            }
        }
        i += 1;
    }
    assert(ls.take(i as int) =~= ls);
    info
}

// ---------------------------------------------------------------------------
// One stream
// ---------------------------------------------------------------------------

/// Running totals for one stream, folded from each chunk as it passes.
#[derive(Debug, PartialEq, Eq)]
pub struct StreamAcc {
    pub content: String,
    pub usage: Option<ReportedUsage>,
    pub finish_reason: Option<String>,
    /// Elapsed time at the first chunk: the stream's time to first token.
    pub ttft_ms: Option<i64>,
    /// Set once the record of this stream has been made.
    pub recorded: bool,
}

pub struct AccModel {
    pub content: Seq<char>,
    pub usage: Option<ReportedUsage>,
    pub finish_reason: Option<Seq<char>>,
    pub ttft_ms: Option<i64>,
    pub recorded: bool,
}

impl View for StreamAcc {
    type V = AccModel;

    open spec fn view(&self) -> AccModel {
        AccModel {
            content: self.content@,
            usage: self.usage,
            finish_reason: opt_text(self.finish_reason),
            ttft_ms: self.ttft_ms,
            recorded: self.recorded,
        }
    }
}

/// What happens to a stream: a chunk passes, the provider breaks off with an
/// error, or the body is dropped.
pub enum StreamEvent {
    Chunk { bytes: Seq<u8>, elapsed_ms: i64 },
    Broken { message: Seq<char> },
    Dropped,
}

/// The record to be made of a stream. `failure` is the provider's error, which
/// is logged as a failure besides.
#[derive(Debug, PartialEq, Eq)]
pub struct StreamRecord {
    pub finish_reason: String,
    pub failure: Option<String>,
}

pub struct RecordModel {
    pub finish_reason: Seq<char>,
    pub failure: Option<Seq<char>>,
}

pub open spec fn record_model(r: Option<StreamRecord>) -> Option<RecordModel> {
    match r {
        Some(r) => Some(
            RecordModel { finish_reason: r.finish_reason@, failure: opt_text(r.failure) },
        ),
        None => None,
    }
}

pub open spec fn fresh_stream() -> AccModel {
    AccModel {
        content: Seq::empty(),
        usage: None,
        finish_reason: None,
        ttft_ms: None,
        recorded: false,
    }
}

/// The totals after a chunk.
pub open spec fn with_chunk(acc: AccModel, bytes: Seq<u8>, elapsed_ms: i64) -> AccModel {
    let info = chunk_info(bytes);
    AccModel {
        content: acc.content + info.text,
        usage: if info.usage is Some {
            info.usage
        } else {
            acc.usage
        },
        finish_reason: if info.finish_reason is Some {
            info.finish_reason
        } else {
            acc.finish_reason
        },
        ttft_ms: if acc.ttft_ms is None {
            Some(elapsed_ms)
        } else {
            acc.ttft_ms
        },
        recorded: acc.recorded || info.done,
    }
}

/// The totals after an event.
pub open spec fn stream_next(acc: AccModel, event: StreamEvent) -> AccModel {
    match event {
        StreamEvent::Chunk { bytes, elapsed_ms } => with_chunk(acc, bytes, elapsed_ms),
        StreamEvent::Broken { message } => AccModel { recorded: true, ..acc },
        StreamEvent::Dropped => if acc.recorded {
            acc
        } else {
            AccModel { finish_reason: Some("aborted"@), recorded: true, ..acc }
        },
    }
}

/// The record that an event calls for: none where one was made before.
pub open spec fn stream_record(acc: AccModel, event: StreamEvent) -> Option<RecordModel> {
    if acc.recorded {
        None
    } else {
        match event {
            StreamEvent::Chunk { bytes, elapsed_ms } => if chunk_info(bytes).done {
                Some(
                    RecordModel {
                        finish_reason: match with_chunk(acc, bytes, elapsed_ms).finish_reason {
                            Some(reason) => reason,
                            None => "stop"@,
                        },
                        failure: None,
                    },
                )
            } else {
                None
            },
            StreamEvent::Broken { message } => Some(
                RecordModel { finish_reason: "error"@, failure: Some(message) },
            ),
            StreamEvent::Dropped => Some(RecordModel { finish_reason: "aborted"@, failure: None }),
        }
    }
}

impl Default for StreamAcc {
    fn default() -> (r: StreamAcc)
        ensures
            r@ == fresh_stream(),
    {
        StreamAcc {
            content: String::new(),
            usage: None,
            finish_reason: None,
            ttft_ms: None,
            recorded: false,
        }
    }
}

impl StreamAcc {
    /// A chunk passes, `elapsed_ms` after the provider was called.
    pub fn observe(&mut self, chunk: &[u8], elapsed_ms: i64) -> (r: Option<StreamRecord>)
        ensures
            final(self)@ == stream_next(
                old(self)@,
                StreamEvent::Chunk { bytes: chunk@, elapsed_ms },
            ),
            final(self).content@ == old(self).content@ + chunk_info(chunk@).text,
            record_model(r) == stream_record(
                old(self)@,
                StreamEvent::Chunk { bytes: chunk@, elapsed_ms },
            ),
    {
        if self.ttft_ms.is_none() {
            self.ttft_ms = Some(elapsed_ms);
        }
        let info = parse_sse_chunk(chunk);
        self.content.append(info.text.as_str());
        if info.usage.is_some() {
            self.usage = info.usage;
        }
        if info.finish_reason.is_some() {
            self.finish_reason = info.finish_reason;
        }
        if !info.done {
            return None;
        }
        if self.recorded {
            return None;
        }
        self.recorded = true;
        let finish_reason = match &self.finish_reason {
            Some(reason) => reason.clone(),
            None => "stop".to_owned(),
        };
        Some(StreamRecord { finish_reason, failure: None })
    }

    /// The provider broke off.
    pub fn broken(&mut self, message: &str) -> (r: Option<StreamRecord>)
        ensures
            final(self)@ == stream_next(old(self)@, StreamEvent::Broken { message: message@ }),
            record_model(r) == stream_record(old(self)@, StreamEvent::Broken { message: message@ }),
    {
        if self.recorded {
            return None;
        }
        self.recorded = true;
        Some(StreamRecord { finish_reason: "error".to_owned(), failure: Some(message.to_owned()) })
    }

    /// The body was dropped: the client went away, or the provider closed the
    /// connection without a terminal marker.
    pub fn dropped(&mut self) -> (r: Option<StreamRecord>)
        ensures
            final(self)@ == stream_next(old(self)@, StreamEvent::Dropped),
            record_model(r) == stream_record(old(self)@, StreamEvent::Dropped),
    {
        if self.recorded {
            return None;
        }
        self.finish_reason = Some("aborted".to_owned());
        self.recorded = true;
        Some(StreamRecord { finish_reason: "aborted".to_owned(), failure: None })
    }
}

// ---------------------------------------------------------------------------
// Settling
// ---------------------------------------------------------------------------

/// The token counts that a stream is charged for.
#[derive(Debug, Clone, Copy, PartialEq, Eq, Structural)]
pub struct StreamUsage {
    pub prompt_tokens: u32,
    pub completion_tokens: u32,
    pub cache_read_tokens: u32,
    /// The provider reported no usage, and the counts are a quarter of the
    /// characters.
    pub tokens_estimated: bool,
}

/// A quarter of the characters of a text.
pub open spec fn estimated_tokens(chars: nat) -> u32 {
    low32((chars / 4) as u64)
}

/// What the provider reported, or else the estimate, marked as such.
pub open spec fn settled_usage(acc: AccModel, messages_json: Seq<char>) -> StreamUsage {
    match acc.usage {
        Some(u) => StreamUsage {
            prompt_tokens: u.prompt_tokens,
            completion_tokens: u.completion_tokens,
            cache_read_tokens: u.cached_tokens,
            tokens_estimated: false,
        },
        None => StreamUsage {
            prompt_tokens: estimated_tokens(messages_json.len()),
            completion_tokens: estimated_tokens(acc.content.len()),
            cache_read_tokens: 0,
            tokens_estimated: true,
        },
    }
}

/// Settles what a stream is charged for.
pub fn settle(acc: &StreamAcc, messages_json: &str) -> (r: StreamUsage)
    ensures
        r == settled_usage(acc@, messages_json@),
{
    match acc.usage {
        Some(u) => StreamUsage {
            prompt_tokens: u.prompt_tokens,
            completion_tokens: u.completion_tokens,
            cache_read_tokens: u.cached_tokens,
            tokens_estimated: false,
        },
        None => StreamUsage {
            prompt_tokens: to_low32((messages_json.unicode_len() / 4) as u64),
            completion_tokens: to_low32((acc.content.as_str().unicode_len() / 4) as u64),
            cache_read_tokens: 0,
            tokens_estimated: true,
        },
    }
}

/// The part of a prompt that did not come from the provider's prompt cache: a
/// reported prompt count holds the cached tokens too.
pub fn uncached_prompt(u: &StreamUsage) -> (r: u32)
    ensures
        r == (if u.prompt_tokens >= u.cache_read_tokens {
            u.prompt_tokens - u.cache_read_tokens
        } else {
            0
        }),
{
    if u.prompt_tokens >= u.cache_read_tokens {
        u.prompt_tokens - u.cache_read_tokens
    } else {
        0
    }
}

// ---------------------------------------------------------------------------
// Laws
// ---------------------------------------------------------------------------

/// The totals after a run of events.
pub open spec fn after_events(events: Seq<StreamEvent>) -> AccModel
    decreases events.len(),
{
    if events.len() == 0 {
        fresh_stream()
    } else {
        stream_next(after_events(events.drop_last()), events.last())
    }
}

/// The records that a run of events calls for.
pub open spec fn records_of(events: Seq<StreamEvent>) -> Seq<RecordModel>
    decreases events.len(),
{
    if events.len() == 0 {
        Seq::empty()
    } else {
        let rest = records_of(events.drop_last());
        match stream_record(after_events(events.drop_last()), events.last()) {
            Some(r) => rest.push(r),
            None => rest,
        }
    }
}

/// A stream is recorded at most once, whatever happens to it, and exactly once
/// as soon as it has ended: its terminal marker passed, it broke off, or its
/// body was dropped.
pub proof fn streams_are_recorded_once(events: Seq<StreamEvent>)
    ensures
        records_of(events).len() == (if after_events(events).recorded {
            1int
        } else {
            0int
        }),
        events.len() > 0 && !(events.last() is Chunk) ==> after_events(events).recorded,
        events.len() > 0 && (events.last() matches StreamEvent::Chunk { bytes, .. } && chunk_info(
            bytes,
        ).done) ==> after_events(events).recorded,
    decreases events.len(),
{
    if events.len() > 0 {
        streams_are_recorded_once(events.drop_last());
    }
}

/// What was recorded stays recorded.
pub proof fn recording_is_final(acc: AccModel, event: StreamEvent)
    requires
        acc.recorded,
    ensures
        stream_next(acc, event).recorded,
        stream_record(acc, event) is None,
{
}

/// Where the provider reported usage, that is what is charged; an estimate is
/// always marked.
pub proof fn reported_usage_wins(acc: AccModel, messages_json: Seq<char>)
    ensures
        acc.usage matches Some(u) ==> {
            &&& settled_usage(acc, messages_json).prompt_tokens == u.prompt_tokens
            &&& settled_usage(acc, messages_json).completion_tokens == u.completion_tokens
            &&& !settled_usage(acc, messages_json).tokens_estimated
        },
        acc.usage is None ==> settled_usage(acc, messages_json).tokens_estimated,
{
}

/// The text of a stream is kept in the order in which it came: what was there before
/// an event stands first after it, a chunk adds its own text behind that, and nothing
/// else adds any.
pub proof fn streamed_text_is_kept_in_order(events: Seq<StreamEvent>, event: StreamEvent)
    ensures
        after_events(Seq::empty()).content == Seq::<char>::empty(),
        ({
            let before = after_events(events).content;
            let after = after_events(events.push(event)).content;
            &&& before.len() <= after.len()
            &&& after.take(before.len() as int) == before
            &&& after.skip(before.len() as int) == match event {
                StreamEvent::Chunk { bytes, .. } => chunk_info(bytes).text,
                _ => Seq::empty(),
            }
        }),
{
    let before = after_events(events).content;
    let after = after_events(events.push(event)).content;
    assert(events.push(event).drop_last() =~= events);
    assert(after.take(before.len() as int) =~= before);
    assert(after.skip(before.len() as int) =~= match event {
        StreamEvent::Chunk { bytes, .. } => chunk_info(bytes).text,
        _ => Seq::empty(),
    });
}

/// A chunk is read line by line: a line of data adds its text behind that of the lines
/// before it, and what it says of usage or of the end replaces what they said.
pub proof fn chunks_are_read_line_by_line(
    lines: Seq<Seq<char>>,
    data: Seq<char>,
    json: JsonModel,
)
    requires
        json_of_text(data) == Some(json),
        trimmed(data) != "[DONE]"@,
    ensures
        ({
            let before = after_lines(lines);
            let after = after_lines(lines.push("data: "@ + data));
            let choice = json.at("choices"@).item(0);
            &&& after.text == before.text + match choice.at("delta"@).at("content"@) {
                JsonModel::Str(t) => t,
                _ => Seq::empty(),
            }
            &&& after.finish_reason == match choice.at("finish_reason"@) {
                JsonModel::Str(reason) => Some(reason),
                _ => before.finish_reason,
            }
            &&& after.done == before.done
            &&& usage_in(json) is None ==> after.usage == before.usage
            &&& usage_in(json) is Some ==> after.usage == usage_in(json)
        }),
        after_lines(lines.push("data: [DONE]"@)).done,
        after_lines(lines.push("data: [DONE]"@)).text == after_lines(lines).text,
        !has_prefix(data, "data: "@) ==> after_lines(lines.push(data)) == after_lines(lines),
{
    reveal_strlit("data: ");
    reveal_strlit("data: [DONE]");
    reveal_strlit("[DONE]");
    let line = "data: "@ + data;
    assert(lines.push(line).drop_last() =~= lines);
    assert(lines.push(data).drop_last() =~= lines);
    assert(lines.push("data: [DONE]"@).drop_last() =~= lines);
    assert(line.skip(6) =~= data);
    assert(line.take(6) =~= "data: "@);
    let end = "data: [DONE]"@;
    assert(end.take(6) =~= "data: "@);
    assert(end.skip(6) =~= "[DONE]"@);
    assert(!white('[') && !white(']'));
    assert(after_lines(lines).text + Seq::<char>::empty() =~= after_lines(lines).text);
}

/// Usage is read where prompt and completion are both counted, each under its own
/// name, with what came from the provider's cache.
pub proof fn usage_is_read_by_name(json: JsonModel, p: u32, c: u32)
    requires
        json.at("usage"@).at("prompt_tokens"@) == JsonModel::Int(p as int),
        json.at("usage"@).at("completion_tokens"@) == JsonModel::Int(c as int),
    ensures
        usage_in(json) matches Some(u) && u.prompt_tokens == p && u.completion_tokens == c,
        json.at("usage"@).at("prompt_tokens_details"@).at("cached_tokens"@)
            matches JsonModel::Int(n) ==> (0 <= n <= u32::MAX ==> usage_in(json)->0.cached_tokens
            == n),
        !(json.at("usage"@).at("prompt_tokens_details"@).at("cached_tokens"@) is Int) ==> usage_in(
            json,
        )->0.cached_tokens == 0,
{
}

/// The first chunk gives the time to the first token, whatever comes after it; of
/// usage and of the reason for the end, the last that was said stands.
pub proof fn first_token_and_last_word_count(events: Seq<StreamEvent>, bytes: Seq<u8>, ms: i64)
    ensures
        ({
            let before = after_events(events);
            let after = after_events(events.push(StreamEvent::Chunk { bytes, elapsed_ms: ms }));
            &&& before.ttft_ms is None ==> after.ttft_ms == Some(ms)
            &&& before.ttft_ms is Some ==> after.ttft_ms == before.ttft_ms
            &&& chunk_info(bytes).usage is Some ==> after.usage == chunk_info(bytes).usage
            &&& chunk_info(bytes).usage is None ==> after.usage == before.usage
            &&& chunk_info(bytes).finish_reason is Some ==> after.finish_reason == chunk_info(
                bytes,
            ).finish_reason
            &&& chunk_info(bytes).finish_reason is None ==> after.finish_reason
                == before.finish_reason
            &&& after.recorded <==> before.recorded || chunk_info(bytes).done
        }),
{
    assert(events.push(StreamEvent::Chunk { bytes, elapsed_ms: ms }).drop_last() =~= events);
}

/// The record says how the stream ended: as the provider said, or as a stop where it
/// said nothing; as an error, with its account, where the stream broke; as aborted
/// where the caller went away. Only a break is a failure.
pub proof fn records_say_how_a_stream_ended(acc: AccModel, event: StreamEvent, r: RecordModel)
    requires
        stream_record(acc, event) == Some(r),
    ensures
        !acc.recorded,
        event matches StreamEvent::Broken { message } ==> r.finish_reason == "error"@ && r.failure
            == Some(message),
        event is Dropped ==> r.finish_reason == "aborted"@ && r.failure is None,
        event is Chunk ==> r.failure is None && r.finish_reason == match stream_next(
            acc,
            event,
        ).finish_reason {
            Some(reason) => reason,
            None => "stop"@,
        },
{
}

/// Without a report, tokens are a quarter of the characters: of what was sent for the
/// prompt, of what came back for the completion. A report also tells what came from the
/// provider's cache.
pub proof fn estimates_are_a_quarter_of_the_characters(acc: AccModel, messages: Seq<char>)
    requires
        messages.len() <= u32::MAX,
        acc.content.len() <= u32::MAX,
    ensures
        acc.usage is None ==> {
            let u = settled_usage(acc, messages);
            &&& 4 * u.prompt_tokens <= messages.len() < 4 * u.prompt_tokens + 4
            &&& 4 * u.completion_tokens <= acc.content.len() < 4 * u.completion_tokens + 4
            &&& u.cache_read_tokens == 0
        },
        acc.usage matches Some(u) ==> settled_usage(acc, messages).cache_read_tokens
            == u.cached_tokens,
{
}

/// What a chunk holds is shown part by part.
pub proof fn chunks_show_their_parts(c: SseChunkInfo)
    ensures
        c@.text == c.text@,
        c@.usage == c.usage,
        c@.finish_reason == opt_text(c.finish_reason),
        c@.done == c.done,
{
}

/// What was seen of a stream is shown part by part.
pub proof fn streams_show_their_parts(s: StreamAcc)
    ensures
        s@.content == s.content@,
        s@.usage == s.usage,
        s@.finish_reason == opt_text(s.finish_reason),
        s@.ttft_ms == s.ttft_ms,
        s@.recorded == s.recorded,
{
}

/// A stream starts with nothing seen, and a record says why it ended and how it failed.
pub proof fn streams_start_empty(r: StreamRecord)
    ensures
        fresh_stream().content.len() == 0 && fresh_stream().usage is None && fresh_stream().ttft_ms is None
            && fresh_stream().finish_reason is None && !fresh_stream().recorded,
        nothing_yet().text.len() == 0 && nothing_yet().usage is None && nothing_yet().finish_reason is None
            && !nothing_yet().done,
        record_model(Some(r)) matches Some(m) && m.finish_reason == r.finish_reason@ && m.failure == opt_text(
            r.failure,
        ),
        record_model(None) is None,
{
}

} // verus!
