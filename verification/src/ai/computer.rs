use vstd::prelude::*;
use crate::text::{chars_of, str_eq, string_from_range};

verus! {

/// Exchanges sent to the API per call. The full history is kept separately.
pub const MAX_CONTEXT_EXCHANGES: usize = 6;

/// One message of a conversation: `role` is "user" or "assistant".
#[derive(Debug, Clone)]
pub struct Message {
    pub role: String,
    pub content: String,
}

/// `m` is a message from the player with the given text.
pub open spec fn is_user_message(m: Message, content: Seq<char>) -> bool {
    m.role@ == "user"@ && m.content@ == content
}

/// `m` is a reply from the model with the given text.
pub open spec fn is_assistant_message(m: Message, content: Seq<char>) -> bool {
    m.role@ == "assistant"@ && m.content@ == content
}

/// `a` is the player's message and `b` the model's reply to it.
pub open spec fn is_exchange(a: Message, b: Message) -> bool {
    a.role@ == "user"@ && b.role@ == "assistant"@
}

/// The number of complete exchanges in `s`: the places where a message
/// from the player is directly followed by a reply from the model.
pub open spec fn exchanges_in(s: Seq<Message>) -> nat
    decreases s.len(),
{
    if s.len() < 2 {
        0
    } else {
        exchanges_in(s.drop_last()) + if is_exchange(s[s.len() - 2], s[s.len() - 1]) {
            1nat
        } else {
            0nat
        }
    }
}

/// The last `n` entries of `s` (all of `s` when it is shorter).
pub open spec fn last_n<T>(s: Seq<T>, n: int) -> Seq<T> {
    if s.len() > n {
        s.skip(s.len() - n)
    } else {
        s
    }
}

impl Message {
    /// A message from the player.
    pub fn user(content: &str) -> (m: Message)
        ensures
            is_user_message(m, content@),
    {
        Message { role: String::from_str("user"), content: String::from_str(content) }
    }

    /// A reply from the model.
    pub fn assistant(content: String) -> (m: Message)
        ensures
            is_assistant_message(m, content@),
    {
        Message { role: String::from_str("assistant"), content }
    }

    /// A copy of this message.
    pub fn duplicate(&self) -> (m: Message)
        ensures
            m == *self,
    {
        Message { role: self.role.clone(), content: self.content.clone() }
    }
}

/// A copy of `v[lo..]`.
fn copy_from(v: &Vec<Message>, lo: usize) -> (r: Vec<Message>)
    requires
        lo <= v@.len(),
    ensures
        r@ == v@.skip(lo as int),
{
    let mut r: Vec<Message> = Vec::new();
    let mut i = lo;
    while i < v.len()
        invariant
            lo <= i <= v@.len(),
            r@ == v@.subrange(lo as int, i as int),
        decreases v@.len() - i,
    {
        r.push(v[i].duplicate());
        i = i + 1;
        assert(r@ =~= v@.subrange(lo as int, i as int));
    }
    assert(r@ =~= v@.skip(lo as int));
    r
}

/// The conversation state of a ship's AI: the complete exchange log, and
/// the sliding context window (the most recent part of the log) that is sent
/// with each request.
pub struct ShipComputer {
    full_log: Vec<Message>,
    /// Index in `full_log` where the context window starts.
    context_start: usize,
}

impl ShipComputer {
    /// The window always lies inside the log.
    #[verifier::type_invariant]
    pub closed spec fn wf(&self) -> bool {
        self.context_start <= self.full_log@.len()
    }

    /// Every message ever exchanged, oldest first.
    pub closed spec fn log(&self) -> Seq<Message> {
        self.full_log@
    }

    /// The messages that form the context window, oldest first.
    pub closed spec fn context(&self) -> Seq<Message> {
        self.full_log@.skip(self.context_start as int)
    }

    /// The context window is always the most recent part of the log (every
    /// computer is well formed: `use_type_invariant` gives `wf` of it).
    pub proof fn lemma_context_is_recent(&self)
        requires
            self.wf(),
        ensures
            self.context().len() <= self.log().len(),
            self.context() == self.log().skip(self.log().len() - self.context().len()),
    {
    }

    /// A computer with no history.
    pub fn new() -> (c: ShipComputer)
        ensures
            c.log() == Seq::<Message>::empty(),
            c.context() == Seq::<Message>::empty(),
    {
        ShipComputer { full_log: Vec::new(), context_start: 0 }
    }

    /// A computer that resumes from a stored log: the most recent
    /// `MAX_CONTEXT_EXCHANGES` exchanges of it form the context window.
    pub fn with_log(log: Vec<Message>) -> (c: ShipComputer)
        ensures
            c.log() == log@,
            c.context() == last_n(log@, 2 * MAX_CONTEXT_EXCHANGES),
    {
        let n = log.len();
        let start = if n > 2 * MAX_CONTEXT_EXCHANGES {
            n - 2 * MAX_CONTEXT_EXCHANGES
        } else {
            0
        };
        let c = ShipComputer { full_log: log, context_start: start };
        assert(c.full_log@.skip(0) =~= c.full_log@);
        c
    }

    /// All messages ever exchanged, oldest first.
    pub fn full_log(&self) -> (r: &[Message])
        ensures
            r@ == self.log(),
    {
        self.full_log.as_slice()
    }

    /// The last `n_exchanges` exchanges (2 * n_exchanges messages) of the log.
    pub fn recent_log(&self, n_exchanges: usize) -> (r: &[Message])
        requires
            n_exchanges <= usize::MAX / 2,
        ensures
            r@ == last_n(self.log(), 2 * n_exchanges),
    {
        let len = self.full_log.len();
        let want = n_exchanges * 2;
        let start = if len > want {
            len - want
        } else {
            0
        };
        let r = vstd::slice::slice_subrange(self.full_log.as_slice(), start, len);
        assert(self.full_log@.subrange(0, len as int) =~= self.full_log@);
        assert(self.full_log@.subrange(start as int, len as int) =~= self.full_log@.skip(
            start as int,
        ));
        r
    }

    /// Number of complete exchanges (user + assistant pairs) in the log.
    pub fn exchange_count(&self) -> (n: usize)
        ensures
            n == exchanges_in(self.log()),
    {
        let len = self.full_log.len();
        if len == 0 {
            assert(self.full_log@.take(0) =~= Seq::<Message>::empty());
            return 0;
        }
        let mut count: usize = 0;
        let mut i: usize = 1;
        assert(self.full_log@.take(1).len() == 1);
        while i < len
            invariant
                len == self.full_log@.len(),
                1 <= i <= len,
                count < i,
                count == exchanges_in(self.full_log@.take(i as int)),
            decreases len - i,
        {
            let ghost prefix = self.full_log@.take(i + 1);
            assert(prefix.drop_last() =~= self.full_log@.take(i as int));
            assert(prefix[i - 1] == self.full_log@[i - 1]);
            assert(prefix[i as int] == self.full_log@[i as int]);
            if str_eq(self.full_log[i - 1].role.as_str(), "user") && str_eq(
                self.full_log[i].role.as_str(),
                "assistant",
            ) {
                count = count + 1;
            }
            i = i + 1;
        }
        assert(self.full_log@.take(len as int) =~= self.full_log@);
        count
    }

    /// Records the player's message and returns the context window to send:
    /// the log gains the message, and the window keeps at most
    /// `MAX_CONTEXT_EXCHANGES` exchanges, ending with it.
    pub fn push_user_message(&mut self, text: &str) -> (sent: Vec<Message>)
        requires
            old(self).log().len() < usize::MAX,
        ensures
            user_message_pushed(*old(self), *final(self), text@),
            sent@ == final(self).context(),
    {
        proof {
            use_type_invariant(&*self);
        }
        let m = Message::user(text);
        let ghost old_context = self.context();
        let ghost old_log = self.full_log@;
        let start0 = self.context_start;
        self.context_start = 0;
        let mut log: Vec<Message> = Vec::new();
        std::mem::swap(&mut log, &mut self.full_log);
        log.push(m);
        let len = log.len();
        let start = if len - start0 > 2 * MAX_CONTEXT_EXCHANGES {
            len - 2 * MAX_CONTEXT_EXCHANGES
        } else {
            start0
        };
        std::mem::swap(&mut log, &mut self.full_log);
        self.context_start = start;
        assert(self.full_log@.drop_last() =~= old_log);
        assert(old_context.push(self.full_log@.last()) =~= self.full_log@.skip(start0 as int));
        assert(self.context() =~= last_n(
            old_context.push(self.full_log@.last()),
            2 * MAX_CONTEXT_EXCHANGES,
        ));
        copy_from(&self.full_log, self.context_start)
    }

    /// Records the model's reply after a successful request.
    pub fn record_reply(&mut self, text: String)
        ensures
            final(self).log().len() == old(self).log().len() + 1,
            final(self).log().drop_last() == old(self).log(),
            is_assistant_message(final(self).log().last(), text@),
            final(self).context() == old(self).context().push(final(self).log().last()),
    {
        proof {
            use_type_invariant(&*self);
        }
        let ghost old_log = self.full_log@;
        let start = self.context_start;
        self.context_start = 0;
        let mut log: Vec<Message> = Vec::new();
        std::mem::swap(&mut log, &mut self.full_log);
        log.push(Message::assistant(text));
        std::mem::swap(&mut log, &mut self.full_log);
        self.context_start = start;
        assert(self.full_log@.drop_last() =~= old_log);
        assert(self.context() =~= old(self).context().push(self.full_log@.last()));
    }

    /// Withdraws the player's last message after a failed request.
    pub fn retract_last_message(&mut self)
        ensures
            last_message_retracted(*old(self), *final(self)),
    {
        proof {
            use_type_invariant(&*self);
        }
        if self.full_log.len() > 0 {
            let start0 = self.context_start;
            self.context_start = 0;
            let mut log: Vec<Message> = Vec::new();
            std::mem::swap(&mut log, &mut self.full_log);
            log.pop();
            let start = if start0 > log.len() {
                log.len()
            } else {
                start0
            };
            std::mem::swap(&mut log, &mut self.full_log);
            self.context_start = start;
            assert(self.context() =~= if old(self).context().len() > 0 {
                old(self).context().drop_last()
            } else {
                Seq::<Message>::empty()
            });
            assert(self.log() == old(self).log().drop_last());
        } else {
            assert(self.context() =~= Seq::<Message>::empty());
        }
    }

    /// Forgets the whole conversation.
    pub fn clear_history(&mut self)
        ensures
            final(self).log() == Seq::<Message>::empty(),
            final(self).context() == Seq::<Message>::empty(),
    {
        self.context_start = 0;
        let mut log: Vec<Message> = Vec::new();
        std::mem::swap(&mut log, &mut self.full_log);
        assert(self.full_log@.skip(0) =~= Seq::<Message>::empty());
    }
}

/// `after` is `before` with the player's message `text` recorded: the log
/// gains it at the end, and the window keeps at most
/// `MAX_CONTEXT_EXCHANGES` exchanges, ending with it.
pub open spec fn user_message_pushed(before: ShipComputer, after: ShipComputer, text: Seq<char>) -> bool {
    &&& after.log().len() == before.log().len() + 1
    &&& after.log().drop_last() == before.log()
    &&& is_user_message(after.log().last(), text)
    &&& after.context() == last_n(
        before.context().push(after.log().last()),
        2 * MAX_CONTEXT_EXCHANGES,
    )
}

/// `after` is `before` with the last message of the log and of the window
/// withdrawn (nothing changes where they are empty).
pub open spec fn last_message_retracted(before: ShipComputer, after: ShipComputer) -> bool {
    &&& before.log().len() > 0 ==> after.log() == before.log().drop_last()
    &&& before.log().len() == 0 ==> after.log() == before.log()
    &&& before.context().len() > 0 ==> after.context() == before.context().drop_last()
    &&& before.context().len() == 0 ==> after.context() == Seq::<Message>::empty()
}

/// A request that fails leaves the full log as it was: withdrawing the
/// message that `push_user_message` recorded gives back the log from before
/// the request, and the window from before it as far as the window can
/// hold it with room for the next message (all of it while it held fewer
/// than `2 * MAX_CONTEXT_EXCHANGES` messages).
pub proof fn lemma_failed_request_keeps_log(
    before: ShipComputer,
    sent: ShipComputer,
    after: ShipComputer,
    text: Seq<char>,
)
    requires
        user_message_pushed(before, sent, text),
        last_message_retracted(sent, after),
    ensures
        after.log() == before.log(),
        after.context() == last_n(before.context(), 2 * MAX_CONTEXT_EXCHANGES - 1),
        before.context().len() < 2 * MAX_CONTEXT_EXCHANGES ==> after.context() == before.context(),
{
    let m = sent.log().last();
    let ctx = before.context();
    assert(ctx.push(m).drop_last() =~= ctx);
    if ctx.len() + 1 > 2 * MAX_CONTEXT_EXCHANGES {
        assert(last_n(ctx.push(m), 2 * MAX_CONTEXT_EXCHANGES).drop_last() =~= ctx.skip(
            ctx.len() - (2 * MAX_CONTEXT_EXCHANGES - 1),
        ));
    }
}

/// The window sent with a request never holds more than
/// `MAX_CONTEXT_EXCHANGES` exchanges, and ends with the new message.
pub proof fn lemma_window_bounded(context: Seq<Message>, sent: Message)
    ensures
        last_n(context.push(sent), 2 * MAX_CONTEXT_EXCHANGES).len() <= 2 * MAX_CONTEXT_EXCHANGES,
        last_n(context.push(sent), 2 * MAX_CONTEXT_EXCHANGES).last() == sent,
{
}

/// One block of content in a reply from the messages API.
#[derive(Debug, Clone)]
pub struct ContentBlock {
    pub block_type: String,
    pub text: Option<String>,
}

/// The reply text of a response: the text of its first block of type
/// "text"; an error when there is no such block or it holds no text.
pub open spec fn reply_text_of(blocks: Seq<ContentBlock>) -> Result<Seq<char>, Seq<char>>
    decreases blocks.len(),
{
    if blocks.len() == 0 {
        Err("No text content in response"@)
    } else if blocks[0].block_type@ == "text"@ {
        match blocks[0].text {
            Some(t) => Ok(t@),
            None => Err("No text content in response"@),
        }
    } else {
        reply_text_of(blocks.drop_first())
    }
}

/// Picks the reply text out of the content blocks of a response.
pub fn reply_text(blocks: &Vec<ContentBlock>) -> (r: Result<String, String>)
    ensures
        match (r, reply_text_of(blocks@)) {
            (Ok(a), Ok(b)) => a@ == b,
            (Err(a), Err(b)) => a@ == b,
            _ => false,
        },
{
    let mut i: usize = 0;
    assert(blocks@.skip(0) =~= blocks@);
    while i < blocks.len()
        invariant
            i <= blocks@.len(),
            reply_text_of(blocks@) == reply_text_of(blocks@.skip(i as int)),
        decreases blocks@.len() - i,
    {
        assert(blocks@.skip(i as int).drop_first() =~= blocks@.skip(i + 1));
        if str_eq(blocks[i].block_type.as_str(), "text") {
            return match &blocks[i].text {
                Some(t) => Ok(t.clone()),
                None => Err(String::from_str("No text content in response")),
            };
        }
        i = i + 1;
    }
    Err(String::from_str("No text content in response"))
}

/// What one line of a streamed (server-sent events) response carries.
#[derive(Debug)]
pub enum StreamLine {
    /// Not a data line: skip it.
    Ignore,
    /// The end-of-stream marker.
    Done,
    /// The payload of a data line.
    Data(String),
}

/// The `data: ` prefix of an event-stream data line.
pub open spec fn data_prefix() -> Seq<char> {
    "data: "@
}

/// The meaning of a line of the event stream.
pub open spec fn stream_line_of(line: Seq<char>) -> Option<Option<Seq<char>>> {
    if line.len() >= data_prefix().len() && line.take(data_prefix().len() as int)
        == data_prefix() {
        let data = line.skip(data_prefix().len() as int);
        if data == "[DONE]"@ {
            Some(None)
        } else {
            Some(Some(data))
        }
    } else {
        None
    }
}

/// Classifies one line of a streamed response: lines without the `data: `
/// prefix are ignored, `data: [DONE]` ends the stream, and any other data
/// line carries the text after the prefix.
pub fn classify_stream_line(line: &str) -> (r: StreamLine)
    ensures
        match stream_line_of(line@) {
            None => r == StreamLine::Ignore,
            Some(None) => r == StreamLine::Done,
            Some(Some(d)) => r matches StreamLine::Data(s) && s@ == d,
        },
{
    let v = chars_of(line);
    let p = chars_of("data: ");
    proof {
        reveal_strlit("data: ");
    }
    if v.len() < p.len() {
        return StreamLine::Ignore;
    }
    let mut i: usize = 0;
    while i < p.len()
        invariant
            v@ == line@,
            p@ == data_prefix(),
            p@.len() <= v@.len(),
            i <= p@.len(),
            forall|j: int| 0 <= j < i ==> v@[j] == p@[j],
        decreases p@.len() - i,
    {
        if v[i] != p[i] {
            assert(v@.take(p@.len() as int)[i as int] != p@[i as int]);
            return StreamLine::Ignore;
        }
        i = i + 1;
    }
    assert(v@.take(p@.len() as int) =~= p@);
    let data = string_from_range(&v, p.len(), v.len());
    assert(v@.subrange(p@.len() as int, v@.len() as int) =~= v@.skip(p@.len() as int));
    if str_eq(data.as_str(), "[DONE]") {
        StreamLine::Done
    } else {
        StreamLine::Data(data)
    }
}

/// The characters of an optional string.
pub open spec fn opt_chars(o: Option<String>) -> Option<Seq<char>> {
    match o {
        Some(s) => Some(s@),
        None => None,
    }
}

/// The string fields of a stream event, as characters: the event's `type`,
/// its `delta.type` and its `delta.text`.
pub open spec fn event_chars(e: Option<(Option<String>, Option<String>, Option<String>)>) -> Option<
    (Option<Seq<char>>, Option<Seq<char>>, Option<Seq<char>>),
> {
    match e {
        Some((t, d, x)) => Some((opt_chars(t), opt_chars(d), opt_chars(x))),
        None => None,
    }
}

/// What `serde_json` reads from the payload of a stream line: `None` when it
/// is not JSON; else the string values at `type`, `delta.type` and
/// `delta.text`, each `None` where that path holds no string.
pub uninterp spec fn stream_event_of(data: Seq<char>) -> Option<
    (Option<Seq<char>>, Option<Seq<char>>, Option<Seq<char>>),
>;

/// Parses a stream payload with `serde_json::from_str` into a
/// `serde_json::Value` and reads three string fields of it with
/// `Value::as_str`. The contract claims only that the result is a function
/// of the payload, `stream_event_of`; JSON syntax is not restated.
#[verifier::external_body]
fn parse_stream_event(data: &str) -> (r: Option<(Option<String>, Option<String>, Option<String>)>)
    ensures
        event_chars(r) == stream_event_of(data@),
{
    match serde_json::from_str::<serde_json::Value>(data) {
        Ok(v) => Some((
            v["type"].as_str().map(String::from),
            v["delta"]["type"].as_str().map(String::from),
            v["delta"]["text"].as_str().map(String::from),
        )),
        Err(_) => None,
    }
}

/// The text that a stream event adds to the reply: the delta text of a
/// `content_block_delta` event whose delta is a `text_delta`; nothing for
/// any other event, or for a payload that is not JSON.
pub open spec fn delta_text_of(
    e: Option<(Option<Seq<char>>, Option<Seq<char>>, Option<Seq<char>>)>,
) -> Option<Seq<char>> {
    match e {
        Some((Some(t), Some(d), Some(x))) => if t == "content_block_delta"@ && d == "text_delta"@ {
            Some(x)
        } else {
            None
        },
        _ => None,
    }
}

/// The reply text carried by a parsed stream event, if any.
pub fn stream_delta(e: Option<(Option<String>, Option<String>, Option<String>)>) -> (r: Option<
    String,
>)
    ensures
        opt_chars(r) == delta_text_of(event_chars(e)),
{
    match e {
        Some((Some(t), Some(d), Some(x))) => {
            if str_eq(t.as_str(), "content_block_delta") && str_eq(d.as_str(), "text_delta") {
                Some(x)
            } else {
                None
            }
        },
        _ => None,
    }
}

/// The reply text carried by the payload of one data line of a streamed
/// response, if any.
pub fn stream_chunk(data: &str) -> (r: Option<String>)
    ensures
        opt_chars(r) == delta_text_of(stream_event_of(data@)),
{
    stream_delta(parse_stream_event(data))
}

/// What `serde_json` reads as the error message of an API error body: the
/// string at `error.message`, `None` when the body is not JSON or holds no
/// string there.
pub uninterp spec fn error_message_of(body: Seq<char>) -> Option<Seq<char>>;

/// Parses an error body with `serde_json::from_str` into a
/// `serde_json::Value` and reads `error.message` with `Value::as_str`. The
/// contract claims only that the result is a function of the body,
/// `error_message_of`.
#[verifier::external_body]
fn parse_error_body(body: &str) -> (r: Option<String>)
    ensures
        opt_chars(r) == error_message_of(body@),
{
    match serde_json::from_str::<serde_json::Value>(body) {
        Ok(v) => v["error"]["message"].as_str().map(String::from),
        Err(_) => None,
    }
}

/// The error reported for a failed request: the API's own message, or else
/// `HTTP ` followed by the status.
pub open spec fn api_error_text(message: Option<Seq<char>>, status: Seq<char>) -> Seq<char> {
    match message {
        Some(m) => m,
        None => "HTTP "@ + status,
    }
}

/// The error reported for a failed request, from the message found in the
/// body (if any) and the text of the HTTP status.
pub fn error_text(message: Option<String>, status: &str) -> (r: String)
    ensures
        r@ == api_error_text(opt_chars(message), status@),
{
    match message {
        Some(m) => m,
        None => {
            let mut r = String::from_str("HTTP ");
            r.append(status);
            r
        },
    }
}

/// The error reported for a failed request, from its response body and
/// the text of its HTTP status.
pub fn error_message(body: &str, status: &str) -> (r: String)
    ensures
        r@ == api_error_text(error_message_of(body@), status@),
{
    error_text(parse_error_body(body), status)
}

} // verus!
