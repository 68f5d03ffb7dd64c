//! A JSON-RPC session over the standard streams of a child process.
//!
//! Requests of several clients share one child. Each request goes out under
//! an id of the connection's own, and the response that carries this id goes
//! back to the request with the client's id restored. Whatever else the child
//! writes is dropped, so that it cannot shift the responses.

use std::collections::HashMap;

use vstd::prelude::*;
use vstd::utf8;

use crate::bridge::{BridgeError, BridgeFault};
use crate::json;
use crate::json::{Json, JsonValue};
use crate::names;
use crate::text;

verus! {

broadcast use vstd::std_specs::hash::group_hash_axioms;

/// The largest part of a line that is not JSON which is shown in a log, in
/// bytes.
pub const LOG_PREVIEW_BYTES: usize = 120;

/// The state of a session. `W` is what a request waits on for its response.
pub struct Connection<W> {
    next_request_id: u64,
    pending_requests: HashMap<u64, W>,
    dead: bool,
}

/// The state of a session as a mathematical value.
#[verifier::reject_recursive_types(W)]
pub struct Link<W> {
    /// The id of the next request.
    pub next: u64,
    /// What the requests without a response wait on.
    pub pending: Map<u64, W>,
    /// Whether the child can no longer answer.
    pub dead: bool,
}

impl<W> View for Connection<W> {
    type V = Link<W>;

    closed spec fn view(&self) -> Link<W> {
        Link {
            next: self.next_request_id,
            pending: self.pending_requests@,
            dead: self.dead,
        }
    }
}

// ---------------------------------------------------------------------------
// Requests
// ---------------------------------------------------------------------------

/// A request that has been registered.
#[derive(Debug)]
pub struct InFlight {
    /// The id under which the request goes out.
    pub bridge_id: u64,
    /// The id that the client chose.
    pub original_id: Json,
    /// The request as it goes out.
    pub outbound: Json,
}

/// How writing a line ended.
#[derive(Debug)]
pub enum WriteOutcome {
    /// The whole line was written.
    Written,
    /// Nothing was written: there was no line to write.
    Refused(BridgeError),
    /// Writing failed.
    Failed(String),
    /// Writing did not complete in time.
    TimedOut,
}

/// How waiting for a response ended.
#[derive(Debug)]
pub enum Reply {
    /// The response came.
    Delivered(Json),
    /// The connection gave the request up.
    Closed,
    /// No response came in time.
    TimedOut,
}

/// The id after `id`; the ids wrap round.
pub open spec fn following(id: u64) -> u64 {
    if id == u64::MAX {
        0
    } else {
        (id + 1) as u64
    }
}

/// The id that a client chose, null where it chose none.
pub open spec fn chosen_id(message: JsonValue) -> JsonValue {
    match json::member(message, "id"@) {
        Some(id) => id,
        None => JsonValue::Null,
    }
}

/// A message with the given id; a message that is no object stays as it is.
pub open spec fn with_id(message: JsonValue, id: JsonValue) -> JsonValue {
    json::with_member(message, "id"@, id)
}

/// The session once a request is registered. A dead session registers none.
pub open spec fn registered<W>(link: Link<W>, waiter: W) -> Link<W> {
    Link {
        next: following(link.next),
        pending: if link.dead {
            link.pending.remove(link.next)
        } else {
            link.pending.insert(link.next, waiter)
        },
        dead: link.dead,
    }
}

/// The session once a request is given up.
pub open spec fn without<W>(link: Link<W>, id: u64) -> Link<W> {
    Link { pending: link.pending.remove(id), ..link }
}

/// The session once a line has or has not been written. Part of a line may
/// have reached the child where writing was cut short, and nothing may follow
/// it: the session is dead.
pub open spec fn after_write<W>(link: Link<W>, outcome: WriteOutcome) -> Link<W> {
    Link { dead: link.dead || outcome is Failed || outcome is TimedOut, ..link }
}

/// The error of a write.
pub open spec fn write_error(outcome: WriteOutcome) -> Option<BridgeFault> {
    match outcome {
        WriteOutcome::Written => None,
        WriteOutcome::Refused(e) => Some(e@),
        WriteOutcome::Failed(reason) => Some(BridgeFault::Write(reason@)),
        WriteOutcome::TimedOut => Some(BridgeFault::RequestTimeout),
    }
}

/// The line that carries a message, or why there is none.
pub open spec fn line_of(message: JsonValue, dead: bool) -> Result<Seq<char>, BridgeFault> {
    if dead {
        Err(BridgeFault::ProcessExited)
    } else {
        Ok(json::text_of_json(message).push('\n'))
    }
}

/// The response that a request is given.
pub open spec fn response_of(original_id: JsonValue, reply: Reply) -> Result<
    JsonValue,
    BridgeFault,
> {
    match reply {
        Reply::Delivered(frame) => Ok(with_id(frame@, original_id)),
        Reply::Closed => Err(BridgeFault::ProcessExited),
        Reply::TimedOut => Err(BridgeFault::RequestTimeout),
    }
}

/// What is left of the time for an exchange.
pub fn remaining(request_timeout: u128, elapsed: u128) -> (left: u128)
    ensures
        left == (if elapsed < request_timeout {
            request_timeout - elapsed
        } else {
            0
        }),
{
    if elapsed < request_timeout {
        request_timeout - elapsed
    } else {
        0
    }
}

impl<W> Connection<W> {
    /// A fresh session.
    pub fn open() -> (connection: Self)
        ensures
            connection@ == (Link { next: 0, pending: Map::<u64, W>::empty(), dead: false }),
    {
        Connection { next_request_id: 0, pending_requests: HashMap::new(), dead: false }
    }

    /// Whether the child can no longer answer.
    pub fn is_dead(&self) -> (b: bool)
        ensures
            b == self@.dead,
    {
        self.dead
    }

    /// Mark the session as dead: a write was cut short.
    pub fn poison(&mut self)
        ensures
            final(self)@ == (Link { dead: true, ..old(self)@ }),
    {
        self.dead = true;
    }

    /// The number of requests without a response.
    pub fn pending(&self) -> (n: usize)
        ensures
            n == self@.pending.len(),
    {
        self.pending_requests.len()
    }

    /// Register a request, and give it an id of the session's own.
    pub fn send(&mut self, message: &Json, waiter: W) -> (r: Result<InFlight, BridgeError>)
        ensures
            final(self)@ == registered(old(self)@, waiter),
            match r {
                Ok(request) => !old(self)@.dead && request.bridge_id == old(self)@.next
                    && request.original_id@ == chosen_id(message@) && request.outbound@ == with_id(
                    message@,
                    JsonValue::Unsigned(request.bridge_id),
                ),
                Err(e) => old(self)@.dead && e@ == BridgeFault::ProcessExited,
            },
    {
        let bridge_id = self.next_request_id;
        self.next_request_id = if bridge_id == u64::MAX {
            0
        } else {
            bridge_id + 1
        };
        if self.dead {
            self.pending_requests.remove(&bridge_id);
            return Err(BridgeError::ProcessExited);
        }
        let original_id = match message.get("id") {
            Some(id) => json::copy_json(id),
            None => Json::Null,
        };
        let mut outbound = json::copy_json(message);
        outbound.set("id", Json::Unsigned(bridge_id));
        self.pending_requests.insert(bridge_id, waiter);
        Ok(InFlight { bridge_id, original_id, outbound })
    }

    /// The line that carries a message to the child. There is one for every
    /// message, as long as the child is not known to be dead.
    pub fn write_message(&self, message: &Json) -> (r: Result<String, BridgeError>)
        ensures
            r is Ok <==> !self@.dead,
            match line_of(message@, self@.dead) {
                Ok(line) => r matches Ok(l) && l@ == line,
                Err(f) => r matches Err(e) && e@ == f,
            },
    {
        match json::render(message) {
            Err(e) => Err(BridgeError::Serialise(e)),
            Ok(mut line) => {
                if self.dead {
                    return Err(BridgeError::ProcessExited);
                }
                line.push('\n');
                Ok(line)
            },
        }
    }

    /// Take note of how writing a notification ended.
    pub fn notify(&mut self, outcome: WriteOutcome) -> (r: Result<(), BridgeError>)
        ensures
            final(self)@ == after_write(old(self)@, outcome),
            match write_error(outcome) {
                None => r is Ok,
                Some(f) => r matches Err(e) && e@ == f,
            },
    {
        match outcome {
            WriteOutcome::Written => Ok(()),
            WriteOutcome::Refused(e) => Err(e),
            WriteOutcome::Failed(reason) => {
                self.dead = true;
                Err(BridgeError::Write(reason))
            },
            WriteOutcome::TimedOut => {
                self.dead = true;
                Err(BridgeError::RequestTimeout)
            },
        }
    }

    /// Take note of how writing a request ended. A request that was not
    /// written is given up.
    pub fn settle_write(&mut self, bridge_id: u64, outcome: WriteOutcome) -> (r: Result<
        (),
        BridgeError,
    >)
        ensures
            match write_error(outcome) {
                None => r is Ok && final(self)@ == old(self)@,
                Some(f) => (r matches Err(e) && e@ == f) && final(self)@ == without(
                    after_write(old(self)@, outcome),
                    bridge_id,
                ),
            },
    {
        match self.notify(outcome) {
            Ok(()) => Ok(()),
            Err(e) => {
                self.pending_requests.remove(&bridge_id);
                Err(e)
            },
        }
    }

    /// Conclude a request from how waiting for its response ended.
    pub fn conclude(&mut self, request: InFlight, reply: Reply) -> (r: Result<Json, BridgeError>)
        ensures
            final(self)@ == without(old(self)@, request.bridge_id),
            match response_of(request.original_id@, reply) {
                Ok(response) => r matches Ok(j) && j@ == response,
                Err(f) => r matches Err(e) && e@ == f,
            },
    {
        self.pending_requests.remove(&request.bridge_id);
        match reply {
            Reply::Delivered(frame) => {
                let mut response = frame;
                response.set("id", request.original_id);
                Ok(response)
            },
            Reply::Closed => Err(BridgeError::ProcessExited),
            Reply::TimedOut => Err(BridgeError::RequestTimeout),
        }
    }
}

// ---------------------------------------------------------------------------
// Frames from the child
// ---------------------------------------------------------------------------

/// What a frame from the child is.
#[derive(Debug, Clone, Copy, PartialEq, Eq, Structural)]
pub enum InboundFrame {
    /// A response to the request with this id.
    Response(u64),
    /// A notification: a method without an id.
    Notification,
    /// A request to the client: a method with an id.
    ServerRequest,
    /// Neither a response nor a message with a method.
    Unrecognised,
}

/// Whether a value is an object with the given member.
pub open spec fn carries(v: JsonValue, name: Seq<char>) -> bool {
    json::member(v, name) is Some
}

/// What a frame from the child is.
pub open spec fn kind_of(frame: JsonValue) -> InboundFrame {
    if carries(frame, "method"@) {
        if carries(frame, "id"@) {
            InboundFrame::ServerRequest
        } else {
            InboundFrame::Notification
        }
    } else if carries(frame, "result"@) || carries(frame, "error"@) {
        match json::member(frame, "id"@) {
            Some(JsonValue::Unsigned(id)) => InboundFrame::Response(id),
            _ => InboundFrame::Unrecognised,
        }
    } else {
        InboundFrame::Unrecognised
    }
}

/// Tell what a frame from the child is.
pub fn classify_inbound(frame: &Json) -> (kind: InboundFrame)
    ensures
        kind == kind_of(frame@),
{
    if frame.get("method").is_some() {
        return if frame.get("id").is_some() {
            InboundFrame::ServerRequest
        } else {
            InboundFrame::Notification
        };
    }
    let carries_outcome = frame.get("result").is_some() || frame.get("error").is_some();
    match frame.get("id") {
        Some(id) => match id.as_u64() {
            Some(id) => if carries_outcome {
                InboundFrame::Response(id)
            } else {
                InboundFrame::Unrecognised
            },
            None => InboundFrame::Unrecognised,
        },
        None => InboundFrame::Unrecognised,
    }
}

/// What becomes of what was read from the child.
pub enum Routing<W> {
    /// The frame goes to the request that waits on `waiter`.
    Deliver { waiter: W, frame: Json },
    /// The line holds nothing.
    Blank,
    /// The line is not JSON. The preview is fit for a log.
    NotJson { preview: String },
    /// The frame is a notification and is dropped.
    Notification,
    /// The frame is a request to the client and is dropped.
    ServerRequest,
    /// The frame is not recognised and is dropped.
    Unrecognised,
    /// The frame is a response that no request waits for, and is dropped.
    Unmatched(u64),
    /// Nothing more can be read.
    Closed,
}

/// What becomes of what was read, as a mathematical value.
pub enum Fate<W> {
    Deliver(W, JsonValue),
    Blank,
    NotJson(Seq<char>),
    Notification,
    ServerRequest,
    Unrecognised,
    Unmatched(u64),
    Closed,
}

impl<W> View for Routing<W> {
    type V = Fate<W>;

    open spec fn view(&self) -> Fate<W> {
        match self {
            Routing::Deliver { waiter, frame } => Fate::Deliver(*waiter, frame@),
            Routing::Blank => Fate::Blank,
            Routing::NotJson { preview } => Fate::NotJson(preview@),
            Routing::Notification => Fate::Notification,
            Routing::ServerRequest => Fate::ServerRequest,
            Routing::Unrecognised => Fate::Unrecognised,
            Routing::Unmatched(id) => Fate::Unmatched(*id),
            Routing::Closed => Fate::Closed,
        }
    }
}

/// What becomes of a frame.
pub open spec fn frame_fate<W>(link: Link<W>, frame: JsonValue) -> Fate<W> {
    match kind_of(frame) {
        InboundFrame::Response(id) => if link.pending.contains_key(id) {
            Fate::Deliver(link.pending[id], frame)
        } else {
            Fate::Unmatched(id)
        },
        InboundFrame::Notification => Fate::Notification,
        InboundFrame::ServerRequest => Fate::ServerRequest,
        InboundFrame::Unrecognised => Fate::Unrecognised,
    }
}

/// The session once a frame has been dealt with.
pub open spec fn after_frame<W>(link: Link<W>, frame: JsonValue) -> Link<W> {
    match kind_of(frame) {
        InboundFrame::Response(id) => without(link, id),
        _ => link,
    }
}

/// A text as a log shows it: whole where it is short, cut between characters
/// otherwise.
pub open spec fn preview_of(s: Seq<char>) -> Seq<char> {
    if text::byte_len(s) <= LOG_PREVIEW_BYTES {
        s
    } else {
        text::fitting(s, LOG_PREVIEW_BYTES as nat) + "..."@
    }
}

/// Cut a text down to what a log shows.
pub fn log_preview(s: &str) -> (preview: String)
    ensures
        preview@ == preview_of(s@),
{
    let mut preview = text::prefix_within(s, LOG_PREVIEW_BYTES);
    proof {
        text::lemma_fitting_fits(s@, LOG_PREVIEW_BYTES as nat);
    }
    if !text::same(preview.as_str(), s) {
        preview.append("...");
    }
    preview
}

/// What becomes of a text, given the JSON value that it stands for.
pub open spec fn parsed_fate<W>(
    link: Link<W>,
    line: Seq<char>,
    parsed: Option<JsonValue>,
) -> Fate<W> {
    match parsed {
        Some(frame) => frame_fate(link, frame),
        None => Fate::NotJson(preview_of(line)),
    }
}

/// The session once a text has been dealt with.
pub open spec fn after_parsed<W>(link: Link<W>, parsed: Option<JsonValue>) -> Link<W> {
    match parsed {
        Some(frame) => after_frame(link, frame),
        None => link,
    }
}

/// What becomes of a line.
pub open spec fn line_fate<W>(link: Link<W>, line: Seq<char>) -> Fate<W> {
    let content = text::trimmed(line);
    if content.len() == 0 {
        Fate::Blank
    } else {
        parsed_fate(link, content, json::json_of_text(content))
    }
}

/// The session once a line has been dealt with.
pub open spec fn after_line<W>(link: Link<W>, line: Seq<char>) -> Link<W> {
    let content = text::trimmed(line);
    if content.len() == 0 {
        link
    } else {
        after_parsed(link, json::json_of_text(content))
    }
}

/// The session once the child's output has ended: no request is answered any
/// more.
pub open spec fn closed<W>(link: Link<W>) -> Link<W> {
    Link { next: link.next, pending: Map::empty(), dead: true }
}

/// A text out of bytes, as `String::from_utf8_lossy` reads them.
pub uninterp spec fn lossy_of(bytes: Seq<u8>) -> Seq<char>;

/// `String::from_utf8_lossy`. Bytes that are UTF-8 give the text that they
/// encode; the replacement of others is only named.
#[verifier::external_body]
fn lossy_text(bytes: &Vec<u8>) -> (s: String)
    ensures
        s@ == lossy_of(bytes@),
        utf8::valid_utf8(bytes@) ==> s@ == utf8::decode_utf8(bytes@),
{
    String::from_utf8_lossy(bytes).into_owned()
}

/// What a read from the child gave.
#[derive(Debug)]
pub enum ReadEvent {
    /// The end of the output.
    EndOfFile,
    /// A line, with its end.
    Line(Vec<u8>),
    /// An error.
    Failed(String),
}

/// What becomes of a read.
pub open spec fn read_fate<W>(link: Link<W>, event: ReadEvent) -> Fate<W> {
    match event {
        ReadEvent::Line(bytes) => line_fate(link, lossy_of(bytes@)),
        _ => Fate::Closed,
    }
}

/// The session after a read.
pub open spec fn after_read<W>(link: Link<W>, event: ReadEvent) -> Link<W> {
    match event {
        ReadEvent::Line(bytes) => after_line(link, lossy_of(bytes@)),
        _ => closed(link),
    }
}

impl<W> Connection<W> {
    /// Hand a response to the request that waits for it.
    pub fn deliver_response(&mut self, frame: Json, bridge_id: u64) -> (routing: Routing<W>)
        ensures
            final(self)@ == without(old(self)@, bridge_id),
            routing@ == (if old(self)@.pending.contains_key(bridge_id) {
                Fate::Deliver(old(self)@.pending[bridge_id], frame@)
            } else {
                Fate::Unmatched(bridge_id)
            }),
    {
        match self.pending_requests.remove(&bridge_id) {
            Some(waiter) => Routing::Deliver { waiter, frame },
            None => Routing::Unmatched(bridge_id),
        }
    }

    /// Deal with a frame.
    pub fn route_frame(&mut self, frame: Json) -> (routing: Routing<W>)
        ensures
            final(self)@ == after_frame(old(self)@, frame@),
            routing@ == frame_fate(old(self)@, frame@),
    {
        match classify_inbound(&frame) {
            InboundFrame::Response(bridge_id) => self.deliver_response(frame, bridge_id),
            InboundFrame::Notification => Routing::Notification,
            InboundFrame::ServerRequest => Routing::ServerRequest,
            InboundFrame::Unrecognised => Routing::Unrecognised,
        }
    }

    /// Deal with a text, given the JSON value that it stands for.
    pub fn route_parsed(&mut self, line: &str, parsed: Option<Json>) -> (routing: Routing<W>)
        ensures
            final(self)@ == after_parsed(
                old(self)@,
                match parsed {
                    Some(frame) => Some(frame@),
                    None => None,
                },
            ),
            routing@ == parsed_fate(
                old(self)@,
                line@,
                match parsed {
                    Some(frame) => Some(frame@),
                    None => None,
                },
            ),
    {
        match parsed {
            Some(frame) => self.route_frame(frame),
            None => Routing::NotJson { preview: log_preview(line) },
        }
    }

    /// Deal with a line.
    pub fn route_line(&mut self, line: &str) -> (routing: Routing<W>)
        ensures
            final(self)@ == after_line(old(self)@, line@),
            routing@ == line_fate(old(self)@, line@),
    {
        let v = text::chars_of(line);
        let range = text::trimmed_range(&v, 0);
        assert(v@.skip(0) =~= v@);
        if range.0 == range.1 {
            return Routing::Blank;
        }
        let content = text::text_of_range(&v, range.0, range.1);
        self.route_parsed(content.as_str(), json::parse(content.as_str()))
    }

    /// Deal with what was read. At the end of the output every request
    /// without a response is given up.
    pub fn read(&mut self, event: ReadEvent) -> (routing: Routing<W>)
        ensures
            final(self)@ == after_read(old(self)@, event),
            routing@ == read_fate(old(self)@, event),
            event matches ReadEvent::Line(bytes) ==> (utf8::valid_utf8(bytes@) ==> final(self)@
                == after_line(old(self)@, utf8::decode_utf8(bytes@)) && routing@ == line_fate(
                old(self)@,
                utf8::decode_utf8(bytes@),
            )),
    {
        match event {
            ReadEvent::Line(bytes) => {
                let line = lossy_text(&bytes);
                self.route_line(line.as_str())
            },
            ReadEvent::EndOfFile | ReadEvent::Failed(_) => {
                self.dead = true;
                self.pending_requests.clear();
                Routing::Closed
            },
        }
    }
}

// ---------------------------------------------------------------------------
// Laws
// ---------------------------------------------------------------------------

/// A request that goes out and comes back: the child sees the session's id in
/// place of the client's, the client sees its own id in the response, and
/// neither sees any other member changed.
pub proof fn ids_are_restored(message: JsonValue, frame: Json, bridge_id: u64, other: Seq<char>)
    requires
        message is Object,
        frame@ is Object,
        other != "id"@,
    ensures
        json::member(with_id(message, JsonValue::Unsigned(bridge_id)), "id"@) == Some(
            JsonValue::Unsigned(bridge_id),
        ),
        json::member(with_id(message, JsonValue::Unsigned(bridge_id)), other) == json::member(
            message,
            other,
        ),
        response_of(chosen_id(message), Reply::Delivered(frame)) matches Ok(response)
            && json::member(response, "id"@) == Some(chosen_id(message)) && json::member(
            response,
            other,
        ) == json::member(frame@, other),
{
    let sent = JsonValue::Unsigned(bridge_id);
    names::store_then_find(message->Object_0, "id"@, sent, other);
    names::store_then_find(message->Object_0, "id"@, sent, "id"@);
    names::store_then_find(frame@->Object_0, "id"@, chosen_id(message), other);
    names::store_then_find(frame@->Object_0, "id"@, chosen_id(message), "id"@);
}

/// A response goes to the request whose id it carries, and to no other: the
/// request then no longer waits, and every other request waits as before.
pub proof fn responses_reach_their_request<W>(link: Link<W>, waiter: W, frame: JsonValue, other: u64)
    requires
        !link.dead,
        kind_of(frame) == InboundFrame::Response(link.next),
        other != link.next,
    ensures
        frame_fate(registered(link, waiter), frame) == Fate::Deliver(waiter, frame),
        !after_frame(registered(link, waiter), frame).pending.contains_key(link.next),
        after_frame(registered(link, waiter), frame).pending.contains_key(other)
            == link.pending.contains_key(other),
        link.pending.contains_key(other) ==> after_frame(registered(link, waiter), frame).pending[other]
            == link.pending[other],
{
}

/// Whatever the child writes without being asked changes nothing: no request
/// is answered by it, and none is lost.
pub proof fn unsolicited_frames_change_nothing<W>(link: Link<W>, frame: JsonValue)
    requires
        match kind_of(frame) {
            InboundFrame::Response(id) => !link.pending.contains_key(id),
            _ => true,
        },
    ensures
        after_frame(link, frame) == link,
        !(frame_fate(link, frame) is Deliver),
{
    if let InboundFrame::Response(id) = kind_of(frame) {
        assert(link.pending.remove(id) =~= link.pending);
    }
}

/// A message with a method is never taken for a response, whatever else it
/// carries.
pub proof fn methods_are_no_responses(frame: JsonValue)
    requires
        carries(frame, "method"@),
    ensures
        !(kind_of(frame) is Response),
{
}

/// Every request that waits has an id that was given out before.
pub open spec fn fresh<W>(link: Link<W>) -> bool {
    forall|id: u64| #[trigger] link.pending.contains_key(id) ==> id < link.next
}

/// Until the ids wrap round, no request takes the place of another: the id of
/// a new request is not in use, and every step keeps it so.
pub proof fn ids_are_not_reused<W>(
    link: Link<W>,
    waiter: W,
    id: u64,
    outcome: WriteOutcome,
    event: ReadEvent,
)
    requires
        fresh(link),
    ensures
        fresh(Link { next: 0, pending: Map::<u64, W>::empty(), dead: false }),
        !link.pending.contains_key(link.next),
        link.next < u64::MAX ==> fresh(registered(link, waiter)),
        fresh(without(link, id)),
        fresh(after_write(link, outcome)),
        fresh(after_read(link, event)),
{
}

/// A dead session stays dead, and gives every request the same answer.
pub proof fn dead_sessions_stay_dead<W>(
    link: Link<W>,
    waiter: W,
    id: u64,
    outcome: WriteOutcome,
    event: ReadEvent,
    message: JsonValue,
)
    requires
        link.dead,
    ensures
        registered(link, waiter).dead,
        without(link, id).dead,
        after_write(link, outcome).dead,
        after_read(link, event).dead,
        line_of(message, link.dead) is Err,
        forall|other: u64| #[trigger]
            registered(link, waiter).pending.contains_key(other) ==> link.pending.contains_key(
                other,
            ),
{
}

/// Ids follow one another and begin again after the last one.
pub proof fn ids_follow_one_another(id: u64)
    ensures
        id < 18_446_744_073_709_551_615 ==> following(id) == id + 1,
        id == 18_446_744_073_709_551_615 ==> following(id) == 0,
{
}

/// The id of a message is its `id` member, or null without one, and only an
/// object can be given an id.
pub proof fn ids_are_read_and_set_on_objects(message: JsonValue, id: JsonValue)
    ensures
        json::member(message, "id"@) matches Some(own) ==> chosen_id(message) == own,
        json::member(message, "id"@) is None ==> chosen_id(message) == JsonValue::Null,
        !(message is Object) ==> with_id(message, id) == message,
        message is Object ==> json::member(with_id(message, id), "id"@) == Some(id),
{
    json::setting_a_member_changes_it_alone(message, "id"@, id, "id"@);
}

/// A frame with a method is a request of the server where it has an id and a
/// notification where it has none. A frame without a method is the response
/// of an id where it has a result or an error and its id is an unsigned
/// number; anything else is not recognised.
pub proof fn frames_are_told_apart_by_their_members(frame: JsonValue, id: u64)
    ensures
        ({
            let method = json::member(frame, "method"@) is Some;
            let outcome = json::member(frame, "result"@) is Some || json::member(frame, "error"@)
                is Some;
            let own = json::member(frame, "id"@);
            &&& kind_of(frame) is ServerRequest <==> method && own is Some
            &&& kind_of(frame) is Notification <==> method && own is None
            &&& kind_of(frame) == InboundFrame::Response(id) <==> !method && outcome && own == Some(
                JsonValue::Unsigned(id),
            )
            &&& kind_of(frame) is Unrecognised <==> !method && !(outcome && (own matches Some(
                JsonValue::Unsigned(_),
            )))
        }),
{
}

/// A new request waits under the id that comes next, and no other request is
/// touched; in a dead session it does not wait. A request that is given up no
/// longer waits, and every other one does.
pub proof fn requests_wait_under_their_own_id<W>(link: Link<W>, waiter: W, id: u64, other: u64)
    ensures
        ({
            let after = registered(link, waiter);
            &&& after.next == following(link.next)
            &&& after.dead == link.dead
            &&& !link.dead ==> after.pending.contains_key(link.next) && after.pending[link.next]
                == waiter
            &&& link.dead ==> !after.pending.contains_key(link.next)
            &&& other != link.next ==> (after.pending.contains_key(other)
                <==> link.pending.contains_key(other))
            &&& other != link.next && link.pending.contains_key(other) ==> after.pending[other]
                == link.pending[other]
        }),
        ({
            let after = without(link, id);
            &&& !after.pending.contains_key(id)
            &&& other != id ==> (after.pending.contains_key(other) <==> link.pending.contains_key(
                other,
            ))
            &&& other != id && link.pending.contains_key(other) ==> after.pending[other]
                == link.pending[other]
            &&& after.next == link.next
            &&& after.dead == link.dead
        }),
{
}

/// A line that was written, or that there was none of, leaves the session
/// alive; one that was cut short ends it. The failure is reported as it is.
pub proof fn only_whole_lines_keep_a_session_alive<W>(link: Link<W>, outcome: WriteOutcome)
    ensures
        ({
            let after = after_write(link, outcome);
            &&& outcome is Written || outcome is Refused ==> after == link
            &&& outcome is Failed || outcome is TimedOut ==> after.dead
            &&& after.pending == link.pending
            &&& after.next == link.next
        }),
        outcome is Written <==> write_error(outcome) is None,
        outcome matches WriteOutcome::Refused(e) ==> write_error(outcome) == Some(e@),
        outcome matches WriteOutcome::Failed(why) ==> write_error(outcome) == Some(
            BridgeFault::Write(why@),
        ),
        outcome is TimedOut ==> write_error(outcome) == Some(BridgeFault::RequestTimeout),
{
}

/// A message goes out as one line of its JSON text, to a child that is not
/// known to be dead.
pub proof fn messages_go_out_as_lines(message: JsonValue)
    ensures
        line_of(message, false) matches Ok(line) && line == json::text_of_json(message) + seq![
            '\n',
        ],
        line_of(message, true) == Err::<Seq<char>, _>(BridgeFault::ProcessExited),
{
    assert(json::text_of_json(message).push('\n') =~= json::text_of_json(message) + seq!['\n']);
}

/// A request is given the response that was delivered to it, with the id that
/// the client chose, and otherwise the reason why there is none.
pub proof fn requests_are_given_their_own_response(id: JsonValue, frame: Json)
    ensures
        frame@ is Object ==> (response_of(id, Reply::Delivered(frame)) matches Ok(r)
            && json::member(r, "id"@) == Some(id)),
        !(frame@ is Object) ==> response_of(id, Reply::Delivered(frame)) == Ok::<_, BridgeFault>(
            frame@,
        ),
        response_of(id, Reply::Closed) == Err::<JsonValue, _>(BridgeFault::ProcessExited),
        response_of(id, Reply::TimedOut) == Err::<JsonValue, _>(BridgeFault::RequestTimeout),
{
    json::setting_a_member_changes_it_alone(frame@, "id"@, id, "id"@);
}

/// A frame goes where its kind says: a response to the request that waits for
/// its id, which then no longer waits, and nowhere else.
pub proof fn frames_go_where_their_kind_says<W>(link: Link<W>, frame: JsonValue, id: u64)
    ensures
        kind_of(frame) == InboundFrame::Response(id) ==> {
            &&& link.pending.contains_key(id) ==> frame_fate(link, frame) == Fate::Deliver(
                link.pending[id],
                frame,
            )
            &&& !link.pending.contains_key(id) ==> frame_fate(link, frame) == Fate::<W>::Unmatched(
                id,
            )
            &&& after_frame(link, frame) == (Link { pending: link.pending.remove(id), ..link })
        },
        !(kind_of(frame) is Response) ==> after_frame(link, frame) == link,
        kind_of(frame) is Notification <==> frame_fate(link, frame) is Notification,
        kind_of(frame) is ServerRequest <==> frame_fate(link, frame) is ServerRequest,
        kind_of(frame) is Unrecognised <==> frame_fate(link, frame) is Unrecognised,
        !(frame_fate(link, frame) is Blank) && !(frame_fate(link, frame) is Closed),
{
}

/// A line is read without the white space around it: as a frame where it is
/// JSON, and as something to be logged where it is not. A blank line is
/// nothing, and the end of the output or a failure to read closes the
/// session: it is dead, and no request waits any more.
pub proof fn lines_are_read_without_the_space_around_them<W>(
    link: Link<W>,
    bytes: Vec<u8>,
    front: Seq<char>,
    content: Seq<char>,
    back: Seq<char>,
    why: String,
)
    requires
        lossy_of(bytes@) == front + content + back,
        forall|i: int| 0 <= i < front.len() ==> text::white_space(#[trigger] front[i]),
        forall|i: int| 0 <= i < back.len() ==> text::white_space(#[trigger] back[i]),
        content.len() > 0 ==> !text::white_space(content[0]) && !text::white_space(content.last()),
    ensures
        ({
            let fate = read_fate(link, ReadEvent::Line(bytes));
            let after = after_read(link, ReadEvent::Line(bytes));
            &&& content.len() == 0 ==> fate == Fate::<W>::Blank && after == link
            &&& content.len() > 0 ==> match json::json_of_text(content) {
                Some(frame) => fate == frame_fate(link, frame) && after == after_frame(link, frame),
                None => fate == Fate::<W>::NotJson(preview_of(content)) && after == link,
            }
        }),
        forall|event: ReadEvent|
            event is EndOfFile || event is Failed ==> {
                &&& #[trigger] read_fate(link, event) == Fate::<W>::Closed
                &&& after_read(link, event).dead
                &&& after_read(link, event).next == link.next
                &&& forall|id: u64| !after_read(link, event).pending.contains_key(id)
            },
{
    text::trimming_loses_white_space_only(front, content, back);
}

/// A log shows a short line whole, and of a long one the beginning, cut
/// between characters and marked as cut.
pub proof fn previews_are_the_beginning(s: Seq<char>)
    ensures
        text::byte_len(s) <= 120 ==> preview_of(s) == s,
        text::byte_len(s) > 120 ==> exists|n: int|
            0 <= n < s.len() && preview_of(s) == #[trigger] s.take(n) + "..."@ && text::byte_len(
                s.take(n),
            ) <= 120 < text::byte_len(s.take(n + 1)),
{
    if text::byte_len(s) > 120 {
        text::lemma_fitting_fits(s, 120);
        let n = choose|n: int| 0 <= n <= s.len() && text::fitting(s, 120) == #[trigger] s.take(n);
        assert(s.take(s.len() as int) =~= s);
        assert(n < s.len());
        text::lemma_longest(s, 120, n + 1);
        assert(preview_of(s) == s.take(n) + "..."@);
    }
}

/// What is left of a time is what has not passed of it, and nothing once it
/// has passed.
pub proof fn time_runs_out(timeout: u128, elapsed: u128, left: u128)
    requires
        call_ensures(remaining, (timeout, elapsed), left),
    ensures
        elapsed <= timeout ==> left + elapsed == timeout,
        elapsed >= timeout ==> left == 0,
{
}

/// A request goes out under the next id of the session, with nothing else
/// changed, and then waits; in a dead session it is refused.
pub proof fn requests_go_out_under_the_next_id<W>(
    connection: &mut Connection<W>,
    message: &Json,
    waiter: W,
    r: Result<InFlight, BridgeError>,
    other: Seq<char>,
)
    requires
        call_ensures(Connection::<W>::send, (connection, message, waiter), r),
    ensures
        r is Ok <==> !old(connection)@.dead,
        r matches Err(e) ==> e is ProcessExited,
        r matches Ok(request) ==> {
            &&& request.bridge_id == old(connection)@.next
            &&& final(connection)@.pending.contains_key(request.bridge_id)
            &&& final(connection)@.pending[request.bridge_id] == waiter
            &&& message@ is Object ==> json::member(request.outbound@, "id"@) == Some(
                JsonValue::Unsigned(request.bridge_id),
            )
            &&& other != "id"@ ==> json::member(request.outbound@, other) == json::member(
                message@,
                other,
            )
            &&& json::member(message@, "id"@) matches Some(id) ==> request.original_id@ == id
        },
{
    if let Ok(request) = r {
        let id = JsonValue::Unsigned(request.bridge_id);
        json::setting_a_member_changes_it_alone(message@, "id"@, id, other);
    }
}

/// A request that is concluded no longer waits, and its response carries the
/// id of the client.
pub proof fn responses_carry_the_id_of_the_client<W>(
    connection: &mut Connection<W>,
    request: InFlight,
    frame: Json,
    r: Result<Json, BridgeError>,
    other: Seq<char>,
)
    requires
        call_ensures(Connection::<W>::conclude, (connection, request, Reply::Delivered(frame)), r),
    ensures
        !final(connection)@.pending.contains_key(request.bridge_id),
        r matches Ok(response) && {
            &&& frame@ is Object ==> json::member(response@, "id"@) == Some(request.original_id@)
            &&& other != "id"@ ==> json::member(response@, other) == json::member(frame@, other)
        },
{
    json::setting_a_member_changes_it_alone(frame@, "id"@, request.original_id@, other);
}

/// A request whose line was not written is given up, and the session is dead
/// where the line was cut short.
pub proof fn unwritten_requests_are_given_up<W>(
    connection: &mut Connection<W>,
    id: u64,
    outcome: WriteOutcome,
    r: Result<(), BridgeError>,
)
    requires
        call_ensures(Connection::<W>::settle_write, (connection, id, outcome), r),
    ensures
        r is Ok <==> outcome is Written,
        outcome is Written ==> final(connection)@ == old(connection)@,
        !(outcome is Written) ==> !final(connection)@.pending.contains_key(id),
        outcome is Failed || outcome is TimedOut ==> final(connection)@.dead,
        outcome is Refused ==> final(connection)@.dead == old(connection)@.dead,
{
}

/// A response is delivered to the request that waits under its id, once, and
/// the end of the output leaves no request waiting.
pub proof fn responses_are_delivered_once<W>(
    connection: &mut Connection<W>,
    frame: Json,
    id: u64,
    routing: Routing<W>,
    closing: &mut Connection<W>,
    end: Routing<W>,
)
    requires
        call_ensures(Connection::<W>::deliver_response, (connection, frame, id), routing),
        call_ensures(Connection::<W>::read, (closing, ReadEvent::EndOfFile), end),
    ensures
        routing is Deliver <==> old(connection)@.pending.contains_key(id),
        routing matches Routing::Deliver { waiter, frame: f } ==> waiter == old(
            connection,
        )@.pending[id] && f@ == frame@,
        !final(connection)@.pending.contains_key(id),
        end is Closed,
        final(closing)@.dead,
        forall|other: u64| !final(closing)@.pending.contains_key(other),
{
}

/// A new session is alive and has nothing to wait for.
pub proof fn sessions_begin_alive<W>(connection: Connection<W>)
    requires
        call_ensures(Connection::<W>::open, (), connection),
    ensures
        !connection@.dead,
        forall|id: u64| !connection@.pending.contains_key(id),
{
}

} // verus!
