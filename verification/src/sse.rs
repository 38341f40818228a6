//! The wire framing of the event stream: a typed message with optional
//! `event`, `id`, `data` and `retry` fields, a builder that refuses field
//! values that would corrupt the framing, and a serializer whose output is
//! pinned down, byte for byte, by the `framing` specification.

use vstd::prelude::*;
use vstd::utf8::encode_utf8;
use crate::events::{notification_bytes, ChangeBroadcaster, Client, PollNext, SubscriptionView};

verus! {

/// Why constructing a message field was refused.
#[derive(Debug, Clone, Copy, PartialEq, Eq, Structural)]
pub enum ValidationError {
    /// The `event` field may not contain a carriage return or a newline.
    EventContainsNewline,
    /// The `id` field may not contain a carriage return or a newline.
    IdContainsNewline,
}

/// The mathematical content of a [`Message`].
pub ghost struct MessageView {
    pub event: Option<Seq<char>>,
    pub id: Option<Seq<char>>,
    pub data: Option<Seq<char>>,
    pub retry: Option<u32>,
}

/// A single event-stream message, with optional `event`, `data`, and `id`
/// fields. Values for `event` and `id` pass through newline validation, so
/// a well-formed `Message` always serializes to a well-formed record.
#[derive(Clone)]
pub struct Message {
    event: Option<String>,
    id: Option<String>,
    data: Option<String>,
    retry: Option<u32>,
}

/// A builder for [`Message`], seeded empty by [`Message::build`].
#[derive(Clone)]
pub struct MessageBuilder(Message);

impl View for Message {
    type V = MessageView;

    closed spec fn view(&self) -> MessageView {
        MessageView {
            event: match self.event {
                Option::Some(s) => Option::Some(s@),
                Option::None => Option::None,
            },
            id: match self.id {
                Option::Some(s) => Option::Some(s@),
                Option::None => Option::None,
            },
            data: match self.data {
                Option::Some(s) => Option::Some(s@),
                Option::None => Option::None,
            },
            retry: self.retry,
        }
    }
}

impl View for MessageBuilder {
    type V = MessageView;

    closed spec fn view(&self) -> MessageView {
        self.0@
    }
}

/// True when `s` contains neither a newline nor a carriage return, so it may
/// stand on one physical line of the framing.
pub open spec fn line_safe(s: Seq<char>) -> bool {
    forall|i: int| 0 <= i < s.len() ==> s[i] != '\n' && s[i] != '\r'
}

/// The characters of `"event: "`.
pub open spec fn event_prefix() -> Seq<char> {
    seq!['e', 'v', 'e', 'n', 't', ':', ' ']
}

/// The characters of `"id: "`.
pub open spec fn id_prefix() -> Seq<char> {
    seq!['i', 'd', ':', ' ']
}

/// The characters of `"data: "`.
pub open spec fn data_prefix() -> Seq<char> {
    seq!['d', 'a', 't', 'a', ':', ' ']
}

/// Index of the first newline in `s`, or `s.len()` when there is none.
pub open spec fn find_nl(s: Seq<char>) -> int
    decreases s.len(),
{
    if s.len() == 0 {
        0
    } else if s[0] == '\n' {
        0
    } else {
        1 + find_nl(s.drop_first())
    }
}

/// One line of payload, with the carriage return of a `\r\n` terminator
/// removed, as `str::lines` removes it.
pub open spec fn strip_cr(l: Seq<char>) -> Seq<char> {
    if l.len() > 0 && l.last() == '\r' {
        l.drop_last()
    } else {
        l
    }
}

pub proof fn lemma_find_nl_bounds(s: Seq<char>)
    ensures
        0 <= find_nl(s) <= s.len(),
    decreases s.len(),
{
    if s.len() != 0 && s[0] != '\n' {
        lemma_find_nl_bounds(s.drop_first());
    }
}

/// `find_nl` is pinned down by what an index-by-index scan observes.
pub proof fn lemma_find_nl_at(s: Seq<char>, k: int)
    requires
        0 <= k <= s.len(),
        forall|j: int| 0 <= j < k ==> s[j] != '\n',
        k < s.len() ==> s[k] == '\n',
    ensures
        find_nl(s) == k,
    decreases k,
{
    if s.len() != 0 && k > 0 {
        let t = s.drop_first();
        assert(forall|j: int| 0 <= j < k - 1 ==> t[j] != '\n');
        lemma_find_nl_at(t, k - 1);
    }
}

/// The `data:` section of the framing for payload `d`: one physical
/// `data: <line>\n` per line of `d`, lines split as `str::lines` splits
/// them. An empty payload yields no line at all.
pub open spec fn data_lines(d: Seq<char>) -> Seq<char>
    decreases d.len(),
    via data_lines_dec
{
    if d.len() == 0 {
        Seq::empty()
    } else {
        let i = find_nl(d);
        if i == d.len() {
            data_prefix() + d + seq!['\n']
        } else {
            data_prefix() + strip_cr(d.take(i)) + seq!['\n'] + data_lines(d.skip(i + 1))
        }
    }
}

#[via_fn]
proof fn data_lines_dec(d: Seq<char>) {
    lemma_find_nl_bounds(d);
}

/// A field line `<prefix><value>\n`, or nothing when the field is absent.
pub open spec fn opt_field(prefix: Seq<char>, v: Option<Seq<char>>) -> Seq<char> {
    match v {
        Option::Some(s) => prefix + s + seq!['\n'],
        Option::None => Seq::empty(),
    }
}

/// The full framing of one message: an optional `event:` line, an optional
/// `id:` line, zero or more `data:` lines, and the blank line that
/// terminates the record. The `retry` field takes no part in the framing.
pub open spec fn framing(m: MessageView) -> Seq<char> {
    opt_field(event_prefix(), m.event) + opt_field(id_prefix(), m.id) + (match m.data {
        Option::Some(d) => data_lines(d),
        Option::None => Seq::empty(),
    }) + seq!['\n']
}

/// True when `s` holds a newline or a carriage return anywhere: such a
/// value would break the one-line-per-field framing.
fn has_newline(s: &str) -> (b: bool)
    ensures
        b <==> !line_safe(s@),
{
    let n = s.unicode_len();
    let mut i: usize = 0;
    while i < n
        invariant
            n == s@.len(),
            i <= n,
            forall|j: int| 0 <= j < i ==> s@[j] != '\n' && s@[j] != '\r',
        decreases n - i,
    {
        let c = s.get_char(i);
        if c == '\n' || c == '\r' {
            return true;
        }
        i += 1;
    }
    false
}

/// Appends `data: ` lines for the payload suffix `d[from..]` to `out`.
fn append_lines_from(d: &str, from: usize, out: &mut String)
    requires
        from <= d@.len(),
    ensures
        final(out)@ == old(out)@ + data_lines(d@.skip(from as int)),
    decreases d@.len() - from@,
{
    let n = d.unicode_len();
    if from >= n {
        proof {
            assert(d@.skip(from as int) =~= Seq::<char>::empty());
            assert(final(out)@ =~= old(out)@ + data_lines(d@.skip(from as int)));
        }
        return ;
    }
    let ghost s = d@.skip(from as int);
    let mut i: usize = from;
    while i < n && d.get_char(i) != '\n'
        invariant
            n == d@.len(),
            from <= i <= n,
            forall|j: int| from <= j < i ==> d@[j] != '\n',
        decreases n - i,
    {
        i += 1;
    }
    proof {
        assert(forall|j: int| 0 <= j < i - from ==> s[j] != '\n');
        lemma_find_nl_at(s, i - from);
    }
    let has_term = i < n;
    let line_end = if has_term && i > from && d.get_char(i - 1) == '\r' {
        i - 1
    } else {
        i
    };
    out.append("data: ");
    out.append(d.substring_char(from, line_end));
    out.append("\n");
    proof {
        reveal_strlit("data: ");
        reveal_strlit("\n");
        assert("data: "@ =~= data_prefix());
        assert("\n"@ =~= seq!['\n']);
    }
    if has_term {
        append_lines_from(d, i + 1, out);
        proof {
            assert(s.take(i - from) =~= d@.subrange(from as int, i as int));
            assert(strip_cr(s.take(i - from)) =~= d@.subrange(from as int, line_end as int));
            assert(s.skip(i - from + 1) =~= d@.skip(i + 1));
            assert(data_lines(s) == data_prefix() + strip_cr(s.take(i - from)) + seq!['\n']
                + data_lines(s.skip(i - from + 1)));
            assert(final(out)@ =~= old(out)@ + data_lines(s));
        }
    } else {
        proof {
            assert(i == n && line_end == i);
            assert(find_nl(s) == s.len());
            assert(d@.subrange(from as int, line_end as int) =~= s);
            assert(data_lines(s) == data_prefix() + s + seq!['\n']);
            assert(final(out)@ =~= old(out)@ + data_lines(s));
        }
    }
}

impl Message {
    /// True when the `event` and `id` fields hold no newline or carriage
    /// return, which every constructor of this type guarantees.
    pub open spec fn wf(self) -> bool {
        &&& match self@.event {
            Option::Some(e) => line_safe(e),
            Option::None => true,
        }
        &&& match self@.id {
            Option::Some(i) => line_safe(i),
            Option::None => true,
        }
    }

    /// A message with only the `data` field set.
    pub fn data(data: String) -> (r: Message)
        ensures
            r@ == (MessageView {
                event: Option::None,
                id: Option::None,
                data: Option::Some(data@),
                retry: Option::None,
            }),
            r.wf(),
    {
        Message { event: None, id: None, data: Some(data), retry: None }
    }

    /// An empty builder.
    pub fn build() -> (r: MessageBuilder)
        ensures
            r@ == (MessageView {
                event: Option::None,
                id: Option::None,
                data: Option::None,
                retry: Option::None,
            }),
    {
        MessageBuilder(Message { event: None, id: None, data: None, retry: None })
    }

    /// Serializes this message into the bytes of one record of the event
    /// stream: the UTF-8 encoding of its framing.
    pub fn serialize(self) -> (r: Vec<u8>)
        ensures
            r@ == encode_utf8(framing(self@)),
    {
        let ghost m = self@;
        let mut out = String::new();
        if let Some(event) = &self.event {
            out.append("event: ");
            out.append(event.as_str());
            out.append("\n");
        }
        proof {
            reveal_strlit("event: ");
            reveal_strlit("\n");
            assert("event: "@ =~= event_prefix());
            assert("\n"@ =~= seq!['\n']);
            assert(out@ =~= opt_field(event_prefix(), m.event));
        }
        let ghost after_event = out@;
        if let Some(id) = &self.id {
            out.append("id: ");
            out.append(id.as_str());
            out.append("\n");
        }
        proof {
            reveal_strlit("id: ");
            reveal_strlit("\n");
            assert("id: "@ =~= id_prefix());
            assert(out@ =~= after_event + opt_field(id_prefix(), m.id));
        }
        let ghost after_id = out@;
        if let Some(data) = &self.data {
            append_lines_from(data.as_str(), 0, &mut out);
            proof {
                assert(data@.skip(0) =~= data@);
            }
        }
        proof {
            assert(out@ =~= after_id + (match m.data {
                Option::Some(d) => data_lines(d),
                Option::None => Seq::<char>::empty(),
            }));
        }
        out.append("\n");
        proof {
            reveal_strlit("\n");
            assert("\n"@ =~= seq!['\n']);
            assert(out@ =~= framing(m));
        }
        out.as_str().as_bytes_vec()
    }
}

impl MessageBuilder {
    /// Sets the `event` field, refusing a value with an embedded newline or
    /// carriage return rather than producing a malformed record.
    pub fn event(self, event: String) -> (r: Result<MessageBuilder, ValidationError>)
        ensures
            r is Ok <==> line_safe(event@),
            r matches Ok(b) ==> b@ == (MessageView { event: Option::Some(event@), ..self@ }),
            r matches Err(e) ==> e == ValidationError::EventContainsNewline,
    {
        if has_newline(event.as_str()) {
            Err(ValidationError::EventContainsNewline)
        } else {
            let MessageBuilder(m) = self;
            Ok(MessageBuilder(Message { event: Some(event), ..m }))
        }
    }

    /// Sets the `id` field, refusing a value with an embedded newline or
    /// carriage return rather than producing a malformed record.
    pub fn id(self, id: String) -> (r: Result<MessageBuilder, ValidationError>)
        ensures
            r is Ok <==> line_safe(id@),
            r matches Ok(b) ==> b@ == (MessageView { id: Option::Some(id@), ..self@ }),
            r matches Err(e) ==> e == ValidationError::IdContainsNewline,
    {
        if has_newline(id.as_str()) {
            Err(ValidationError::IdContainsNewline)
        } else {
            let MessageBuilder(m) = self;
            Ok(MessageBuilder(Message { id: Some(id), ..m }))
        }
    }

    /// Sets the `data` field. Any payload is accepted: the serializer splits
    /// it into one `data:` line per payload line.
    pub fn data(self, data: String) -> (r: MessageBuilder)
        ensures
            r@ == (MessageView { data: Option::Some(data@), ..self@ }),
    {
        let MessageBuilder(m) = self;
        MessageBuilder(Message { data: Some(data), ..m })
    }

    /// Sets the `retry` field. The serializer ignores it.
    pub fn retry(self, retry: u32) -> (r: MessageBuilder)
        ensures
            r@ == (MessageView { retry: Option::Some(retry), ..self@ }),
    {
        let MessageBuilder(m) = self;
        MessageBuilder(Message { retry: Some(retry), ..m })
    }
}

impl From<MessageBuilder> for Message {
    /// Finishes the builder: the message carries exactly the builder's
    /// fields.
    fn from(builder: MessageBuilder) -> (r: Message)
        ensures
            r@ == builder@,
    {
        builder.0
    }
}

impl vstd::std_specs::convert::FromSpecImpl<MessageBuilder> for Message {
    open spec fn obeys_from_spec() -> bool {
        true
    }

    closed spec fn from_spec(t: MessageBuilder) -> Message {
        t.0
    }
}

/// The encoder's two states: draining the buffered bytes of one serialized
/// record, or finished because the subscription is gone.
enum ReadState {
    Reading(Vec<u8>, usize),
    Done,
}

/// The pull-driven byte producer for one client's event stream: it drains
/// the current serialized record, refills from the subscription's queue
/// when the buffer is exhausted, reports backpressure without blocking,
/// and ends the stream once the hub has pruned the subscription.
pub struct EventSource {
    client: Client,
    state: ReadState,
}

/// The mathematical content of an [`EventSource`].
#[verifier::ext_equal]
pub ghost struct EventSourceView {
    pub client: u64,
    pub buf: Seq<u8>,
    pub pos: int,
    pub done: bool,
}

impl View for EventSource {
    type V = EventSourceView;

    closed spec fn view(&self) -> EventSourceView {
        match self.state {
            ReadState::Reading(buf, pos) => EventSourceView {
                client: self.client@,
                buf: buf@,
                pos: pos as int,
                done: false,
            },
            ReadState::Done => EventSourceView {
                client: self.client@,
                buf: Seq::empty(),
                pos: 0,
                done: true,
            },
        }
    }
}

/// What one pull for output bytes yields.
pub enum PollRead {
    /// The next chunk of the stream, at most the caller's capacity long.
    Bytes(Vec<u8>),
    /// No data yet; do not close the connection.
    Pending,
    /// End of stream.
    Eof,
}

/// The slice of `buf` that a pull with room for `cap` bytes returns when
/// `pos` bytes are already consumed: as much as fits.
pub open spec fn chunk(buf: Seq<u8>, pos: int, cap: int) -> Seq<u8> {
    buf.subrange(
        pos,
        if pos + cap <= buf.len() {
            pos + cap
        } else {
            buf.len() as int
        },
    )
}

/// Copies out of `buf` the bytes a pull returns: up to `cap` of them,
/// starting at `pos`.
#[verifier::loop_isolation(false)]
fn copy_chunk(buf: &Vec<u8>, pos: usize, cap: usize) -> (out: Vec<u8>)
    requires
        pos <= buf.len(),
    ensures
        out@ == chunk(buf@, pos as int, cap as int),
{
    let count: usize = if buf.len() - pos <= cap {
        buf.len() - pos
    } else {
        cap
    };
    let mut out: Vec<u8> = Vec::new();
    let mut t: usize = 0;
    proof {
        assert(out@ =~= chunk(buf@, pos as int, cap as int).take(0));
    }
    while t < count
        invariant
            t <= count,
            out@ == chunk(buf@, pos as int, cap as int).take(t as int),
        decreases count - t,
    {
        out.push(buf[pos + t]);
        proof {
            assert(out@ =~= chunk(buf@, pos as int, cap as int).take(t + 1));
        }
        t += 1;
    }
    proof {
        assert(chunk(buf@, pos as int, cap as int).take(count as int) =~= chunk(
            buf@,
            pos as int,
            cap as int,
        ));
    }
    out
}

impl EventSource {
    /// The buffer position never runs past the buffer.
    pub open spec fn wf(self) -> bool {
        0 <= self@.pos <= self@.buf.len()
    }

    /// Attaches the encoder to one subscription's consumer handle, with an
    /// empty buffer: the first pull asks the queue.
    pub fn from_stream(client: Client) -> (r: EventSource)
        ensures
            r@ == (EventSourceView { client: client@, buf: Seq::empty(), pos: 0, done: false }),
            r.wf(),
    {
        let r = EventSource { client, state: ReadState::Reading(Vec::new(), 0) };
        proof {
            assert(r@ =~~= (EventSourceView {
                client: client@,
                buf: Seq::empty(),
                pos: 0,
                done: false,
            }));
        }
        r
    }

    /// One pull for up to `capacity` bytes of the stream. Never blocks:
    /// it returns buffered bytes if any remain, otherwise polls the
    /// subscription's queue once — serializing the next notification,
    /// reporting `Pending` on an empty queue, or ending the stream when
    /// the hub has pruned the subscription.
    #[verifier::loop_isolation(false)]
    pub fn poll_read(&mut self, hub: &mut ChangeBroadcaster, capacity: usize) -> (r: PollRead)
        requires
            old(self).wf(),
            old(hub).wf(),
        ensures
            final(self).wf(),
            final(hub).wf(),
            final(hub)@.next_id == old(hub)@.next_id,
            final(hub)@.capacity == old(hub)@.capacity,
            final(self)@.client == old(self)@.client,
            capacity == 0 ==> (r matches PollRead::Bytes(b) && b@ == Seq::<u8>::empty())
                && final(self)@ == old(self)@ && final(hub)@ == old(hub)@,
            capacity > 0 && old(self)@.done ==> r is Eof && final(self)@ == old(self)@ && final(hub)@ == old(hub)@,
            capacity > 0 && !old(self)@.done && old(self)@.pos < old(self)@.buf.len() ==> ({
                let c = chunk(old(self)@.buf, old(self)@.pos, capacity as int);
                &&& (r matches PollRead::Bytes(b) && b@ == c)
                &&& final(self)@ == (EventSourceView {
                    pos: old(self)@.pos + c.len(),
                    ..old(self)@
                })
                &&& final(hub)@ == old(hub)@
            }),
            capacity > 0 && !old(self)@.done && old(self)@.pos >= old(self)@.buf.len() ==> ({
                &&& (forall|j: int|
                    0 <= j < old(hub)@.subs.len() ==> (#[trigger] old(hub)@.subs[j]).id != old(self)@.client) ==> r is Eof && final(self)@.done && final(hub)@ == old(hub)@
                &&& forall|j: int|
                    0 <= j < old(hub)@.subs.len() && (#[trigger] old(hub)@.subs[j]).id == old(self)@.client ==> ({
                        let s = old(hub)@.subs[j];
                        if s.queue.len() == 0 {
                            r is Pending && final(self)@ == old(self)@ && final(hub)@ == old(hub)@
                        } else {
                            let bytes = notification_bytes(s.queue[0]);
                            let c = chunk(bytes, 0, capacity as int);
                            &&& (r matches PollRead::Bytes(b) && b@ == c)
                            &&& final(self)@ == (EventSourceView {
                                client: old(self)@.client,
                                buf: bytes,
                                pos: c.len() as int,
                                done: false,
                            })
                            &&& final(hub)@.subs == old(hub)@.subs.update(
                                j,
                                SubscriptionView {
                                    queue: s.queue.drop_first(),
                                    observed: s.observed.push(s.queue[0]),
                                    ..s
                                },
                            )
                        }
                    })
            }),
    {
        if capacity == 0 {
            return PollRead::Bytes(Vec::new());
        }
        let refill_needed = match &self.state {
            ReadState::Done => false,
            ReadState::Reading(buf, pos) => *pos >= buf.len(),
        };
        if refill_needed {
            match self.client.poll_next(hub) {
                PollNext::Pending => {
                    return PollRead::Pending;
                },
                PollNext::Closed => {
                    self.state = ReadState::Done;
                    return PollRead::Eof;
                },
                PollNext::Ready(n) => {
                    let ghost nv = n@;
                    let bytes = n.to_message().serialize();
                    proof {
                        assert(bytes@ == notification_bytes(nv));
                    }
                    self.state = ReadState::Reading(bytes, 0);
                },
            }
        }
        match &mut self.state {
            ReadState::Done => PollRead::Eof,
            ReadState::Reading(buf, pos) => {
                let out = copy_chunk(buf, *pos, capacity);
                *pos = *pos + out.len();
                PollRead::Bytes(out)
            },
        }
    }

    /// Detaches this stream's consumer from the hub, as closing the client
    /// connection does: the subscription stays in membership until a send
    /// attempt or the next sweep notices.
    pub fn disconnect(self, hub: &mut ChangeBroadcaster)
        requires
            old(hub).wf(),
        ensures
            final(hub).wf(),
            final(hub)@.next_id == old(hub)@.next_id,
            final(hub)@.capacity == old(hub)@.capacity,
            (forall|j: int|
                0 <= j < old(hub)@.subs.len() ==> (#[trigger] old(hub)@.subs[j]).id != self@.client)
                ==> final(hub)@ == old(hub)@,
            forall|j: int|
                0 <= j < old(hub)@.subs.len() && (#[trigger] old(hub)@.subs[j]).id == self@.client
                    ==> final(hub)@.subs == old(hub)@.subs.update(
                    j,
                    SubscriptionView {
                        consumer_open: false,
                        live: false,
                        ..old(hub)@.subs[j]
                    },
                ),
    {
        self.client.disconnect(hub);
    }
}

/// The response headers of the event-stream endpoint: an incremental
/// `text/event-stream` body that must never be cached.
pub fn stream_headers() -> (r: Vec<(String, String)>)
    ensures
        r@.len() == 3,
        r@[0].0@ == "Content-Type"@ && r@[0].1@ == "text/event-stream"@,
        r@[1].0@ == "Cache-Control"@ && r@[1].1@ == "no-cache"@,
        r@[2].0@ == "Expires"@ && r@[2].1@ == "0"@,
{
    let mut r: Vec<(String, String)> = Vec::new();
    r.push(("Content-Type".to_owned(), "text/event-stream".to_owned()));
    r.push(("Cache-Control".to_owned(), "no-cache".to_owned()));
    r.push(("Expires".to_owned(), "0".to_owned()));
    r
}

} // verus!
