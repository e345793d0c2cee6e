//! The transport side: how frames become datagrams and datagrams become
//! frames, and how pending sends are gathered.

use vstd::prelude::*;

use crate::packet::{Frame, PeerAddr};

verus! {

/// Frames that go to one address in one datagram.
#[derive(Debug)]
pub struct FrameBatch {
    pub remote_addr: PeerAddr,
    pub frames: Vec<Frame>,
}

/// The frames of one datagram, and where it came from.
#[derive(Debug)]
pub struct ReceivedDatagram {
    pub remote_addr: PeerAddr,
    pub frames: Vec<Frame>,
}

/// Commands to the task that sends frames.
#[derive(Debug)]
pub enum TransportCommand<T> {
    /// Send a batch of frames.
    Send(FrameBatch),
    /// Go on with another transport.
    SwapTransport(T),
}

/// Commands to a task that owns a plain socket.
#[derive(Debug)]
pub enum SenderTaskCommand<S> {
    /// Send frames to an address.
    Send(FrameBatch),
    /// Go on with another socket.
    SwapSocket(S),
}

/// The batch that a command for a plain socket means to a transport. A change
/// of sockets means nothing to it: the transport sees to that itself.
pub fn adapt_command<S>(command: SenderTaskCommand<S>) -> (batch: Option<FrameBatch>)
    ensures
        batch == (match command {
            SenderTaskCommand::Send(batch) => Some(batch),
            SenderTaskCommand::SwapSocket(_) => None,
        }),
{
    match command {
        SenderTaskCommand::Send(batch) => Some(batch),
        SenderTaskCommand::SwapSocket(_) => None,
    }
}

/// The most batches that are gathered before they are sent.
pub const MAX_BATCH_SIZE: usize = 64;

/// All parts, one behind the other.
pub open spec fn concat(parts: Seq<Seq<u8>>) -> Seq<u8>
    decreases parts.len(),
{
    if parts.len() == 0 {
        Seq::empty()
    } else {
        concat(parts.drop_last()) + parts.last()
    }
}

/// The bytes of each vector.
pub open spec fn views(parts: Seq<Vec<u8>>) -> Seq<Seq<u8>> {
    parts.map_values(|part: Vec<u8>| part@)
}

/// Whether `buffer` holds `frames`, one behind the other, as `encode` writes each.
pub open spec fn written_as<E: Fn(&Frame) -> Vec<u8>>(
    encode: E,
    frames: Seq<Frame>,
    buffer: Seq<u8>,
) -> bool {
    exists|parts: Seq<Vec<u8>>|
        {
            &&& parts.len() == frames.len()
            &&& forall|i: int|
                0 <= i < parts.len() ==> call_ensures(encode, (&frames[i],), #[trigger] parts[i])
            &&& buffer == concat(#[trigger] views(parts))
        }
}

/// The bytes of `frames`, one behind the other, as `encode` writes each.
pub fn serialize_frames<E: Fn(&Frame) -> Vec<u8>>(frames: &[Frame], encode: E) -> (buffer: Vec<
    u8,
>)
    requires
        forall|i: int| 0 <= i < frames@.len() ==> call_requires(encode, (&#[trigger] frames@[i],)),
    ensures
        written_as(encode, frames@, buffer@),
{
    let mut buffer: Vec<u8> = Vec::new();
    let ghost mut parts: Seq<Vec<u8>> = Seq::empty();
    let mut i: usize = 0;
    assert(views(parts) =~= Seq::empty());
    while i < frames.len()
        invariant
            i <= frames@.len(),
            forall|i: int|
                0 <= i < frames@.len() ==> call_requires(encode, (&#[trigger] frames@[i],)),
            parts.len() == i,
            forall|i: int|
                0 <= i < parts.len() ==> call_ensures(encode, (&frames@[i],), #[trigger] parts[i]),
            buffer@ == concat(views(parts)),
        decreases frames@.len() - i,
    {
        let mut part = encode(&frames[i]);
        proof {
            let more = parts.push(part);
            assert(views(more).drop_last() =~= views(parts));
            assert(views(more).last() == part@);
            parts = more;
        }
        buffer.append(&mut part);
        i = i + 1;
    }
    buffer
}

/// Whether `frames` are what `decode` reads from `buffer`, frame by frame from
/// the start: up to the end of the buffer, or to the first position where
/// `decode` finds no frame. `starts` holds the position of each frame, and the
/// position behind the last one.
pub open spec fn reads_as<D: Fn(&[u8], usize) -> Option<(Frame, usize)>>(
    decode: D,
    buffer: &[u8],
    frames: Seq<Frame>,
    starts: Seq<usize>,
) -> bool {
    &&& starts.len() == frames.len() + 1
    &&& starts[0] == 0
    &&& forall|i: int|
        0 <= i < frames.len() ==> (#[trigger] starts[i]) < buffer@.len() && call_ensures(
            decode,
            (buffer, starts[i]),
            Some((frames[i], starts[i + 1])),
        )
    &&& starts.last() >= buffer@.len() || call_ensures(
        decode,
        (buffer, starts.last()),
        None::<(Frame, usize)>,
    )
}

/// The frames of a datagram. `decode` reads the frame at a position of the
/// datagram and says where the next one starts; where it finds none, reading stops.
pub fn deserialize_frames<D: Fn(&[u8], usize) -> Option<(Frame, usize)>>(
    buffer: &[u8],
    decode: D,
) -> (frames: Vec<Frame>)
    requires
        forall|pos: usize| pos < buffer@.len() ==> #[trigger] call_requires(decode, (buffer, pos)),
        forall|pos: usize, frame: Frame, next: usize| #[trigger]
            call_ensures(decode, (buffer, pos), Some((frame, next))) ==> pos < next
                <= buffer@.len(),
    ensures
        exists|starts: Seq<usize>| #[trigger] reads_as(decode, buffer, frames@, starts),
{
    let mut frames: Vec<Frame> = Vec::new();
    let mut pos: usize = 0;
    let ghost mut starts: Seq<usize> = seq![0usize];
    while pos < buffer.len()
        invariant
            forall|pos: usize|
                pos < buffer@.len() ==> #[trigger] call_requires(decode, (buffer, pos)),
            forall|pos: usize, frame: Frame, next: usize| #[trigger]
                call_ensures(decode, (buffer, pos), Some((frame, next))) ==> pos < next
                    <= buffer@.len(),
            pos <= buffer@.len(),
            starts.len() == frames@.len() + 1,
            starts[0] == 0,
            starts.last() == pos,
            forall|i: int|
                0 <= i < frames@.len() ==> (#[trigger] starts[i]) < buffer@.len() && call_ensures(
                    decode,
                    (buffer, starts[i]),
                    Some((frames@[i], starts[i + 1])),
                ),
        decreases buffer@.len() - pos,
    {
        match decode(buffer, pos) {
            Some((frame, next)) => {
                frames.push(frame);
                proof {
                    starts = starts.push(next);
                }
                pos = next;
            },
            None => {
                assert(reads_as(decode, buffer, frames@, starts));
                return frames;
            },
        }
    }
    assert(reads_as(decode, buffer, frames@, starts));
    frames
}

/// The datagram for a batch, or nothing where the batch holds no frame.
pub fn datagram_for<E: Fn(&Frame) -> Vec<u8>>(batch: &FrameBatch, encode: E) -> (datagram: Option<
    Vec<u8>,
>)
    requires
        forall|i: int|
            0 <= i < batch.frames@.len() ==> call_requires(encode, (&#[trigger] batch.frames@[i],)),
    ensures
        match datagram {
            None => batch.frames@.len() == 0,
            Some(buffer) => batch.frames@.len() > 0 && written_as(
                encode,
                batch.frames@,
                buffer@,
            ),
        },
{
    if batch.frames.len() == 0 {
        None
    } else {
        Some(serialize_frames(&batch.frames, encode))
    }
}

/// The datagram that holds all frames of a batch, or nothing where it would hold
/// no byte.
pub fn coalesce_frames<E: Fn(&Frame) -> Vec<u8>>(batch: &FrameBatch, encode: E) -> (datagram:
    Option<Vec<u8>>)
    requires
        forall|i: int|
            0 <= i < batch.frames@.len() ==> call_requires(encode, (&#[trigger] batch.frames@[i],)),
    ensures
        match datagram {
            None => written_as(encode, batch.frames@, Seq::<u8>::empty()),
            Some(buffer) => buffer@.len() > 0 && written_as(encode, batch.frames@, buffer@),
        },
{
    let buffer = serialize_frames(&batch.frames, encode);
    if buffer.len() == 0 {
        assert(buffer@ =~= Seq::<u8>::empty());
        None
    } else {
        Some(buffer)
    }
}

/// What became of a poll of the command channel.
#[derive(Debug)]
pub struct Polled<T> {
    /// Whether to go on polling.
    pub more: bool,
    /// A command that is no batch, still to be carried out.
    pub other: Option<TransportCommand<T>>,
}

/// The commands behind gathered batches and the command that ended the gathering.
pub open spec fn commands_behind<T>(
    batches: Seq<FrameBatch>,
    other: Option<TransportCommand<T>>,
) -> Seq<TransportCommand<T>> {
    let sends = batches.map_values(|batch: FrameBatch| TransportCommand::<T>::Send(batch));
    match other {
        Some(command) => sends.push(command),
        None => sends,
    }
}

/// Whether the batches `after` and `taken` are what comes of polling with the
/// batches `before` at hand: a batch joins them, and any other command is handed
/// back and ends the gathering, as an empty channel does.
pub open spec fn gathered<T>(
    before: Seq<FrameBatch>,
    polled: Option<TransportCommand<T>>,
    after: Seq<FrameBatch>,
    taken: Polled<T>,
) -> bool {
    match polled {
        Some(TransportCommand::Send(batch)) => {
            &&& after == before.push(batch)
            &&& taken.more == (after.len() < MAX_BATCH_SIZE)
            &&& taken.other is None
        },
        _ => {
            &&& after == before
            &&& !taken.more
            &&& taken.other == polled
        },
    }
}

/// Batches gathered for sending, in the order in which they came.
#[derive(Debug)]
pub struct SendQueue {
    batches: Vec<FrameBatch>,
}

impl View for SendQueue {
    type V = Seq<FrameBatch>;

    closed spec fn view(&self) -> Seq<FrameBatch> {
        self.batches@
    }
}

impl SendQueue {
    /// A queue that starts with `first`.
    pub fn new(first: FrameBatch) -> (queue: Self)
        ensures
            queue@ == seq![first],
    {
        let mut batches: Vec<FrameBatch> = Vec::new();
        batches.push(first);
        let queue = SendQueue { batches };
        assert(queue@ =~= seq![first]);
        queue
    }

    /// Whether more commands are to be polled.
    pub fn has_room(&self) -> (room: bool)
        ensures
            room == (self@.len() < MAX_BATCH_SIZE),
    {
        self.batches.len() < MAX_BATCH_SIZE
    }

    /// Takes note of what polling the command channel gave. Only a further batch
    /// keeps the gathering going. Anything else ends it, and a command other than
    /// a batch is handed back, to be carried out once the gathered batches are sent.
    pub fn offer<T>(&mut self, polled: Option<TransportCommand<T>>) -> (taken: Polled<T>)
        requires
            old(self)@.len() < MAX_BATCH_SIZE,
        ensures
            gathered(old(self)@, polled, final(self)@, taken),
    {
        match polled {
            Some(TransportCommand::Send(batch)) => {
                self.batches.push(batch);
                Polled { more: self.has_room(), other: None }
            },
            other => Polled { more: false, other },
        }
    }

    /// The batches to send.
    pub fn into_batches(self) -> (batches: Vec<FrameBatch>)
        ensures
            batches@ == self@,
    {
        self.batches
    }
}

/// A command that is polled is neither lost nor moved: sending the gathered
/// batches and carrying out what was handed back is carrying out the commands in
/// the order in which they came.
pub proof fn law_polled_commands_keep_their_order<T>(
    before: Seq<FrameBatch>,
    command: TransportCommand<T>,
    after: Seq<FrameBatch>,
    taken: Polled<T>,
)
    requires
        gathered(before, Some(command), after, taken),
    ensures
        commands_behind(after, taken.other) == commands_behind::<T>(before, None).push(command),
{
    assert(commands_behind(after, taken.other) =~= commands_behind::<T>(before, None).push(
        command,
    ));
}

/// What is read back from the encoding of frames are those frames, for every
/// encoding `enc` that takes at least one byte per frame and that `decode`
/// recognises wherever it stands.
pub proof fn law_frames_survive_the_wire<D: Fn(&[u8], usize) -> Option<(Frame, usize)>>(
    decode: D,
    enc: spec_fn(Frame) -> Seq<u8>,
    buffer: &[u8],
    sent: Seq<Frame>,
    received: Seq<Frame>,
    starts: Seq<usize>,
)
    requires
        buffer@ == concat(sent.map_values(enc)),
        forall|f: Frame| (#[trigger] enc(f)).len() > 0,
        forall|pos: usize, f: Frame, got: Option<(Frame, usize)>|
            pos + (#[trigger] enc(f)).len() <= buffer@.len() && buffer@.subrange(
                pos as int,
                pos + enc(f).len(),
            ) == enc(f) && #[trigger] call_ensures(decode, (buffer, pos), got) ==> got is Some
                && (got->0).0 == f && (got->0).1 == pos + enc(f).len(),
        reads_as(decode, buffer, received, starts),
    ensures
        received == sent,
{
    lemma_prefix_read(decode, enc, buffer, sent, received, starts, sent.len());
    lemma_concat_prefix(sent.map_values(enc), sent.len() as int);
    assert(sent.map_values(enc).take(sent.len() as int) =~= sent.map_values(enc));
    if received.len() > sent.len() {
        assert(starts[sent.len() as int] < buffer@.len());
    }
    assert(received.take(sent.len() as int) =~= received);
    assert(sent.take(sent.len() as int) =~= sent);
}

/// A prefix of the parts is a prefix of the whole.
proof fn lemma_concat_prefix(parts: Seq<Seq<u8>>, n: int)
    requires
        0 <= n <= parts.len(),
    ensures
        concat(parts.take(n)).len() <= concat(parts).len(),
        concat(parts).subrange(0, concat(parts.take(n)).len() as int) == concat(parts.take(n)),
    decreases parts.len(),
{
    if n == parts.len() {
        assert(parts.take(n) =~= parts);
        assert(concat(parts).subrange(0, concat(parts).len() as int) =~= concat(parts));
    } else {
        lemma_concat_prefix(parts.drop_last(), n);
        assert(parts.drop_last().take(n) =~= parts.take(n));
        let m = concat(parts.take(n)).len() as int;
        assert(concat(parts).subrange(0, m) =~= concat(parts.drop_last()).subrange(0, m));
    }
}

/// The first `n` frames are read as they were written.
proof fn lemma_prefix_read<D: Fn(&[u8], usize) -> Option<(Frame, usize)>>(
    decode: D,
    enc: spec_fn(Frame) -> Seq<u8>,
    buffer: &[u8],
    sent: Seq<Frame>,
    received: Seq<Frame>,
    starts: Seq<usize>,
    n: nat,
)
    requires
        n <= sent.len(),
        buffer@ == concat(sent.map_values(enc)),
        forall|f: Frame| (#[trigger] enc(f)).len() > 0,
        forall|pos: usize, f: Frame, got: Option<(Frame, usize)>|
            pos + (#[trigger] enc(f)).len() <= buffer@.len() && buffer@.subrange(
                pos as int,
                pos + enc(f).len(),
            ) == enc(f) && #[trigger] call_ensures(decode, (buffer, pos), got) ==> got is Some
                && (got->0).0 == f && (got->0).1 == pos + enc(f).len(),
        reads_as(decode, buffer, received, starts),
    ensures
        received.len() >= n,
        received.take(n as int) == sent.take(n as int),
        starts[n as int] == concat(sent.map_values(enc).take(n as int)).len(),
    decreases n,
{
    let parts = sent.map_values(enc);
    if n == 0 {
        assert(parts.take(0) =~= Seq::empty());
        assert(received.take(0) =~= sent.take(0));
    } else {
        let k = (n - 1) as nat;
        lemma_prefix_read(decode, enc, buffer, sent, received, starts, k);
        let pos = starts[k as int];
        let f = sent[k as int];
        lemma_concat_prefix(parts, n as int);
        assert(parts.take(n as int).drop_last() =~= parts.take(k as int));
        assert(parts.take(n as int).last() == enc(f));
        let upto = concat(parts.take(n as int));
        assert(upto == concat(parts.take(k as int)) + enc(f));
        assert(upto.len() == pos + enc(f).len());
        assert(upto.subrange(pos as int, pos + enc(f).len()) =~= enc(f));
        assert(buffer@.subrange(pos as int, pos + enc(f).len()) =~= buffer@.subrange(
            0,
            upto.len() as int,
        ).subrange(pos as int, pos + enc(f).len()));
        if received.len() == k {
            assert(starts.last() == pos);
            assert(call_ensures(decode, (buffer, pos), None::<(Frame, usize)>));
            assert(false);
        }
        assert(call_ensures(decode, (buffer, pos), Some((received[k as int], starts[n as int]))));
        assert(received.take(n as int) =~= received.take(k as int).push(received[k as int]));
        assert(sent.take(n as int) =~= sent.take(k as int).push(f));
    }
}

} // verus!
