//! What happens on two streams before they are copied into each other.
//!
//! In the client mode the stream `A` is a local client and `B` leads to a relay
//! in the server mode; in the server mode `A` comes from a relay in the client
//! mode and `B` leads to the upstream service. Between the two relays each
//! direction opens with an obfuscation prefix, and behind it comes the first
//! chunk of the payload, masked as all of the payload is. The caller reads and
//! writes; what is decided here is what to read and to write, in which order.

use vstd::prelude::*;
use vstd::utf8::encode_utf8;

use crate::obfs::{
    consume_dynamic_obfs_v2, generate_dynamic_obfs_v2, lemma_key_bytes, prefix_from, read_header,
    receiver_strips_what_sender_adds, strip_prefix, HEADER_LEN, PROBE_DELAY_SECS,
};

verus! {

/// The key that the relays share.
pub const OBFS_KEY: &'static str = "bytehub_obfs_key_2024";

/// The bytes of the key that the relays share.
pub open spec fn relay_key() -> Seq<u8> {
    encode_utf8(OBFS_KEY@)
}

/// The key that the relays share holds at least one character.
proof fn lemma_relay_key()
    ensures
        OBFS_KEY@.len() > 0,
        relay_key().len() > 0,
{
    reveal_strlit("bytehub_obfs_key_2024");
    lemma_key_bytes(OBFS_KEY@);
}

/// The byte that the payload between two relays is masked with.
pub const PAYLOAD_MASK: u8 = 0x5a;

/// How many bytes the first chunk of a payload holds at most.
pub const FIRST_CHUNK_LEN: usize = 8192;

/// How many milliseconds the first chunk of a payload is waited for.
pub const FIRST_CHUNK_WAIT_MS: u64 = 200;

/// The mode in which a relay copies without obfuscation.
pub const MODE_PLAIN: u8 = 0;

/// The mode of the relay next to the client.
pub const MODE_CLIENT: u8 = 1;

/// The mode of the relay next to the upstream service.
pub const MODE_SERVER: u8 = 2;

// ---------------------------------------------------------------------------
// The payload
// ---------------------------------------------------------------------------

/// `payload` with every byte masked.
pub open spec fn masked(payload: Seq<u8>) -> Seq<u8> {
    payload.map_values(|b: u8| b ^ PAYLOAD_MASK)
}

/// Masks every byte of `payload`. Masking once more brings it back.
pub fn mask(payload: &[u8]) -> (out: Vec<u8>)
    ensures
        out@ == masked(payload@),
{
    let mut out: Vec<u8> = Vec::with_capacity(payload.len());
    for i in 0..payload.len()
        invariant
            out@.len() == i,
            forall|j: int| 0 <= j < i ==> #[trigger] out@[j] == payload@[j] ^ PAYLOAD_MASK,
    {
        out.push(payload[i] ^ PAYLOAD_MASK);
    }
    assert(out@ =~= masked(payload@));
    out
}

/// Masking twice changes nothing.
pub proof fn mask_undoes_itself(payload: Seq<u8>)
    ensures
        masked(masked(payload)) == payload,
{
    assert forall|i: int| 0 <= i < payload.len() implies masked(masked(payload))[i]
        == payload[i] by {
        let b = payload[i];
        assert((b ^ 0x5au8) ^ 0x5au8 == b) by (bit_vector);
    }
    assert(masked(masked(payload)) =~= payload);
}

/// The first chunk of a payload: what was read into `buf`, so many bytes, or
/// nothing where the read failed or took too long.
pub fn read_first_chunk(buf: Vec<u8>, read: Option<usize>) -> (chunk: Vec<u8>)
    requires
        read matches Some(n) ==> n <= buf@.len(),
    ensures
        chunk@ == (match read {
            Some(n) => buf@.take(n as int),
            None => Seq::<u8>::empty(),
        }),
{
    match read {
        Some(n) => {
            let mut chunk: Vec<u8> = buf;
            chunk.truncate(n);
            chunk
        },
        None => Vec::new(),
    }
}

/// What opens a direction: the prefix, and behind it the first chunk, masked.
pub fn opening(prefix: Vec<u8>, first_chunk: &[u8]) -> (bytes: Vec<u8>)
    ensures
        bytes@ == prefix@ + masked(first_chunk@),
{
    let mut bytes: Vec<u8> = prefix;
    let mut payload: Vec<u8> = mask(first_chunk);
    bytes.append(&mut payload);
    bytes
}

/// Whether `bytes` opens a direction under `key`: some prefix that a sender makes,
/// and behind it the first chunk, masked.
pub open spec fn opens(bytes: Seq<u8>, key: Seq<u8>, first_chunk: Seq<u8>) -> bool {
    exists|seed: u64| bytes == #[trigger] prefix_from(seed, key) + masked(first_chunk)
}

/// Of what opens a direction, the other relay takes off the prefix and is left
/// with the first chunk, masked as the rest of the payload will be; unmasking
/// gives the chunk back.
pub proof fn other_relay_gets_first_chunk(bytes: Seq<u8>, key: Seq<u8>, first_chunk: Seq<u8>)
    requires
        key.len() > 0,
        opens(bytes, key, first_chunk),
    ensures
        strip_prefix(bytes, key) == Some(masked(first_chunk)),
        masked(masked(first_chunk)) == first_chunk,
{
    let seed = choose|seed: u64| bytes == #[trigger] prefix_from(seed, key) + masked(first_chunk);
    receiver_strips_what_sender_adds(seed, key, masked(first_chunk));
    mask_undoes_itself(first_chunk);
}

// ---------------------------------------------------------------------------
// The order of events
// ---------------------------------------------------------------------------

/// One of the two streams.
#[derive(Debug, Clone, Copy, PartialEq, Eq, Structural)]
pub enum Side {
    A,
    B,
}

/// Which of the two relays this one is.
#[derive(Debug, Clone, Copy, PartialEq, Eq, Structural)]
pub enum Role {
    Client,
    Server,
}

/// What is waited for.
#[derive(Debug, Clone, Copy, PartialEq, Eq, Structural)]
pub enum Phase {
    /// The first chunk of the payload that goes to the other relay.
    Chunk,
    /// That the opening is written to the other relay.
    Write,
    /// The header that the other relay sent.
    Header,
    /// The garbage behind that header, so many bytes.
    Garbage(usize),
    /// That the delay before the stream is dropped is over.
    Delay,
    /// Nothing more.
    Over,
}

/// What the caller has to do.
#[derive(Debug, PartialEq, Eq)]
pub enum HandshakeAction {
    /// Read the first chunk of a payload, waiting for a short while.
    ReadFirst(Side),
    /// Write these bytes.
    Write(Side, Vec<u8>),
    /// Read exactly so many bytes.
    ReadExact(Side, usize),
    /// Wait for so many seconds.
    Sleep(u64),
    /// Copy in both directions.
    Relay,
    /// Fail: the header does not authenticate.
    Reject,
    /// Fail: the clock stands before the Unix epoch, so there is no seed.
    NoClock,
}

/// What came of the last action.
#[derive(Debug, PartialEq, Eq)]
pub enum HandshakeEvent {
    /// The first chunk of a payload; empty where none came in time.
    Chunk(Vec<u8>),
    /// All bytes are written.
    Written,
    /// The bytes that were asked for.
    Bytes(Vec<u8>),
    /// The wait is over.
    Slept,
}

/// A handshake under way.
#[derive(Debug, Clone, Copy, PartialEq, Eq, Structural)]
pub struct Handshake {
    pub role: Role,
    pub phase: Phase,
}

impl Role {
    /// The stream that leads to the other relay.
    pub open spec fn spec_relay_side(self) -> Side {
        match self {
            Role::Client => Side::B,
            Role::Server => Side::A,
        }
    }

    /// The stream that carries the plain payload.
    pub open spec fn spec_plain_side(self) -> Side {
        match self {
            Role::Client => Side::A,
            Role::Server => Side::B,
        }
    }

    /// The stream that leads to the other relay.
    pub fn relay_side(self) -> (side: Side)
        ensures
            side == self.spec_relay_side(),
    {
        match self {
            Role::Client => Side::B,
            Role::Server => Side::A,
        }
    }

    /// The stream that carries the plain payload.
    pub fn plain_side(self) -> (side: Side)
        ensures
            side == self.spec_plain_side(),
    {
        match self {
            Role::Client => Side::A,
            Role::Server => Side::B,
        }
    }
}

impl Handshake {
    /// Whether `event` is what this handshake waits for.
    pub open spec fn awaits(self, event: HandshakeEvent) -> bool {
        match (self.phase, event) {
            (Phase::Chunk, HandshakeEvent::Chunk(_)) => true,
            (Phase::Write, HandshakeEvent::Written) => true,
            (Phase::Header, HandshakeEvent::Bytes(header)) => header@.len() == HEADER_LEN,
            (Phase::Garbage(n), HandshakeEvent::Bytes(garbage)) => garbage@.len() == n,
            (Phase::Delay, HandshakeEvent::Slept) => true,
            _ => false,
        }
    }

    /// How many more events a handshake can take.
    pub open spec fn events_left(self) -> nat {
        match (self.role, self.phase) {
            (_, Phase::Over) => 0,
            (_, Phase::Delay) => 1,
            (Role::Client, Phase::Chunk) => 4,
            (Role::Client, Phase::Write) => 3,
            (Role::Client, Phase::Header) => 2,
            (Role::Client, Phase::Garbage(_)) => 1,
            (Role::Server, Phase::Header) => 4,
            (Role::Server, Phase::Garbage(_)) => 3,
            (Role::Server, Phase::Chunk) => 2,
            (Role::Server, Phase::Write) => 1,
        }
    }

    /// Whether `action` and `phase` are what follows `event` under `key`.
    ///
    /// The client sends its opening first and then reads that of the server; the
    /// server reads first and then sends.
    pub open spec fn follows(
        self,
        event: HandshakeEvent,
        key: Seq<u8>,
        phase: Phase,
        action: HandshakeAction,
    ) -> bool {
        match (self.phase, event) {
            (Phase::Chunk, HandshakeEvent::Chunk(chunk)) => {
                ||| action is NoClock && phase is Over
                ||| {
                    &&& action matches HandshakeAction::Write(side, bytes)
                    &&& side == self.role.spec_relay_side()
                    &&& opens(bytes@, key, chunk@)
                    &&& phase is Write
                }
            },
            (Phase::Write, HandshakeEvent::Written) => match self.role {
                Role::Client => {
                    &&& phase is Header
                    &&& action == HandshakeAction::ReadExact(
                        self.role.spec_relay_side(),
                        HEADER_LEN,
                    )
                },
                Role::Server => phase is Over && action is Relay,
            },
            (Phase::Header, HandshakeEvent::Bytes(header)) => match read_header(header@, key) {
                Ok(garbage) => {
                    &&& phase matches Phase::Garbage(n)
                    &&& n == garbage
                    &&& action == HandshakeAction::ReadExact(self.role.spec_relay_side(), n)
                },
                Err(_) => {
                    &&& phase is Delay
                    &&& action == HandshakeAction::Sleep(PROBE_DELAY_SECS)
                },
            },
            (Phase::Garbage(_), HandshakeEvent::Bytes(_)) => match self.role {
                Role::Client => phase is Over && action is Relay,
                Role::Server => {
                    &&& phase is Chunk
                    &&& action == HandshakeAction::ReadFirst(self.role.spec_plain_side())
                },
            },
            (Phase::Delay, HandshakeEvent::Slept) => phase is Over && action is Reject,
            _ => false,
        }
    }

    /// Goes on once the first chunk is there: with the prefix that was made, the
    /// opening is written to the other relay; without one, because the clock could
    /// not seed it, the handshake is over.
    pub fn send_opening(&mut self, prefix: Option<Vec<u8>>, chunk: &[u8]) -> (action:
        HandshakeAction)
        ensures
            final(self).role == old(self).role,
            match prefix {
                Some(p) => {
                    &&& final(self).phase is Write
                    &&& action matches HandshakeAction::Write(side, bytes)
                    &&& side == old(self).role.spec_relay_side()
                    &&& bytes@ == p@ + masked(chunk@)
                },
                None => final(self).phase is Over && action is NoClock,
            },
    {
        match prefix {
            Some(made) => {
                self.phase = Phase::Write;
                HandshakeAction::Write(self.role.relay_side(), opening(made, chunk))
            },
            None => {
                self.phase = Phase::Over;
                HandshakeAction::NoClock
            },
        }
    }

    /// Takes in what came of the last action and tells what to do next. After a
    /// first chunk that hangs on the clock, which seeds the prefix;
    /// [`Handshake::send_opening`] says what follows either way.
    pub fn next(&mut self, event: HandshakeEvent) -> (action: HandshakeAction)
        requires
            old(self).awaits(event),
        ensures
            final(self).role == old(self).role,
            old(self).follows(event, relay_key(), final(self).phase, action),
            final(self).events_left() < old(self).events_left(),
    {
        proof {
            lemma_relay_key();
        }
        match event {
            HandshakeEvent::Chunk(chunk) => {
                let prefix: Option<Vec<u8>> = generate_dynamic_obfs_v2(OBFS_KEY);
                let ghost made = prefix->0@;
                let action: HandshakeAction = self.send_opening(prefix, chunk.as_slice());
                proof {
                    if prefix is Some {
                        let seed = choose|seed: u64|
                            made == #[trigger] prefix_from(seed, relay_key());
                        assert(action->Write_1@ == prefix_from(seed, relay_key()) + masked(
                            chunk@,
                        ));
                    }
                }
                action
            },
            HandshakeEvent::Written => match self.role {
                Role::Client => {
                    self.phase = Phase::Header;
                    HandshakeAction::ReadExact(self.role.relay_side(), HEADER_LEN)
                },
                Role::Server => {
                    self.phase = Phase::Over;
                    HandshakeAction::Relay
                },
            },
            HandshakeEvent::Bytes(bytes) => match self.phase {
                Phase::Header => match consume_dynamic_obfs_v2(bytes.as_slice(), OBFS_KEY) {
                    Ok(garbage) => {
                        self.phase = Phase::Garbage(garbage);
                        HandshakeAction::ReadExact(self.role.relay_side(), garbage)
                    },
                    Err(_) => {
                        self.phase = Phase::Delay;
                        HandshakeAction::Sleep(PROBE_DELAY_SECS)
                    },
                },
                _ => match self.role {
                    Role::Client => {
                        self.phase = Phase::Over;
                        HandshakeAction::Relay
                    },
                    Role::Server => {
                        self.phase = Phase::Chunk;
                        HandshakeAction::ReadFirst(self.role.plain_side())
                    },
                },
            },
            HandshakeEvent::Slept => {
                self.phase = Phase::Over;
                HandshakeAction::Reject
            },
        }
    }
}

/// Begins the handshake of a mode: the client waits for a first chunk of payload,
/// the server for a header, and in every other mode there is no handshake.
pub fn bidi_copy_buf(mode: u8) -> (start: (Option<Handshake>, HandshakeAction))
    ensures
        mode == MODE_CLIENT ==> start.0 == Some(
            Handshake { role: Role::Client, phase: Phase::Chunk },
        ) && start.1 == HandshakeAction::ReadFirst(Side::A),
        mode == MODE_SERVER ==> start.0 == Some(
            Handshake { role: Role::Server, phase: Phase::Header },
        ) && start.1 == HandshakeAction::ReadExact(Side::A, HEADER_LEN),
        mode != MODE_CLIENT && mode != MODE_SERVER ==> start.0 is None && start.1 is Relay,
{
    if mode == MODE_CLIENT {
        (
            Some(Handshake { role: Role::Client, phase: Phase::Chunk }),
            HandshakeAction::ReadFirst(Side::A),
        )
    } else if mode == MODE_SERVER {
        (
            Some(Handshake { role: Role::Server, phase: Phase::Header }),
            HandshakeAction::ReadExact(Side::A, HEADER_LEN),
        )
    } else {
        (None, HandshakeAction::Relay)
    }
}

/// A header that does not authenticate never leads to a relay: the one thing
/// that can follow the delay is that the stream is dropped, and then the
/// handshake is over.
pub proof fn bad_header_is_never_relayed(
    handshake: Handshake,
    header: HandshakeEvent,
    phase: Phase,
    action: HandshakeAction,
    event: HandshakeEvent,
    last_phase: Phase,
    last_action: HandshakeAction,
)
    requires
        handshake.phase is Header,
        handshake.awaits(header),
        read_header(header->Bytes_0@, relay_key()) is Err,
        handshake.follows(header, relay_key(), phase, action),
        (Handshake { phase, ..handshake }).follows(event, relay_key(), last_phase, last_action),
    ensures
        action == HandshakeAction::Sleep(PROBE_DELAY_SECS),
        last_action is Reject,
        last_phase is Over,
        forall|e: HandshakeEvent| !(Handshake { phase: last_phase, ..handshake }).awaits(e),
{
}

/// What one relay opens a direction with, the other one accepts: its header
/// passes, as much garbage as it tells is there, and behind that comes the first
/// chunk, masked.
pub proof fn opening_is_accepted(bytes: Seq<u8>, first_chunk: Seq<u8>)
    requires
        opens(bytes, relay_key(), first_chunk),
    ensures
        bytes.len() >= HEADER_LEN,
        read_header(bytes.take(HEADER_LEN as int), relay_key()) matches Ok(garbage) && bytes.len()
            >= HEADER_LEN + garbage && bytes.skip(HEADER_LEN + garbage) == masked(first_chunk),
{
    lemma_relay_key();
    other_relay_gets_first_chunk(bytes, relay_key(), first_chunk);
}

/// A relay of either role that waits for a header, and is sent what the other one
/// opens a direction with, reads the header and the garbage and goes on; what it has
/// not read by then is the first chunk, masked.
pub proof fn receiver_reads_up_to_first_chunk(
    receiver: Handshake,
    bytes: Seq<u8>,
    first_chunk: Seq<u8>,
    header: Vec<u8>,
    phase: Phase,
    action: HandshakeAction,
    garbage: Vec<u8>,
    next_phase: Phase,
    next_action: HandshakeAction,
)
    requires
        receiver.phase is Header,
        opens(bytes, relay_key(), first_chunk),
        header@ == bytes.take(HEADER_LEN as int),
        receiver.follows(HandshakeEvent::Bytes(header), relay_key(), phase, action),
        phase matches Phase::Garbage(n) ==> garbage@ == bytes.subrange(
            HEADER_LEN as int,
            HEADER_LEN + n,
        ),
        (Handshake { phase, ..receiver }).follows(
            HandshakeEvent::Bytes(garbage),
            relay_key(),
            next_phase,
            next_action,
        ),
    ensures
        receiver.awaits(HandshakeEvent::Bytes(header)),
        phase is Garbage,
        (Handshake { phase, ..receiver }).awaits(HandshakeEvent::Bytes(garbage)),
        action == HandshakeAction::ReadExact(receiver.role.spec_relay_side(), phase->Garbage_0),
        match receiver.role {
            Role::Client => next_action is Relay,
            Role::Server => next_action == HandshakeAction::ReadFirst(Side::B),
        },
        bytes.skip(HEADER_LEN + phase->Garbage_0) == masked(first_chunk),
{
    opening_is_accepted(bytes, first_chunk);
}

// ---------------------------------------------------------------------------
// What the steps of a handshake do
// ---------------------------------------------------------------------------

/// Masking leaves the length and changes every byte by exclusive or with one and the
/// same byte, wherever it stands; so a payload can be masked piece by piece.
pub proof fn every_byte_is_masked(payload: Seq<u8>, more: Seq<u8>)
    ensures
        masked(payload).len() == payload.len(),
        forall|i: int|
            0 <= i < payload.len() ==> #[trigger] masked(payload)[i] == payload[i] ^ 0x5au8,
        masked(payload + more) == masked(payload) + masked(more),
{
    assert(masked(payload + more) =~= masked(payload) + masked(more));
}

/// A relay that has its first chunk sends it whole: of what it writes, the other relay
/// takes off the prefix, and every byte of the chunk is left, masked, in order and
/// nothing behind it. It writes to the other relay alone, and where it writes nothing
/// the handshake is over.
pub proof fn first_chunk_is_sent_whole(
    sender: Handshake,
    chunk: Vec<u8>,
    key: Seq<u8>,
    phase: Phase,
    action: HandshakeAction,
)
    requires
        key.len() > 0,
        sender.phase is Chunk,
        sender.follows(HandshakeEvent::Chunk(chunk), key, phase, action),
    ensures
        match action {
            HandshakeAction::Write(side, bytes) => {
                &&& phase is Write
                &&& side == if sender.role is Client {
                    Side::B
                } else {
                    Side::A
                }
                &&& strip_prefix(bytes@, key) matches Some(rest) && rest.len() == chunk@.len() && (
                forall|i: int| 0 <= i < chunk@.len() ==> #[trigger] rest[i] == chunk@[i] ^ 0x5au8)
            },
            HandshakeAction::NoClock => phase is Over,
            _ => false,
        },
{
    if let HandshakeAction::Write(side, bytes) = action {
        other_relay_gets_first_chunk(bytes@, key, chunk@);
        every_byte_is_masked(chunk@, chunk@);
    }
}

/// What the other relay takes off in front of a first chunk is a header of fourteen
/// bytes that passes, and as many bytes more as the header tells.
pub proof fn prefix_is_header_and_garbage(stream: Seq<u8>, key: Seq<u8>)
    ensures
        match strip_prefix(stream, key) {
            Some(rest) => {
                &&& stream.len() >= 14
                &&& read_header(stream.take(14), key) matches Ok(garbage) && stream.len() - 14
                    - garbage == rest.len() && rest == stream.skip(14 + garbage)
            },
            None => stream.len() < 14 || (match read_header(stream.take(14), key) {
                Ok(garbage) => stream.len() < 14 + garbage,
                Err(_) => true,
            }),
        },
{
    if strip_prefix(stream, key) is Some {
        let garbage = read_header(stream.take(14), key)->Ok_0;
        assert(garbage == crate::obfs::coded_len(
            crate::obfs::xor_key(stream.take(14), key).take(10),
        ));
        crate::obfs::lemma_coded_len_range(
            crate::obfs::xor_key(stream.take(14), key).take(10),
        );
    }
}

/// Every header that passes, in either role, is followed by as much garbage as it tells,
/// read from the stream that it came from; then the client relays, and the server goes
/// on to the payload of the upstream service.
pub proof fn header_that_passes_leads_on(
    receiver: Handshake,
    header: Vec<u8>,
    key: Seq<u8>,
    phase: Phase,
    action: HandshakeAction,
    garbage: Vec<u8>,
    next_phase: Phase,
    next_action: HandshakeAction,
)
    requires
        receiver.phase is Header,
        read_header(header@, key) is Ok,
        receiver.follows(HandshakeEvent::Bytes(header), key, phase, action),
        (Handshake { phase, ..receiver }).follows(
            HandshakeEvent::Bytes(garbage),
            key,
            next_phase,
            next_action,
        ),
    ensures
        phase matches Phase::Garbage(n) && n == read_header(header@, key)->Ok_0,
        receiver.role is Client ==> action == HandshakeAction::ReadExact(
            Side::B,
            phase->Garbage_0,
        ),
        receiver.role is Server ==> action == HandshakeAction::ReadExact(
            Side::A,
            phase->Garbage_0,
        ),
        receiver.role is Client ==> next_action is Relay && next_phase is Over,
        receiver.role is Server ==> next_action == HandshakeAction::ReadFirst(Side::B)
            && next_phase is Chunk,
{
}

/// Once its opening is written, the client waits for the header of the server, and the
/// server relays. So either relay begins to copy only after it has both sent its own
/// prefix and taken off the other's.
pub proof fn written_opening_leads_on(
    sender: Handshake,
    key: Seq<u8>,
    phase: Phase,
    action: HandshakeAction,
)
    requires
        sender.phase is Write,
        sender.follows(HandshakeEvent::Written, key, phase, action),
    ensures
        sender.role is Client ==> phase is Header && action == HandshakeAction::ReadExact(
            Side::B,
            14,
        ),
        sender.role is Server ==> phase is Over && action is Relay,
{
}

/// Every step of a handshake asks for something whose outcome the handshake then waits
/// for, whatever that outcome holds, or else ends the handshake.
pub proof fn outcome_of_every_action_is_awaited(
    handshake: Handshake,
    event: HandshakeEvent,
    key: Seq<u8>,
    phase: Phase,
    action: HandshakeAction,
    bytes: Vec<u8>,
)
    requires
        handshake.follows(event, key, phase, action),
    ensures
        ({
            let next = Handshake { phase, ..handshake };
            match action {
                HandshakeAction::ReadFirst(_) => next.awaits(HandshakeEvent::Chunk(bytes)),
                HandshakeAction::Write(_, _) => next.awaits(HandshakeEvent::Written),
                HandshakeAction::ReadExact(_, n) => next.awaits(HandshakeEvent::Bytes(bytes))
                    <==> bytes@.len() == n,
                HandshakeAction::Sleep(_) => next.awaits(HandshakeEvent::Slept),
                HandshakeAction::Relay | HandshakeAction::Reject | HandshakeAction::NoClock => forall|
                    e: HandshakeEvent,
                |
                    !next.awaits(e),
            }
        }),
{
}

/// A relay that begins waits for what it is asked to read: the client for a first chunk
/// of any length, the server for a header of fourteen bytes, whatever they hold.
pub proof fn beginning_awaits_any_outcome(bytes: Vec<u8>)
    ensures
        (Handshake { role: Role::Client, phase: Phase::Chunk }).awaits(
            HandshakeEvent::Chunk(bytes),
        ),
        (Handshake { role: Role::Server, phase: Phase::Header }).awaits(
            HandshakeEvent::Bytes(bytes),
        ) <==> bytes@.len() == 14,
{
}

} // verus!
