//! The frames that master and worker exchange.
//!
//! Every message opens with two bytes: a zero, then the command. A reply that
//! reports a score carries it next, as the eight big-endian bytes of its
//! binary64 pattern. A message that hands over an individual ends with a slot:
//! one byte 0 for "none held", or one byte 1 followed by the individual's own
//! encoding, which the frame does not look into.

use crate::fitness::{be_bytes, be_value, lemma_be_bytes_of_value, lemma_be_value_of_bytes, Fitness};
use vstd::prelude::*;

verus! {

/// The four commands of the protocol.
#[derive(Clone, Copy, Debug, PartialEq, Eq, Structural)]
pub enum Command {
    /// Command byte 1, master to worker: make a fresh individual. The worker
    /// answers with its score and the individual.
    Start,
    /// Command byte 2, master to worker: mutate and train the individual
    /// held. The worker answers with the new score.
    Train,
    /// Command byte 3, master to worker: hand over the individual held.
    Get,
    /// Command byte 4, master to worker: set the individual held to the one
    /// that follows. Never answered.
    Put,
}

/// Why bytes are not a message.
#[derive(Clone, Copy, Debug, PartialEq, Eq, Structural)]
pub enum WireError {
    /// The bytes end before the message does.
    Truncated,
    /// The first two bytes are no command of the protocol.
    UnknownOpcode,
    /// The command is one that is never sent in this direction.
    UnexpectedCommand,
    /// A slot opens with a byte other than 0 and 1.
    InvalidTag,
    /// Bytes follow the end of the message.
    TrailingBytes,
}

impl Command {
    /// The command's byte, the second of the opcode.
    pub open spec fn byte(self) -> u8 {
        match self {
            Command::Start => 1,
            Command::Train => 2,
            Command::Get => 3,
            Command::Put => 4,
        }
    }

    /// The two bytes of the opcode.
    pub open spec fn wire(self) -> Seq<u8> {
        seq![0u8, self.byte()]
    }

    /// The command that the first two of `bytes` spell.
    pub open spec fn parse(bytes: Seq<u8>) -> Result<Command, WireError> {
        if bytes.len() < 2 {
            Err(WireError::Truncated)
        } else if bytes[0] != 0 {
            Err(WireError::UnknownOpcode)
        } else if bytes[1] == 1 {
            Ok(Command::Start)
        } else if bytes[1] == 2 {
            Ok(Command::Train)
        } else if bytes[1] == 3 {
            Ok(Command::Get)
        } else if bytes[1] == 4 {
            Ok(Command::Put)
        } else {
            Err(WireError::UnknownOpcode)
        }
    }

    /// The opcode of the command.
    pub fn opcode(&self) -> (out: [u8; 2])
        ensures
            out@ == self.wire(),
    {
        let out = match self {
            Command::Start => [0u8, 1u8],
            Command::Train => [0u8, 2u8],
            Command::Get => [0u8, 3u8],
            Command::Put => [0u8, 4u8],
        };
        assert(out@ =~= self.wire());
        out
    }

    /// Reads the opcode at the head of `bytes`.
    pub fn from_opcode(bytes: &[u8]) -> (command: Result<Command, WireError>)
        ensures
            command == Command::parse(bytes@),
    {
        if bytes.len() < 2 {
            Err(WireError::Truncated)
        } else if bytes[0] != 0 {
            Err(WireError::UnknownOpcode)
        } else if bytes[1] == 1 {
            Ok(Command::Start)
        } else if bytes[1] == 2 {
            Ok(Command::Train)
        } else if bytes[1] == 3 {
            Ok(Command::Get)
        } else if bytes[1] == 4 {
            Ok(Command::Put)
        } else {
            Err(WireError::UnknownOpcode)
        }
    }

    /// Whether the request with this command carries a slot after the
    /// opcode: only `Put` does.
    pub open spec fn sends_slot(self) -> bool {
        self is Put
    }

    /// Whether the reply to this command carries a score after the opcode:
    /// those to `Start` and to `Train` do.
    pub open spec fn answers_score(self) -> bool {
        self is Start || self is Train
    }

    /// Whether the reply to this command ends with a slot: those to `Start`
    /// and to `Get` do.
    pub open spec fn answers_slot(self) -> bool {
        self is Start || self is Get
    }

    /// Whether the request with this command carries a slot after the opcode.
    pub fn request_has_slot(&self) -> (has: bool)
        ensures
            has == self.sends_slot(),
    {
        match self {
            Command::Put => true,
            _ => false,
        }
    }

    /// Whether the reply to this command carries a score after the opcode.
    pub fn reply_has_score(&self) -> (has: bool)
        ensures
            has == self.answers_score(),
    {
        match self {
            Command::Start => true,
            Command::Train => true,
            _ => false,
        }
    }

    /// Whether the reply to this command ends with a slot.
    pub fn reply_has_slot(&self) -> (has: bool)
        ensures
            has == self.answers_slot(),
    {
        match self {
            Command::Start => true,
            Command::Get => true,
            _ => false,
        }
    }
}

/// The bytes of a slot: 0 for an empty one, 1 and the payload for a full one.
pub open spec fn slot_wire(slot: Option<Seq<u8>>) -> Seq<u8> {
    match slot {
        None => seq![0u8],
        Some(payload) => seq![1u8] + payload,
    }
}

/// The slot that `bytes` spell, if they spell one and nothing more.
pub open spec fn parse_slot(bytes: Seq<u8>) -> Result<Option<Seq<u8>>, WireError> {
    if bytes.len() == 0 {
        Err(WireError::Truncated)
    } else if bytes[0] == 0 {
        if bytes.len() == 1 {
            Ok(None)
        } else {
            Err(WireError::TrailingBytes)
        }
    } else if bytes[0] == 1 {
        Ok(Some(bytes.skip(1)))
    } else {
        Err(WireError::InvalidTag)
    }
}

/// The view of an optional payload.
pub open spec fn slot_view(slot: Option<Vec<u8>>) -> Option<Seq<u8>> {
    match slot {
        None => None,
        Some(payload) => Some(payload@),
    }
}

/// Appends `bytes` to `out`.
fn append(out: &mut Vec<u8>, bytes: &[u8])
    ensures
        final(out)@ == old(out)@ + bytes@,
{
    let mut i: usize = 0;
    while i < bytes.len()
        invariant
            i <= bytes@.len(),
            out@ == old(out)@ + bytes@.take(i as int),
        decreases bytes@.len() - i,
    {
        out.push(bytes[i]);
        i += 1;
        assert(out@ =~= old(out)@ + bytes@.take(i as int));
    }
    assert(bytes@.take(bytes@.len() as int) =~= bytes@);
}

/// The bytes of `bytes` from index `from` on.
fn tail(bytes: &[u8], from: usize) -> (out: Vec<u8>)
    requires
        from <= bytes@.len(),
    ensures
        out@ == bytes@.skip(from as int),
{
    let mut out: Vec<u8> = Vec::new();
    let mut i: usize = from;
    while i < bytes.len()
        invariant
            from <= i <= bytes@.len(),
            out@ == bytes@.subrange(from as int, i as int),
        decreases bytes@.len() - i,
    {
        out.push(bytes[i]);
        i += 1;
        assert(out@ =~= bytes@.subrange(from as int, i as int));
    }
    assert(bytes@.subrange(from as int, bytes@.len() as int) =~= bytes@.skip(from as int));
    out
}

/// Appends the bytes of a slot to `out`.
fn append_slot(out: &mut Vec<u8>, slot: &Option<Vec<u8>>)
    ensures
        final(out)@ == old(out)@ + slot_wire(slot_view(*slot)),
{
    match slot {
        None => {
            out.push(0u8);
            assert(out@ =~= old(out)@ + slot_wire(None));
        },
        Some(payload) => {
            out.push(1u8);
            append(out, payload.as_slice());
            assert(out@ =~= old(out)@ + slot_wire(Some(payload@)));
        },
    }
}

/// Reads the slot that `bytes` hold from index `from` to their end.
fn read_slot(bytes: &[u8], from: usize) -> (slot: Result<Option<Vec<u8>>, WireError>)
    requires
        from <= bytes@.len(),
    ensures
        match slot {
            Ok(found) => parse_slot(bytes@.skip(from as int)) == Ok::<
                Option<Seq<u8>>,
                WireError,
            >(slot_view(found)),
            Err(error) => parse_slot(bytes@.skip(from as int)) == Err::<
                Option<Seq<u8>>,
                WireError,
            >(error),
        },
{
    let ghost rest = bytes@.skip(from as int);
    if bytes.len() == from {
        Err(WireError::Truncated)
    } else if bytes[from] == 0 {
        assert(rest[0] == bytes@[from as int]);
        if bytes.len() - from == 1 {
            Ok(None)
        } else {
            Err(WireError::TrailingBytes)
        }
    } else if bytes[from] == 1 {
        assert(rest[0] == bytes@[from as int]);
        let payload = tail(bytes, from + 1);
        assert(payload@ =~= rest.skip(1));
        Ok(Some(payload))
    } else {
        assert(rest[0] == bytes@[from as int]);
        Err(WireError::InvalidTag)
    }
}

/// A message from the master to a worker.
#[derive(Clone, Debug, PartialEq, Eq)]
pub enum Request {
    /// Make a fresh individual.
    Start,
    /// Mutate and train the individual held.
    Train,
    /// Hand over the individual held.
    Get,
    /// Hold this from now on: an encoded individual, or nothing.
    Put(Option<Vec<u8>>),
}

/// A request as a value of mathematics.
pub enum RequestView {
    Start,
    Train,
    Get,
    Put(Option<Seq<u8>>),
}

impl View for Request {
    type V = RequestView;

    open spec fn view(&self) -> RequestView {
        match self {
            Request::Start => RequestView::Start,
            Request::Train => RequestView::Train,
            Request::Get => RequestView::Get,
            Request::Put(slot) => RequestView::Put(slot_view(*slot)),
        }
    }
}

impl RequestView {
    /// The command that the request sends.
    pub open spec fn command(self) -> Command {
        match self {
            RequestView::Start => Command::Start,
            RequestView::Train => Command::Train,
            RequestView::Get => Command::Get,
            RequestView::Put(_) => Command::Put,
        }
    }

    /// The bytes of the request on the wire.
    pub open spec fn wire(self) -> Seq<u8> {
        match self {
            RequestView::Put(slot) => Command::Put.wire() + slot_wire(slot),
            _ => self.command().wire(),
        }
    }

    /// The request that `bytes` spell, if they spell one and nothing more.
    pub open spec fn parse(bytes: Seq<u8>) -> Result<RequestView, WireError> {
        match Command::parse(bytes) {
            Err(error) => Err(error),
            Ok(Command::Put) => match parse_slot(bytes.skip(2)) {
                Err(error) => Err(error),
                Ok(slot) => Ok(RequestView::Put(slot)),
            },
            Ok(command) => if bytes.len() > 2 {
                Err(WireError::TrailingBytes)
            } else {
                Ok(
                    match command {
                        Command::Start => RequestView::Start,
                        Command::Train => RequestView::Train,
                        _ => RequestView::Get,
                    },
                )
            },
        }
    }
}

impl Request {
    /// The bytes of the request on the wire.
    pub fn encode(&self) -> (out: Vec<u8>)
        ensures
            out@ == self@.wire(),
    {
        let mut out: Vec<u8> = Vec::new();
        match self {
            Request::Start => {
                append(&mut out, Command::Start.opcode().as_slice());
            },
            Request::Train => {
                append(&mut out, Command::Train.opcode().as_slice());
            },
            Request::Get => {
                append(&mut out, Command::Get.opcode().as_slice());
            },
            Request::Put(slot) => {
                append(&mut out, Command::Put.opcode().as_slice());
                append_slot(&mut out, slot);
            },
        }
        assert(out@ =~= self@.wire());
        out
    }

    /// Reads a request from bytes that hold one and nothing more.
    pub fn decode(bytes: &[u8]) -> (request: Result<Request, WireError>)
        ensures
            match request {
                Ok(found) => RequestView::parse(bytes@) == Ok::<RequestView, WireError>(found@),
                Err(error) => RequestView::parse(bytes@) == Err::<RequestView, WireError>(error),
            },
    {
        match Command::from_opcode(bytes) {
            Err(error) => Err(error),
            Ok(Command::Put) => match read_slot(bytes, 2) {
                Err(error) => Err(error),
                Ok(slot) => Ok(Request::Put(slot)),
            },
            Ok(command) => if bytes.len() > 2 {
                Err(WireError::TrailingBytes)
            } else {
                Ok(
                    match command {
                        Command::Start => Request::Start,
                        Command::Train => Request::Train,
                        _ => Request::Get,
                    },
                )
            },
        }
    }
}

/// A message from a worker to the master.
#[derive(Clone, Debug, PartialEq, Eq)]
pub enum Reply {
    /// The answer to `Start`: the score of the fresh individual, and the
    /// individual.
    Started { fitness: Fitness, individual: Option<Vec<u8>> },
    /// The answer to `Train`: the score after training.
    Trained { fitness: Fitness },
    /// The answer to `Get`: the individual held, if any.
    Current { individual: Option<Vec<u8>> },
}

/// A reply as a value of mathematics.
pub enum ReplyView {
    Started { fitness: Fitness, individual: Option<Seq<u8>> },
    Trained { fitness: Fitness },
    Current { individual: Option<Seq<u8>> },
}

impl View for Reply {
    type V = ReplyView;

    open spec fn view(&self) -> ReplyView {
        match self {
            Reply::Started { fitness, individual } => ReplyView::Started {
                fitness: *fitness,
                individual: slot_view(*individual),
            },
            Reply::Trained { fitness } => ReplyView::Trained { fitness: *fitness },
            Reply::Current { individual } => ReplyView::Current {
                individual: slot_view(*individual),
            },
        }
    }
}

impl ReplyView {
    /// The command that the reply answers.
    pub open spec fn command(self) -> Command {
        match self {
            ReplyView::Started { .. } => Command::Start,
            ReplyView::Trained { .. } => Command::Train,
            ReplyView::Current { .. } => Command::Get,
        }
    }

    /// The bytes of the reply on the wire.
    pub open spec fn wire(self) -> Seq<u8> {
        match self {
            ReplyView::Started { fitness, individual } => Command::Start.wire() + be_bytes(
                fitness.bits,
            ) + slot_wire(individual),
            ReplyView::Trained { fitness } => Command::Train.wire() + be_bytes(fitness.bits),
            ReplyView::Current { individual } => Command::Get.wire() + slot_wire(individual),
        }
    }

    /// The reply that `bytes` spell, if they spell one and nothing more.
    pub open spec fn parse(bytes: Seq<u8>) -> Result<ReplyView, WireError> {
        match Command::parse(bytes) {
            Err(error) => Err(error),
            Ok(Command::Put) => Err(WireError::UnexpectedCommand),
            Ok(Command::Get) => match parse_slot(bytes.skip(2)) {
                Err(error) => Err(error),
                Ok(individual) => Ok(ReplyView::Current { individual }),
            },
            Ok(command) => if bytes.len() < 10 {
                Err(WireError::Truncated)
            } else {
                let fitness = Fitness { bits: be_value(bytes.subrange(2, 10)) };
                if command == Command::Train {
                    if bytes.len() > 10 {
                        Err(WireError::TrailingBytes)
                    } else {
                        Ok(ReplyView::Trained { fitness })
                    }
                } else {
                    match parse_slot(bytes.skip(10)) {
                        Err(error) => Err(error),
                        Ok(individual) => Ok(ReplyView::Started { fitness, individual }),
                    }
                }
            },
        }
    }
}

impl Reply {
    /// The request that hands the individual of this reply on to another
    /// worker: a `Put` of what a reply to `Get` reported. No other reply
    /// holds an individual to hand on.
    pub fn hand_on(self) -> (request: Result<Request, WireError>)
        ensures
            match self@ {
                ReplyView::Current { individual } => request is Ok && request->Ok_0@
                    == RequestView::Put(individual),
                _ => request == Err::<Request, WireError>(WireError::UnexpectedCommand),
            },
    {
        match self {
            Reply::Current { individual } => Ok(Request::Put(individual)),
            _ => Err(WireError::UnexpectedCommand),
        }
    }

    /// The bytes of the reply on the wire.
    pub fn encode(&self) -> (out: Vec<u8>)
        ensures
            out@ == self@.wire(),
    {
        let mut out: Vec<u8> = Vec::new();
        match self {
            Reply::Started { fitness, individual } => {
                append(&mut out, Command::Start.opcode().as_slice());
                append(&mut out, fitness.to_be_bytes().as_slice());
                append_slot(&mut out, individual);
            },
            Reply::Trained { fitness } => {
                append(&mut out, Command::Train.opcode().as_slice());
                append(&mut out, fitness.to_be_bytes().as_slice());
            },
            Reply::Current { individual } => {
                append(&mut out, Command::Get.opcode().as_slice());
                append_slot(&mut out, individual);
            },
        }
        assert(out@ =~= self@.wire());
        out
    }

    /// Reads a reply from bytes that hold one and nothing more.
    pub fn decode(bytes: &[u8]) -> (reply: Result<Reply, WireError>)
        ensures
            match reply {
                Ok(found) => ReplyView::parse(bytes@) == Ok::<ReplyView, WireError>(found@),
                Err(error) => ReplyView::parse(bytes@) == Err::<ReplyView, WireError>(error),
            },
    {
        match Command::from_opcode(bytes) {
            Err(error) => Err(error),
            Ok(Command::Put) => Err(WireError::UnexpectedCommand),
            Ok(Command::Get) => match read_slot(bytes, 2) {
                Err(error) => Err(error),
                Ok(individual) => Ok(Reply::Current { individual }),
            },
            Ok(command) => {
                let body = tail(bytes, 2);
                match Fitness::from_be_bytes(body.as_slice()) {
                    None => Err(WireError::Truncated),
                    Some(fitness) => {
                        assert(body@.subrange(0, 8) =~= bytes@.subrange(2, 10));
                        match command {
                            Command::Train => {
                                if bytes.len() > 10 {
                                    Err(WireError::TrailingBytes)
                                } else {
                                    Ok(Reply::Trained { fitness })
                                }
                            },
                            _ => match read_slot(bytes, 10) {
                                Err(error) => Err(error),
                                Ok(individual) => Ok(Reply::Started { fitness, individual }),
                            },
                        }
                    },
                }
            },
        }
    }
}

/// A request is its opcode, followed by a slot if its command sends one.
pub proof fn lemma_request_layout(request: RequestView)
    ensures
        request.wire().subrange(0, 2) == request.command().wire(),
        !request.command().sends_slot() ==> request.wire().len() == 2,
        request matches RequestView::Put(slot) ==> request.wire().skip(2) == slot_wire(slot),
{
    assert(request.wire().subrange(0, 2) =~= request.command().wire());
    if let RequestView::Put(slot) = request {
        assert(request.wire().skip(2) =~= slot_wire(slot));
    }
}

/// A reply is its opcode, followed by the eight bytes of a score if its
/// command answers with one, followed by a slot if its command answers
/// with one.
pub proof fn lemma_reply_layout(reply: ReplyView)
    ensures
        reply.wire().subrange(0, 2) == reply.command().wire(),
        !reply.command().sends_slot(),
        match reply {
            ReplyView::Started { fitness, individual } => {
                &&& reply.command().answers_score() && reply.command().answers_slot()
                &&& reply.wire().subrange(2, 10) == be_bytes(fitness.bits)
                &&& reply.wire().skip(10) == slot_wire(individual)
            },
            ReplyView::Trained { fitness } => {
                &&& reply.command().answers_score() && !reply.command().answers_slot()
                &&& reply.wire().subrange(2, 10) == be_bytes(fitness.bits)
                &&& reply.wire().len() == 10
            },
            ReplyView::Current { individual } => {
                &&& !reply.command().answers_score() && reply.command().answers_slot()
                &&& reply.wire().skip(2) == slot_wire(individual)
            },
        },
{
    let bytes = reply.wire();
    assert(bytes.subrange(0, 2) =~= reply.command().wire());
    match reply {
        ReplyView::Started { fitness, individual } => {
            assert(bytes.subrange(2, 10) =~= be_bytes(fitness.bits));
            assert(bytes.skip(10) =~= slot_wire(individual));
        },
        ReplyView::Trained { fitness } => {
            assert(bytes.subrange(2, 10) =~= be_bytes(fitness.bits));
        },
        ReplyView::Current { individual } => {
            assert(bytes.skip(2) =~= slot_wire(individual));
        },
    }
}

/// A slot that is written and read back is the same slot.
pub proof fn lemma_slot_round_trip(slot: Option<Seq<u8>>)
    ensures
        parse_slot(slot_wire(slot)) == Ok::<Option<Seq<u8>>, WireError>(slot),
{
    match slot {
        None => {},
        Some(payload) => {
            assert(slot_wire(slot).skip(1) =~= payload);
        },
    }
}

/// Bytes that spell a slot are the bytes of that slot.
pub proof fn lemma_slot_wire_is_unique(bytes: Seq<u8>)
    requires
        parse_slot(bytes) is Ok,
    ensures
        slot_wire(parse_slot(bytes)->Ok_0) == bytes,
{
    assert(slot_wire(parse_slot(bytes)->Ok_0) =~= bytes);
}

/// A request that is encoded and decoded again is the same request.
pub proof fn lemma_request_round_trip(request: RequestView)
    ensures
        RequestView::parse(request.wire()) == Ok::<RequestView, WireError>(request),
{
    let bytes = request.wire();
    match request {
        RequestView::Put(slot) => {
            lemma_slot_round_trip(slot);
            assert(bytes.skip(2) =~= slot_wire(slot));
        },
        _ => {},
    }
}

/// Bytes that decode to a request are what that request encodes to.
pub proof fn lemma_request_wire_is_unique(bytes: Seq<u8>)
    requires
        RequestView::parse(bytes) is Ok,
    ensures
        (RequestView::parse(bytes)->Ok_0).wire() == bytes,
{
    let request = RequestView::parse(bytes)->Ok_0;
    if request is Put {
        lemma_slot_wire_is_unique(bytes.skip(2));
    }
    assert(request.wire() =~= bytes);
}

/// A reply that is encoded and decoded again is the same reply.
pub proof fn lemma_reply_round_trip(reply: ReplyView)
    ensures
        ReplyView::parse(reply.wire()) == Ok::<ReplyView, WireError>(reply),
{
    let bytes = reply.wire();
    match reply {
        ReplyView::Started { fitness, individual } => {
            lemma_be_value_of_bytes(fitness.bits);
            lemma_slot_round_trip(individual);
            assert(bytes.subrange(2, 10) =~= be_bytes(fitness.bits));
            assert(bytes.skip(10) =~= slot_wire(individual));
        },
        ReplyView::Trained { fitness } => {
            lemma_be_value_of_bytes(fitness.bits);
            assert(bytes.subrange(2, 10) =~= be_bytes(fitness.bits));
        },
        ReplyView::Current { individual } => {
            lemma_slot_round_trip(individual);
            assert(bytes.skip(2) =~= slot_wire(individual));
        },
    }
}

/// Bytes that decode to a reply are what that reply encodes to.
pub proof fn lemma_reply_wire_is_unique(bytes: Seq<u8>)
    requires
        ReplyView::parse(bytes) is Ok,
    ensures
        (ReplyView::parse(bytes)->Ok_0).wire() == bytes,
{
    let reply = ReplyView::parse(bytes)->Ok_0;
    match reply {
        ReplyView::Started { fitness, individual } => {
            lemma_be_bytes_of_value(bytes.subrange(2, 10));
            lemma_slot_wire_is_unique(bytes.skip(10));
        },
        ReplyView::Trained { fitness } => {
            lemma_be_bytes_of_value(bytes.subrange(2, 10));
        },
        ReplyView::Current { individual } => {
            lemma_slot_wire_is_unique(bytes.skip(2));
        },
    }
    assert(reply.wire() =~= bytes);
}

} // verus!
