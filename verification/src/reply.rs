use crate::command::{CmdCode, DUMMY, END_CMD, REPLY_FLAG, START_CMD};
use crate::error::DriverError;
use crate::frame::{lemma_single_block, reply_bytes};
use vstd::prelude::*;

verus! {

/// Byte put on the bus while the payload of a reply is clocked in.
pub const PAYLOAD_FILL: u8 = 0x00;

/// What the host expects of a reply: the code byte, the number of
/// parameters that it declares, and the length of its one payload.
#[derive(Clone, Copy, Debug, PartialEq, Eq, Structural)]
pub struct ReplyShape {
    /// The code byte, reply flag included.
    pub code: u8,
    /// The number of parameters that the reply declares.
    pub param_num: u8,
    /// The length of the payload.
    pub len: u8,
}

/// The shape of the reply to `cmd`: its code with the reply flag set.
pub open spec fn reply_shape(cmd: CmdCode, param_num: u8, len: u8) -> ReplyShape {
    ReplyShape { code: cmd.code_spec() | REPLY_FLAG, param_num, len }
}

/// How far the decoding of a reply has come.
#[derive(Clone, Copy, Debug, PartialEq, Eq, Structural)]
pub enum Stage {
    /// No opening sentinel has been seen yet: bytes are discarded.
    Scan,
    /// The opening sentinel was seen: the code byte comes next.
    Code,
    /// The code byte was right: the number of parameters comes next.
    Count,
    /// The number of parameters was right: the payload length comes next.
    Length,
    /// The header was right: payload bytes are being collected.
    Payload,
    /// The payload is complete: the closing sentinel comes next.
    End,
    /// The reply was decoded whole.
    Done,
    /// The reply was rejected.
    Failed(DriverError),
}

impl Stage {
    /// The decoding has ended, well or badly, and further bytes change
    /// nothing.
    pub open spec fn finished_spec(self) -> bool {
        self == Stage::Done || self is Failed
    }

    /// The decoding has ended, well or badly, and further bytes change
    /// nothing.
    #[verifier::when_used_as_spec(finished_spec)]
    pub fn finished(self) -> (b: bool)
        ensures
            b == self.finished_spec(),
    {
        match self {
            Stage::Done => true,
            Stage::Failed(_) => true,
            _ => false,
        }
    }
}

/// One full-duplex transfer that the host is to make: `len` times the byte
/// `fill` goes out, and as many bytes come in.
#[derive(Clone, Copy, Debug, PartialEq, Eq, Structural)]
pub struct Transfer {
    /// How many bytes to exchange.
    pub len: usize,
    /// The byte to put on the bus for each of them.
    pub fill: u8,
}

/// The transfer that reads one byte: one dummy byte out, one byte in.
pub open spec fn read_byte_spec() -> Transfer {
    Transfer { len: 1, fill: DUMMY }
}

/// The transfer that reads one byte: one dummy byte out, one byte in.
#[verifier::when_used_as_spec(read_byte_spec)]
pub fn read_byte() -> (transfer: Transfer)
    ensures
        transfer == read_byte_spec(),
{
    Transfer { len: 1, fill: DUMMY }
}

/// The state of a reply decoder as the contracts speak of it.
pub struct DecoderState {
    /// What the reply has to look like.
    pub shape: ReplyShape,
    /// How far the decoding has come.
    pub stage: Stage,
    /// The payload bytes collected so far.
    pub payload: Seq<u8>,
}

impl DecoderState {
    /// A decoder that has seen nothing yet.
    pub open spec fn start(shape: ReplyShape) -> DecoderState {
        DecoderState { shape, stage: Stage::Scan, payload: Seq::empty() }
    }

    /// The state after one more byte from the module.
    pub open spec fn push(self, byte: u8) -> DecoderState {
        match self.stage {
            Stage::Scan => if byte == START_CMD {
                DecoderState { stage: Stage::Code, ..self }
            } else {
                self
            },
            Stage::Code => if byte == self.shape.code {
                DecoderState { stage: Stage::Count, ..self }
            } else {
                DecoderState { stage: Stage::Failed(DriverError::ProtocolDesync), ..self }
            },
            Stage::Count => if byte == self.shape.param_num {
                DecoderState { stage: Stage::Length, ..self }
            } else {
                DecoderState { stage: Stage::Failed(DriverError::ProtocolDesync), ..self }
            },
            Stage::Length => if byte != self.shape.len {
                DecoderState { stage: Stage::Failed(DriverError::ReplyShapeMismatch), ..self }
            } else if self.shape.len == 0 {
                DecoderState { stage: Stage::End, ..self }
            } else {
                DecoderState { stage: Stage::Payload, ..self }
            },
            Stage::Payload => {
                let payload = self.payload.push(byte);
                if payload.len() >= self.shape.len {
                    DecoderState { stage: Stage::End, payload, ..self }
                } else {
                    DecoderState { payload, ..self }
                }
            },
            Stage::End => if byte == END_CMD {
                DecoderState { stage: Stage::Done, ..self }
            } else {
                DecoderState { stage: Stage::Failed(DriverError::ProtocolDesync), ..self }
            },
            Stage::Done => self,
            Stage::Failed(_) => self,
        }
    }

    /// The state after the bytes of `bytes`, one after the other.
    pub open spec fn feed(self, bytes: Seq<u8>) -> DecoderState
        decreases bytes.len(),
    {
        if bytes.len() == 0 {
            self
        } else {
            self.feed(bytes.drop_last()).push(bytes.last())
        }
    }

    /// The transfer that brings the next bytes: what is left of the payload
    /// in one piece, and one byte at a time everywhere else.
    pub open spec fn wanted(self) -> Transfer {
        if self.stage == Stage::Payload && self.payload.len() < self.shape.len {
            Transfer { len: (self.shape.len - self.payload.len()) as usize, fill: PAYLOAD_FILL }
        } else {
            read_byte_spec()
        }
    }
}

/// Decodes the reply to one command from the bytes that the module sends,
/// in whatever pieces they arrive.
#[derive(Debug)]
pub struct ReplyDecoder {
    shape: ReplyShape,
    stage: Stage,
    payload: Vec<u8>,
}

impl View for ReplyDecoder {
    type V = DecoderState;

    closed spec fn view(&self) -> DecoderState {
        DecoderState { shape: self.shape, stage: self.stage, payload: self.payload@ }
    }
}

impl ReplyDecoder {
    /// A decoder for the reply to `cmd` that declares `param_num` parameters
    /// and carries a payload of `len` bytes. It has seen nothing yet.
    pub fn new(cmd: CmdCode, param_num: u8, len: u8) -> (decoder: ReplyDecoder)
        ensures
            decoder@ == DecoderState::start(reply_shape(cmd, param_num, len)),
    {
        ReplyDecoder::expecting(ReplyShape { code: cmd.code() | REPLY_FLAG, param_num, len })
    }

    /// A decoder for a reply of the shape `shape`. It has seen nothing yet.
    pub fn expecting(shape: ReplyShape) -> (decoder: ReplyDecoder)
        ensures
            decoder@ == DecoderState::start(shape),
    {
        ReplyDecoder { shape, stage: Stage::Scan, payload: Vec::new() }
    }

    /// Takes one byte from the module and says how far the decoding has
    /// come with it.
    pub fn push(&mut self, byte: u8) -> (stage: Stage)
        ensures
            final(self)@ == old(self)@.push(byte),
            stage == final(self)@.stage,
    {
        match self.stage {
            Stage::Scan => {
                if byte == START_CMD {
                    self.stage = Stage::Code;
                }
            },
            Stage::Code => {
                if byte == self.shape.code {
                    self.stage = Stage::Count;
                } else {
                    self.stage = Stage::Failed(DriverError::ProtocolDesync);
                }
            },
            Stage::Count => {
                if byte == self.shape.param_num {
                    self.stage = Stage::Length;
                } else {
                    self.stage = Stage::Failed(DriverError::ProtocolDesync);
                }
            },
            Stage::Length => {
                if byte != self.shape.len {
                    self.stage = Stage::Failed(DriverError::ReplyShapeMismatch);
                } else if self.shape.len == 0 {
                    self.stage = Stage::End;
                } else {
                    self.stage = Stage::Payload;
                }
            },
            Stage::Payload => {
                self.payload.push(byte);
                if self.payload.len() >= self.shape.len as usize {
                    self.stage = Stage::End;
                }
            },
            Stage::End => {
                if byte == END_CMD {
                    self.stage = Stage::Done;
                } else {
                    self.stage = Stage::Failed(DriverError::ProtocolDesync);
                }
            },
            Stage::Done => {},
            Stage::Failed(_) => {},
        }
        self.stage
    }

    /// Takes the bytes that a transfer brought in, one after the other:
    /// discards what comes before the opening sentinel, holds the code byte,
    /// the number of parameters and the payload length against what is
    /// expected, collects the payload, and checks the closing sentinel.
    /// Says how far the decoding has come once they are taken.
    ///
    /// For a decoder that had seen nothing, what it holds afterwards can be
    /// read off `received` as `decoded` says.
    pub fn receive_reply(&mut self, received: &[u8]) -> (stage: Stage)
        ensures
            final(self)@ == old(self)@.feed(received@),
            stage == final(self)@.stage,
            old(self)@ == DecoderState::start(old(self)@.shape) ==> final(self)@ == decoded(
                received@,
                old(self)@.shape,
            ),
    {
        proof {
            lemma_decoding(received@, self@.shape);
        }
        let mut i: usize = 0;
        while i < received.len()
            invariant
                i <= received@.len(),
                self@ == old(self)@.feed(received@.take(i as int)),
            decreases received@.len() - i,
        {
            assert(received@.take(i + 1).drop_last() == received@.take(i as int));
            self.push(received[i]);
            i += 1;
        }
        assert(received@.take(i as int) == received@);
        self.stage
    }

    /// How far the decoding has come.
    pub fn stage(&self) -> (stage: Stage)
        ensures
            stage == self@.stage,
    {
        self.stage
    }

    /// The payload bytes collected so far: the whole payload once the stage
    /// is `Done`.
    pub fn payload(&self) -> (payload: &Vec<u8>)
        ensures
            payload@ == self@.payload,
    {
        &self.payload
    }

    /// The transfer that brings the next bytes of the reply.
    pub fn wanted(&self) -> (transfer: Transfer)
        ensures
            transfer == self@.wanted(),
    {
        if self.stage == Stage::Payload && self.payload.len() < self.shape.len as usize {
            Transfer { len: self.shape.len as usize - self.payload.len(), fill: PAYLOAD_FILL }
        } else {
            read_byte()
        }
    }
}

/// Where the first opening sentinel stands in `stream`, or the length of
/// `stream` where it holds none.
pub open spec fn first_start(stream: Seq<u8>) -> int
    decreases stream.len(),
{
    if stream.len() == 0 {
        0
    } else {
        let before = first_start(stream.drop_last());
        if before < stream.len() - 1 {
            before
        } else if stream.last() == START_CMD {
            stream.len() - 1
        } else {
            stream.len() as int
        }
    }
}

/// What the module sent behind the first opening sentinel of `stream`.
pub open spec fn reply_body(stream: Seq<u8>) -> Seq<u8> {
    if first_start(stream) < stream.len() {
        stream.skip(first_start(stream) + 1)
    } else {
        Seq::empty()
    }
}

/// The three bytes behind the opening sentinel are there and are the ones
/// that `shape` expects.
pub open spec fn header_matches(body: Seq<u8>, shape: ReplyShape) -> bool {
    &&& body.len() >= 3
    &&& body[0] == shape.code
    &&& body[1] == shape.param_num
    &&& body[2] == shape.len
}

/// How far a decoder that expects `shape` has come once the module has sent
/// `stream`, read off the stream itself.
pub open spec fn stage_of(stream: Seq<u8>, shape: ReplyShape) -> Stage {
    let body = reply_body(stream);
    if first_start(stream) >= stream.len() {
        Stage::Scan
    } else if body.len() == 0 {
        Stage::Code
    } else if body[0] != shape.code {
        Stage::Failed(DriverError::ProtocolDesync)
    } else if body.len() == 1 {
        Stage::Count
    } else if body[1] != shape.param_num {
        Stage::Failed(DriverError::ProtocolDesync)
    } else if body.len() == 2 {
        Stage::Length
    } else if body[2] != shape.len {
        Stage::Failed(DriverError::ReplyShapeMismatch)
    } else if body.len() < 3 + shape.len {
        Stage::Payload
    } else if body.len() == 3 + shape.len {
        Stage::End
    } else if body[3 + shape.len] != END_CMD {
        Stage::Failed(DriverError::ProtocolDesync)
    } else {
        Stage::Done
    }
}

/// The payload bytes that a decoder that expects `shape` holds once the
/// module has sent `stream`: what stands behind a header that matches, up to
/// the expected length.
pub open spec fn collected(stream: Seq<u8>, shape: ReplyShape) -> Seq<u8> {
    let body = reply_body(stream);
    if header_matches(body, shape) {
        if body.len() < 3 + shape.len {
            body.skip(3)
        } else {
            body.subrange(3, 3 + shape.len)
        }
    } else {
        Seq::empty()
    }
}

/// The state of a decoder that expects `shape`, read off the bytes that the
/// module has sent.
pub open spec fn decoded(stream: Seq<u8>, shape: ReplyShape) -> DecoderState {
    DecoderState { shape, stage: stage_of(stream, shape), payload: collected(stream, shape) }
}

/// `first_start` is within the stream, no opening sentinel stands before it,
/// and one stands at it unless the stream holds none.
pub proof fn lemma_first_start(stream: Seq<u8>)
    ensures
        0 <= first_start(stream) <= stream.len(),
        forall|i: int| 0 <= i < first_start(stream) ==> stream[i] != START_CMD,
        first_start(stream) < stream.len() ==> stream[first_start(stream)] == START_CMD,
    decreases stream.len(),
{
    if stream.len() > 0 {
        lemma_first_start(stream.drop_last());
        assert forall|i: int| 0 <= i < first_start(stream) implies stream[i] != START_CMD by {
            if i < stream.len() - 1 {
                assert(stream[i] == stream.drop_last()[i]);
            }
        }
    }
}

/// The first place at which an opening sentinel stands is `first_start`.
pub proof fn lemma_first_start_at(stream: Seq<u8>, at: int)
    requires
        0 <= at <= stream.len(),
        forall|i: int| 0 <= i < at ==> stream[i] != START_CMD,
        at < stream.len() ==> stream[at] == START_CMD,
    ensures
        first_start(stream) == at,
{
    lemma_first_start(stream);
}

/// One more byte from the module moves the state that is read off the
/// stream as it moves the decoder.
pub proof fn lemma_decoded_push(stream: Seq<u8>, shape: ReplyShape, byte: u8)
    ensures
        decoded(stream.push(byte), shape) == decoded(stream, shape).push(byte),
{
    let longer = stream.push(byte);
    let at = first_start(stream);
    lemma_first_start(stream);
    assert(longer.drop_last() == stream);
    if at < stream.len() {
        assert(first_start(longer) == at);
        assert(reply_body(longer) == reply_body(stream).push(byte));
        let body = reply_body(stream);
        let grown = reply_body(longer);
        if header_matches(body, shape) {
            if body.len() < 3 + shape.len {
                assert(grown.skip(3) == body.skip(3).push(byte));
                if grown.len() == 3 + shape.len {
                    assert(grown.subrange(3, 3 + shape.len) == grown.skip(3));
                }
            } else {
                assert(grown.subrange(3, 3 + shape.len) == body.subrange(3, 3 + shape.len));
            }
        }
        assert(collected(longer, shape) == decoded(stream, shape).push(byte).payload);
        assert(stage_of(longer, shape) == decoded(stream, shape).push(byte).stage);
    } else {
        if byte == START_CMD {
            assert(first_start(longer) == stream.len());
            assert(reply_body(longer) == Seq::<u8>::empty());
        }
    }
}

/// What a decoder holds after the bytes of `stream` can be read off the
/// stream: it discards everything before the first opening sentinel, checks
/// the three bytes behind it, collects the payload and checks the closing
/// sentinel.
pub proof fn lemma_decoding(stream: Seq<u8>, shape: ReplyShape)
    ensures
        DecoderState::start(shape).feed(stream) == decoded(stream, shape),
    decreases stream.len(),
{
    if stream.len() == 0 {
        assert(collected(stream, shape) == Seq::<u8>::empty());
    } else {
        lemma_decoding(stream.drop_last(), shape);
        lemma_decoded_push(stream.drop_last(), shape, stream.last());
        assert(stream.drop_last().push(stream.last()) == stream);
    }
}

/// A decoder that has finished takes no more bytes: it stays as it is.
pub proof fn lemma_finished_absorbs(state: DecoderState, bytes: Seq<u8>)
    requires
        state.stage.finished_spec(),
    ensures
        state.feed(bytes) == state,
    decreases bytes.len(),
{
    if bytes.len() > 0 {
        lemma_finished_absorbs(state, bytes.drop_last());
    }
}

/// Feeding a decoder two runs of bytes one after the other is feeding it
/// both at once.
pub proof fn lemma_feed_concat(state: DecoderState, front: Seq<u8>, back: Seq<u8>)
    ensures
        state.feed(front + back) == state.feed(front).feed(back),
    decreases back.len(),
{
    if back.len() == 0 {
        assert(front + back == front);
    } else {
        lemma_feed_concat(state, front, back.drop_last());
        assert((front + back).drop_last() == front + back.drop_last());
    }
}

/// Resynchronization: whatever bytes come before the reply, as long as none
/// of them is the opening sentinel, the decoder skips them and decodes the
/// well-formed reply that follows. It is done with the last byte of the
/// reply, not before, and holds the payload of the reply.
pub proof fn lemma_resynchronization(
    noise: Seq<u8>,
    cmd: CmdCode,
    param_num: u8,
    payload: Seq<u8>,
)
    requires
        !noise.contains(START_CMD),
        payload.len() <= u8::MAX,
    ensures
        ({
            let shape = reply_shape(cmd, param_num, payload.len() as u8);
            let stream = noise + reply_bytes(cmd, param_num, seq![payload]);
            let decoder = DecoderState::start(shape);
            &&& decoder.feed(stream).stage == Stage::Done
            &&& decoder.feed(stream).payload == payload
            &&& forall|n: int| 0 <= n < stream.len() ==> !decoder.feed(#[trigger] stream.take(n)).stage.finished_spec()
        }),
{
    let shape = reply_shape(cmd, param_num, payload.len() as u8);
    let reply = reply_bytes(cmd, param_num, seq![payload]);
    let stream = noise + reply;
    let inner = seq![shape.code, param_num, payload.len() as u8] + payload + seq![END_CMD];
    lemma_single_block(payload);
    assert(reply == seq![START_CMD] + inner);
    lemma_first_start_at(stream, noise.len() as int);
    assert(reply_body(stream) == inner);
    assert(inner.subrange(3, 3 + shape.len) == payload);
    lemma_decoding(stream, shape);
    assert forall|n: int| 0 <= n < stream.len() implies !DecoderState::start(shape).feed(
        #[trigger] stream.take(n),
    ).stage.finished_spec() by {
        let part = stream.take(n);
        lemma_decoding(part, shape);
        if n <= noise.len() {
            lemma_first_start_at(part, n);
        } else {
            lemma_first_start_at(part, noise.len() as int);
            assert(reply_body(part) == inner.take(n - noise.len() - 1));
        }
    }
}

/// Length enforcement: a reply is accepted only if the length that it
/// declares is the expected one, and then the payload is exactly the bytes
/// between the header and the closing sentinel, neither cut short nor
/// filled up. A reply with the right code and number of parameters that
/// declares another length is rejected as a shape mismatch, whatever
/// follows it.
pub proof fn lemma_length_enforced(stream: Seq<u8>, shape: ReplyShape)
    ensures
        ({
            let state = DecoderState::start(shape).feed(stream);
            let at = first_start(stream);
            &&& state.stage == Stage::Done ==> {
                &&& at + 4 + shape.len < stream.len()
                &&& stream[at + 3] == shape.len
                &&& state.payload == stream.subrange(at + 4, at + 4 + shape.len)
            }
            &&& (at + 3 < stream.len() && stream[at + 1] == shape.code && stream[at + 2]
                == shape.param_num && stream[at + 3] != shape.len) ==> state.stage
                == Stage::Failed(DriverError::ReplyShapeMismatch)
        }),
{
    lemma_decoding(stream, shape);
    lemma_first_start(stream);
    let at = first_start(stream);
    let body = reply_body(stream);
    if stage_of(stream, shape) == Stage::Done {
        assert(body.subrange(3, 3 + shape.len) == stream.subrange(
            at + 4,
            at + 4 + shape.len,
        ));
    }
}

/// A well-formed reply whose payload is not as long as expected is rejected
/// as a shape mismatch, and nothing that the module sends afterwards
/// changes that.
pub proof fn lemma_wrong_length_rejected(
    noise: Seq<u8>,
    cmd: CmdCode,
    param_num: u8,
    payload: Seq<u8>,
    expected: u8,
    rest: Seq<u8>,
)
    requires
        !noise.contains(START_CMD),
        payload.len() <= u8::MAX,
        payload.len() != expected,
    ensures
        DecoderState::start(reply_shape(cmd, param_num, expected)).feed(
            noise + reply_bytes(cmd, param_num, seq![payload]) + rest,
        ).stage == Stage::Failed(DriverError::ReplyShapeMismatch),
{
    let shape = reply_shape(cmd, param_num, expected);
    let reply = reply_bytes(cmd, param_num, seq![payload]);
    let stream = noise + reply + rest;
    lemma_single_block(payload);
    lemma_first_start_at(stream, noise.len() as int);
    lemma_length_enforced(stream, shape);
}

} // verus!
