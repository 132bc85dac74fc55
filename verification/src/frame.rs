use crate::command::{CmdCode, END_CMD, REPLY_FLAG, START_CMD};
use vstd::prelude::*;

verus! {

/// Longest parameter that one length byte can announce.
pub const MAX_PARAM_LEN: usize = 255;

/// One parameter as it stands on the wire: a byte that gives its length,
/// then its bytes.
pub open spec fn param_block(param: Seq<u8>) -> Seq<u8> {
    seq![param.len() as u8] + param
}

/// The parameters of a frame as they stand on the wire, one block after the
/// other in the order of `params`.
pub open spec fn param_blocks(params: Seq<Seq<u8>>) -> Seq<u8>
    decreases params.len(),
{
    if params.len() == 0 {
        Seq::empty()
    } else {
        param_blocks(params.drop_last()) + param_block(params.last())
    }
}

/// Every parameter fits the length byte that announces it.
pub open spec fn params_fit(params: Seq<Seq<u8>>) -> bool {
    forall|i: int| 0 <= i < params.len() ==> (#[trigger] params[i]).len() <= MAX_PARAM_LEN
}

/// A frame on the wire: the opening sentinel, the code byte, the number of
/// parameters, the parameter blocks and the closing sentinel.
pub open spec fn frame_bytes(code: u8, param_num: u8, params: Seq<Seq<u8>>) -> Seq<u8> {
    seq![START_CMD, code, param_num] + param_blocks(params) + seq![END_CMD]
}

/// The frame by which the host asks for `cmd`: its code byte has the reply
/// flag cleared.
pub open spec fn command_bytes(cmd: CmdCode, param_num: u8, params: Seq<Seq<u8>>) -> Seq<u8> {
    frame_bytes(cmd.code_spec() & !REPLY_FLAG, param_num, params)
}

/// The frame by which the module answers `cmd`: its code byte has the reply
/// flag set.
pub open spec fn reply_bytes(cmd: CmdCode, param_num: u8, params: Seq<Seq<u8>>) -> Seq<u8> {
    frame_bytes(cmd.code_spec() | REPLY_FLAG, param_num, params)
}

/// Clearing the reply flag of a command code leaves the code as it is.
pub proof fn lemma_command_code_byte(cmd: CmdCode)
    ensures
        cmd.code_spec() & !REPLY_FLAG == cmd.code_spec(),
        cmd.code_spec() | REPLY_FLAG == cmd.code_spec() + REPLY_FLAG,
{
    let c = cmd.code_spec();
    cmd.lemma_codes(cmd);
    assert(c < 0x80u8 ==> c & !0x80u8 == c && c | 0x80u8 == c + 0x80u8) by (bit_vector);
}

/// The blocks of a list that grew by one parameter at its end.
pub proof fn lemma_param_blocks_push(params: Seq<Seq<u8>>, param: Seq<u8>)
    ensures
        param_blocks(params.push(param)) == param_blocks(params) + param_block(param),
{
    assert(params.push(param).drop_last() == params);
}

/// The blocks of a list of one parameter are the block of that parameter.
pub proof fn lemma_single_block(param: Seq<u8>)
    ensures
        param_blocks(seq![param]) == param_block(param),
{
    lemma_param_blocks_push(Seq::empty(), param);
    assert(Seq::<Seq<u8>>::empty().push(param) == seq![param]);
}

/// The blocks of two lists laid end to end are the blocks of the first, then
/// the blocks of the second.
pub proof fn lemma_param_blocks_concat(front: Seq<Seq<u8>>, back: Seq<Seq<u8>>)
    ensures
        param_blocks(front + back) == param_blocks(front) + param_blocks(back),
    decreases back.len(),
{
    if back.len() == 0 {
        assert(front + back == front);
    } else {
        lemma_param_blocks_concat(front, back.drop_last());
        assert((front + back).drop_last() == front + back.drop_last());
    }
}

/// Writes the parameters of a frame, one length-prefixed block at a time,
/// behind the bytes that the frame already holds.
pub struct ParamWriter {
    out: Vec<u8>,
}

impl View for ParamWriter {
    type V = Seq<u8>;

    /// All the bytes of the frame so far.
    closed spec fn view(&self) -> Seq<u8> {
        self.out@
    }
}

impl ParamWriter {
    /// A writer that goes on behind the bytes of `out`.
    pub fn new(out: Vec<u8>) -> (writer: ParamWriter)
        ensures
            writer@ == out@,
    {
        ParamWriter { out }
    }

    /// Writes one parameter: the byte that gives the length of `data`, then
    /// `data` itself.
    pub fn write_bytes(&mut self, data: &[u8])
        requires
            data@.len() <= MAX_PARAM_LEN,
        ensures
            final(self)@ == old(self)@ + param_block(data@),
    {
        self.out.push(data.len() as u8);
        let mut i: usize = 0;
        while i < data.len()
            invariant
                i <= data@.len() <= MAX_PARAM_LEN,
                self.out@ == old(self).out@ + seq![data@.len() as u8] + data@.take(i as int),
            decreases data@.len() - i,
        {
            self.out.push(data[i]);
            i += 1;
        }
        assert(data@.take(i as int) == data@);
    }

    /// Hands the frame back, with every block written behind what it held.
    pub fn finish(self) -> (out: Vec<u8>)
        ensures
            out@ == self@,
    {
        self.out
    }
}

/// The views of the parameters in `params`, as the contracts speak of them.
pub open spec fn params_view(params: &Vec<Vec<u8>>) -> Seq<Seq<u8>> {
    Seq::new(params@.len(), |i: int| params@[i]@)
}

/// Builds the frame that asks the module for `cmd`: the opening sentinel,
/// the code with the reply flag cleared, `param_num`, each parameter of
/// `params` as a length-prefixed block in order, and the closing sentinel.
///
/// `param_num` is what the frame declares. The module reads as many blocks
/// as it says, so it should be the number of parameters in `params`.
pub fn send_cmd(cmd: CmdCode, param_num: u8, params: &Vec<Vec<u8>>) -> (frame: Vec<u8>)
    requires
        params_fit(params_view(params)),
    ensures
        frame@ == command_bytes(cmd, param_num, params_view(params)),
{
    let mut head: Vec<u8> = Vec::new();
    head.push(START_CMD);
    head.push(cmd.code() & !REPLY_FLAG);
    head.push(param_num);
    let ghost header = head@;
    let ghost all = params_view(params);
    let mut writer = ParamWriter::new(head);
    let mut i: usize = 0;
    while i < params.len()
        invariant
            i <= params@.len(),
            all == params_view(params),
            params_fit(all),
            writer@ == header + param_blocks(all.take(i as int)),
        decreases params@.len() - i,
    {
        assert(all[i as int] == params@[i as int]@);
        writer.write_bytes(params[i].as_slice());
        proof {
            lemma_param_blocks_push(all.take(i as int), all[i as int]);
            assert(all.take(i as int).push(all[i as int]) == all.take(i + 1));
        }
        i += 1;
    }
    assert(all.take(i as int) == all);
    let mut frame = writer.finish();
    frame.push(END_CMD);
    frame
}

/// A frame taken off the wire.
#[derive(Clone, Debug, PartialEq, Eq)]
pub struct Frame {
    /// The code byte as it stood on the wire, reply flag included.
    pub code: u8,
    /// The parameters, in the order of their blocks.
    pub params: Vec<Vec<u8>>,
}

/// `bytes` is exactly the frame with this code byte and these parameters,
/// and the frame declares as many parameters as it holds.
pub open spec fn is_frame(bytes: Seq<u8>, code: u8, params: Seq<Seq<u8>>) -> bool {
    &&& params.len() <= u8::MAX
    &&& params_fit(params)
    &&& bytes == frame_bytes(code, params.len() as u8, params)
}

/// The code byte and the parameters of the frame that `bytes` is, or `None`
/// where `bytes` is no frame. By `lemma_frame_unique` at most one frame fits.
pub open spec fn parse_spec(bytes: Seq<u8>) -> Option<(u8, Seq<Seq<u8>>)> {
    if exists|code: u8, params: Seq<Seq<u8>>| is_frame(bytes, code, params) {
        Some(choose|found: (u8, Seq<Seq<u8>>)| is_frame(bytes, found.0, found.1))
    } else {
        None
    }
}

/// Where in a frame the block of parameter `k` begins.
pub open spec fn block_offset(params: Seq<Seq<u8>>, k: int) -> int {
    3 + param_blocks(params.take(k)).len() as int
}

/// The layout of a frame: at the offset of parameter `k` stands its length,
/// then its bytes, and behind the last block stands the closing sentinel and
/// nothing more.
pub proof fn lemma_frame_anatomy(bytes: Seq<u8>, code: u8, params: Seq<Seq<u8>>, k: int)
    requires
        is_frame(bytes, code, params),
        0 <= k <= params.len(),
    ensures
        bytes.len() >= 4,
        bytes[0] == START_CMD,
        bytes[1] == code,
        bytes[2] == params.len(),
        3 <= block_offset(params, k) < bytes.len(),
        bytes.take(block_offset(params, k)) == seq![START_CMD, code, params.len() as u8]
            + param_blocks(params.take(k)),
        k < params.len() ==> {
            let at = block_offset(params, k);
            &&& at + 1 + params[k].len() < bytes.len()
            &&& bytes[at] == params[k].len()
            &&& bytes.subrange(at + 1, at + 1 + params[k].len()) == params[k]
            &&& block_offset(params, k + 1) == at + 1 + params[k].len()
        },
        k == params.len() ==> {
            let at = block_offset(params, k);
            &&& at + 1 == bytes.len()
            &&& bytes[at] == END_CMD
        },
{
    let head = seq![START_CMD, code, params.len() as u8];
    let front = params.take(k);
    let at = block_offset(params, k);
    if k < params.len() {
        let here = params[k];
        let back = params.skip(k + 1);
        assert(params == front.push(here) + back);
        lemma_param_blocks_concat(front.push(here), back);
        lemma_param_blocks_push(front, here);
        assert(params.take(k + 1) == front.push(here));
        assert(bytes == head + param_blocks(front) + param_block(here) + param_blocks(back)
            + seq![END_CMD]);
        assert(bytes.take(at) == head + param_blocks(front));
        assert(bytes.subrange(at + 1, at + 1 + here.len()) == here);
    } else {
        assert(front == params);
        assert(bytes.take(at) == head + param_blocks(front));
    }
}

/// A sequence of bytes is a frame in one way at most: the code byte and the
/// parameters can be read back from it.
pub proof fn lemma_frame_unique(
    bytes: Seq<u8>,
    code: u8,
    params: Seq<Seq<u8>>,
    other_code: u8,
    other_params: Seq<Seq<u8>>,
)
    requires
        is_frame(bytes, code, params),
        is_frame(bytes, other_code, other_params),
    ensures
        code == other_code,
        params == other_params,
{
    lemma_frame_anatomy(bytes, code, params, 0);
    lemma_frame_anatomy(bytes, other_code, other_params, 0);
    assert(params.len() == other_params.len());
    lemma_same_prefix(bytes, code, params, other_code, other_params, params.len() as int);
    assert(params.take(params.len() as int) == params);
    assert(other_params.take(params.len() as int) == other_params);
}

/// Two readings of the same bytes as a frame agree on their first `k`
/// parameters.
proof fn lemma_same_prefix(
    bytes: Seq<u8>,
    code: u8,
    params: Seq<Seq<u8>>,
    other_code: u8,
    other_params: Seq<Seq<u8>>,
    k: int,
)
    requires
        is_frame(bytes, code, params),
        is_frame(bytes, other_code, other_params),
        0 <= k <= params.len() == other_params.len(),
    ensures
        params.take(k) == other_params.take(k),
    decreases k,
{
    if k > 0 {
        lemma_same_prefix(bytes, code, params, other_code, other_params, k - 1);
        lemma_frame_anatomy(bytes, code, params, k - 1);
        lemma_frame_anatomy(bytes, other_code, other_params, k - 1);
        assert(params[k - 1] == other_params[k - 1]);
        assert(params.take(k) == params.take(k - 1).push(params[k - 1]));
        assert(other_params.take(k) == other_params.take(k - 1).push(other_params[k - 1]));
    }
}

/// What `parse_spec` gives for the bytes of a frame: the code byte and the
/// parameters of that frame.
pub proof fn lemma_parse_frame(bytes: Seq<u8>, code: u8, params: Seq<Seq<u8>>)
    requires
        is_frame(bytes, code, params),
    ensures
        parse_spec(bytes) == Some((code, params)),
{
    let found = choose|found: (u8, Seq<Seq<u8>>)| is_frame(bytes, found.0, found.1);
    assert(is_frame(bytes, (code, params).0, (code, params).1));
    lemma_frame_unique(bytes, code, params, found.0, found.1);
}

/// Round trip of the framing: the bytes that `send_cmd` builds for a
/// command, with as many parameters declared as written, read back as a
/// frame with the code of that command and those parameters, byte for byte.
pub proof fn lemma_round_trip(cmd: CmdCode, params: Seq<Seq<u8>>)
    requires
        params.len() <= u8::MAX,
        params_fit(params),
    ensures
        parse_spec(command_bytes(cmd, params.len() as u8, params)) == Some(
            (cmd.code_spec(), params),
        ),
{
    lemma_command_code_byte(cmd);
    lemma_parse_frame(
        command_bytes(cmd, params.len() as u8, params),
        cmd.code_spec(),
        params,
    );
}

/// Reads `bytes` as one whole frame. Gives the frame where `bytes` is one,
/// from the opening sentinel to the closing one with as many parameter blocks
/// as the frame declares, and `None` where it is not.
pub fn parse_frame(bytes: &[u8]) -> (found: Option<Frame>)
    ensures
        match found {
            Some(frame) => parse_spec(bytes@) == Some((frame.code, params_view(&frame.params))),
            None => parse_spec(bytes@) is None,
        },
{
    let n = bytes.len();
    if n < 4 || bytes[0] != START_CMD {
        proof {
            assert forall|c: u8, q: Seq<Seq<u8>>| !is_frame(bytes@, c, q) by {
                if is_frame(bytes@, c, q) {
                    lemma_frame_anatomy(bytes@, c, q, 0);
                }
            }
        }
        return None;
    }
    let code = bytes[1];
    let count = bytes[2];
    let mut params: Vec<Vec<u8>> = Vec::new();
    let mut at: usize = 3;
    while params.len() < count as usize
        invariant
            n == bytes@.len(),
            3 <= at <= n,
            code == bytes@[1],
            count == bytes@[2],
            params@.len() <= count,
            params_fit(params_view(&params)),
            bytes@.take(at as int) == seq![START_CMD, code, count] + param_blocks(
                params_view(&params),
            ),
            forall|c: u8, q: Seq<Seq<u8>>| #[trigger]
                is_frame(bytes@, c, q) ==> q.take(params@.len() as int) == params_view(&params),
        decreases count - params@.len(),
    {
        let ghost k = params@.len() as int;
        let ghost read = params_view(&params);
        if at >= n || n - at - 1 < bytes[at] as usize {
            proof {
                assert forall|c: u8, q: Seq<Seq<u8>>| !is_frame(bytes@, c, q) by {
                    if is_frame(bytes@, c, q) {
                        lemma_frame_anatomy(bytes@, c, q, 0);
                        assert(q.take(k) == read);
                        assert(bytes@.take(at as int).len() == at);
                        assert(block_offset(q, k) == at);
                        lemma_frame_anatomy(bytes@, c, q, k);
                    }
                }
            }
            return None;
        }
        let len = bytes[at] as usize;
        let mut param: Vec<u8> = Vec::new();
        let mut j: usize = 0;
        while j < len
            invariant
                n == bytes@.len(),
                j <= len,
                at + 1 + len <= n,
                param@ == bytes@.subrange(at + 1, at + 1 + j),
            decreases len - j,
        {
            param.push(bytes[at + 1 + j]);
            j += 1;
        }
        let ghost block = param@;
        params.push(param);
        proof {
            let grown = params_view(&params);
            assert(grown == read.push(block));
            lemma_param_blocks_push(read, block);
            assert(bytes@.take(at + 1 + len) == bytes@.take(at as int) + param_block(block));
            assert forall|c: u8, q: Seq<Seq<u8>>| #[trigger]
                is_frame(bytes@, c, q) implies q.take(k + 1) == grown by {
                lemma_frame_anatomy(bytes@, c, q, 0);
                assert(q.take(k) == read);
                assert(bytes@.take(at as int).len() == at);
                assert(block_offset(q, k) == at);
                lemma_frame_anatomy(bytes@, c, q, k);
                assert(q[k] == block);
                assert(q.take(k + 1) == q.take(k).push(q[k]));
            }
        }
        at = at + 1 + len;
    }
    let ghost read = params_view(&params);
    if at >= n || n - at != 1 || bytes[at] != END_CMD {
        proof {
            assert forall|c: u8, q: Seq<Seq<u8>>| !is_frame(bytes@, c, q) by {
                if is_frame(bytes@, c, q) {
                    lemma_frame_anatomy(bytes@, c, q, 0);
                    assert(q.take(q.len() as int) == read);
                    assert(bytes@.take(at as int).len() == at);
                    assert(block_offset(q, q.len() as int) == at);
                    lemma_frame_anatomy(bytes@, c, q, q.len() as int);
                }
            }
        }
        return None;
    }
    proof {
        assert(bytes@ == bytes@.take(at as int) + seq![END_CMD]);
        lemma_parse_frame(bytes@, code, read);
    }
    Some(Frame { code, params })
}

} // verus!
