use wifi_coproc::command::CmdCode;
use wifi_coproc::error::DriverError;
use wifi_coproc::reply::{read_byte, ReplyDecoder, ReplyShape, Stage, Transfer, PAYLOAD_FILL};

const MAC_REPLY: [u8; 11] = [0xE0, 0xA2, 0x01, 0x06, 0xAA, 0xBB, 0xCC, 0xDD, 0xEE, 0xFF, 0xEE];

#[test]
fn read_byte_sends_one_dummy() {
    assert_eq!(read_byte(), Transfer { len: 1, fill: 0xFF });
    assert_eq!(PAYLOAD_FILL, 0x00);
}

#[test]
fn decoder_goes_through_the_stages_of_a_reply() {
    let mut decoder = ReplyDecoder::new(CmdCode::GetMACAddress, 1, 6);
    assert_eq!(decoder.stage(), Stage::Scan);
    let stages: Vec<Stage> = MAC_REPLY.iter().map(|byte| decoder.push(*byte)).collect();
    assert_eq!(
        stages,
        vec![
            Stage::Code,
            Stage::Count,
            Stage::Length,
            Stage::Payload,
            Stage::Payload,
            Stage::Payload,
            Stage::Payload,
            Stage::Payload,
            Stage::Payload,
            Stage::End,
            Stage::Done,
        ]
    );
    assert_eq!(decoder.payload(), &vec![0xAA, 0xBB, 0xCC, 0xDD, 0xEE, 0xFF]);
    assert!(decoder.stage().finished());
}

#[test]
fn receive_reply_decodes_a_whole_reply() {
    let mut decoder = ReplyDecoder::new(CmdCode::GetMACAddress, 1, 6);
    assert_eq!(decoder.receive_reply(&MAC_REPLY), Stage::Done);
    assert_eq!(decoder.payload(), &vec![0xAA, 0xBB, 0xCC, 0xDD, 0xEE, 0xFF]);
}

#[test]
fn receive_reply_skips_noise_before_the_sentinel() {
    let mut stream = vec![0x00, 0xFF, 0xEE, 0xA2, 0x01, 0x06, 0x7F, 0xE1];
    stream.extend_from_slice(&MAC_REPLY);
    let mut decoder = ReplyDecoder::new(CmdCode::GetMACAddress, 1, 6);
    assert_eq!(decoder.receive_reply(&stream[..8]), Stage::Scan);
    assert_eq!(decoder.receive_reply(&stream[8..]), Stage::Done);
    assert_eq!(decoder.payload(), &vec![0xAA, 0xBB, 0xCC, 0xDD, 0xEE, 0xFF]);
}

#[test]
fn receive_reply_is_done_with_the_last_byte_and_not_before() {
    let mut decoder = ReplyDecoder::new(CmdCode::GetMACAddress, 1, 6);
    assert_eq!(decoder.receive_reply(&[0x11, 0x22]), Stage::Scan);
    let last = MAC_REPLY.len() - 1;
    let before = decoder.receive_reply(&MAC_REPLY[..last]);
    assert_eq!(before, Stage::End);
    assert!(!before.finished());
    assert_eq!(decoder.receive_reply(&MAC_REPLY[last..]), Stage::Done);
}

#[test]
fn receive_reply_in_pieces_is_receive_reply_at_once() {
    for cut in 0..=MAC_REPLY.len() {
        let mut pieces = ReplyDecoder::new(CmdCode::GetMACAddress, 1, 6);
        pieces.receive_reply(&MAC_REPLY[..cut]);
        let stage = pieces.receive_reply(&MAC_REPLY[cut..]);
        assert_eq!(stage, Stage::Done);
        assert_eq!(pieces.payload(), &vec![0xAA, 0xBB, 0xCC, 0xDD, 0xEE, 0xFF]);
    }
}

#[test]
fn a_sentinel_in_the_noise_desynchronizes() {
    let mut stream = vec![0xE0];
    stream.extend_from_slice(&MAC_REPLY);
    let mut decoder = ReplyDecoder::new(CmdCode::GetMACAddress, 1, 6);
    assert_eq!(
        decoder.receive_reply(&stream),
        Stage::Failed(DriverError::ProtocolDesync)
    );
}

#[test]
fn a_shorter_declared_length_is_a_shape_mismatch() {
    let reply = [0xE0, 0xA2, 0x01, 0x05, 0xAA, 0xBB, 0xCC, 0xDD, 0xEE, 0xEE];
    let mut decoder = ReplyDecoder::new(CmdCode::GetMACAddress, 1, 6);
    assert_eq!(
        decoder.receive_reply(&reply),
        Stage::Failed(DriverError::ReplyShapeMismatch)
    );
    assert_eq!(decoder.payload(), &Vec::<u8>::new());
}

#[test]
fn a_longer_declared_length_is_a_shape_mismatch() {
    let reply = [0xE0, 0xA2, 0x01, 0x07, 1, 2, 3, 4, 5, 6, 7, 0xEE];
    let mut decoder = ReplyDecoder::new(CmdCode::GetMACAddress, 1, 6);
    assert_eq!(
        decoder.receive_reply(&reply[..4]),
        Stage::Failed(DriverError::ReplyShapeMismatch)
    );
    assert_eq!(
        decoder.receive_reply(&reply[4..]),
        Stage::Failed(DriverError::ReplyShapeMismatch)
    );
    assert_eq!(decoder.payload(), &Vec::<u8>::new());
}

#[test]
fn a_wrong_code_is_a_desync() {
    let mut decoder = ReplyDecoder::new(CmdCode::GetMACAddress, 1, 6);
    assert_eq!(
        decoder.receive_reply(&[0xE0, 0x22]),
        Stage::Failed(DriverError::ProtocolDesync)
    );
    let mut other = ReplyDecoder::new(CmdCode::GetMACAddress, 1, 6);
    assert_eq!(
        other.receive_reply(&[0xE0, 0xA1]),
        Stage::Failed(DriverError::ProtocolDesync)
    );
}

#[test]
fn a_wrong_parameter_count_is_a_desync() {
    let mut decoder = ReplyDecoder::new(CmdCode::GetMACAddress, 1, 6);
    assert_eq!(
        decoder.receive_reply(&[0xE0, 0xA2, 0x02]),
        Stage::Failed(DriverError::ProtocolDesync)
    );
}

#[test]
fn a_wrong_closing_sentinel_is_a_desync() {
    let reply = [0xE0, 0xA2, 0x01, 0x06, 0xAA, 0xBB, 0xCC, 0xDD, 0xEE, 0xFF, 0xE0];
    let mut decoder = ReplyDecoder::new(CmdCode::GetMACAddress, 1, 6);
    assert_eq!(
        decoder.receive_reply(&reply),
        Stage::Failed(DriverError::ProtocolDesync)
    );
}

#[test]
fn a_finished_decoder_takes_no_more_bytes() {
    let mut decoder = ReplyDecoder::new(CmdCode::GetMACAddress, 1, 6);
    assert_eq!(decoder.receive_reply(&MAC_REPLY), Stage::Done);
    assert_eq!(decoder.receive_reply(&MAC_REPLY), Stage::Done);
    assert_eq!(decoder.push(0x00), Stage::Done);
    assert_eq!(decoder.payload(), &vec![0xAA, 0xBB, 0xCC, 0xDD, 0xEE, 0xFF]);
}

#[test]
fn an_empty_payload_goes_straight_to_the_closing_sentinel() {
    let mut decoder = ReplyDecoder::new(CmdCode::Ping, 1, 0);
    assert_eq!(decoder.receive_reply(&[0xE0, 0xBE, 0x01, 0x00]), Stage::End);
    assert_eq!(decoder.wanted(), Transfer { len: 1, fill: 0xFF });
    assert_eq!(decoder.push(0xEE), Stage::Done);
    assert_eq!(decoder.payload(), &Vec::<u8>::new());
}

#[test]
fn wanted_asks_for_single_bytes_and_for_the_payload_in_one_piece() {
    let mut decoder = ReplyDecoder::new(CmdCode::GetMACAddress, 1, 6);
    assert_eq!(decoder.wanted(), Transfer { len: 1, fill: 0xFF });
    decoder.receive_reply(&[0x00, 0xE0]);
    assert_eq!(decoder.wanted(), Transfer { len: 1, fill: 0xFF });
    decoder.receive_reply(&[0xA2, 0x01]);
    assert_eq!(decoder.wanted(), Transfer { len: 1, fill: 0xFF });
    decoder.push(0x06);
    assert_eq!(decoder.wanted(), Transfer { len: 6, fill: 0x00 });
    decoder.receive_reply(&[0xAA, 0xBB]);
    assert_eq!(decoder.wanted(), Transfer { len: 4, fill: 0x00 });
    decoder.receive_reply(&[0xCC, 0xDD, 0xEE, 0xFF]);
    assert_eq!(decoder.stage(), Stage::End);
    assert_eq!(decoder.wanted(), Transfer { len: 1, fill: 0xFF });
}

#[test]
fn expecting_takes_the_code_byte_as_it_is() {
    let shape = ReplyShape { code: 0x22, param_num: 1, len: 1 };
    let mut decoder = ReplyDecoder::expecting(shape);
    assert_eq!(decoder.receive_reply(&[0xE0, 0x22, 0x01, 0x01, 0xFF, 0xEE]), Stage::Done);
    assert_eq!(decoder.payload(), &vec![0xFF]);
}

#[test]
fn the_longest_payload_is_collected_whole() {
    let payload = vec![0x33; 255];
    let mut reply = vec![0xE0, 0xAC, 0x01, 0xFF];
    reply.extend_from_slice(&payload);
    reply.push(0xEE);
    let mut decoder = ReplyDecoder::new(CmdCode::GetDataTCP, 1, 255);
    assert_eq!(decoder.receive_reply(&reply), Stage::Done);
    assert_eq!(decoder.payload(), &payload);
}
