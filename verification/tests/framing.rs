use wifi_coproc::command::{CmdCode, DUMMY, END_CMD, REPLY_FLAG, START_CMD};
use wifi_coproc::frame::{parse_frame, send_cmd, Frame, ParamWriter, MAX_PARAM_LEN};

#[test]
fn wire_constants() {
    assert_eq!(START_CMD, 0xE0);
    assert_eq!(END_CMD, 0xEE);
    assert_eq!(REPLY_FLAG, 0x80);
    assert_eq!(DUMMY, 0xFF);
    assert_eq!(MAX_PARAM_LEN, 255);
}

#[test]
fn command_codes_are_those_of_the_module() {
    assert_eq!(CmdCode::SetNet.code(), 0x10);
    assert_eq!(CmdCode::SetPassPhrase.code(), 0x11);
    assert_eq!(CmdCode::SetIPConfig.code(), 0x14);
    assert_eq!(CmdCode::GetTemperature.code(), 0x1B);
    assert_eq!(CmdCode::GetConnStatus.code(), 0x20);
    assert_eq!(CmdCode::GetMACAddress.code(), 0x22);
    assert_eq!(CmdCode::Disconnect.code(), 0x30);
    assert_eq!(CmdCode::GetIndexRSSI.code(), 0x32);
    assert_eq!(CmdCode::GetFirmwareVersion.code(), 0x37);
    assert_eq!(CmdCode::SendUDPData.code(), 0x39);
    assert_eq!(CmdCode::GetSocket.code(), 0x3F);
    assert_eq!(CmdCode::SetClientCert.code(), 0x40);
    assert_eq!(CmdCode::SendDataTCP.code(), 0x44);
    assert_eq!(CmdCode::WPA2EnterpriseSetIdentity.code(), 0x4A);
    assert_eq!(CmdCode::WPA2EnterpriseEnable.code(), 0x4F);
    assert_eq!(CmdCode::SetPinMode.code(), 0x50);
    assert_eq!(CmdCode::SetAnalogRead.code(), 0x54);
}

#[test]
fn no_command_code_has_the_reply_flag() {
    let some = [
        CmdCode::SetNet,
        CmdCode::GetMACAddress,
        CmdCode::GetSocket,
        CmdCode::SetClientCert,
        CmdCode::SetAnalogRead,
    ];
    for cmd in some {
        assert_eq!(cmd.code() & REPLY_FLAG, 0);
    }
}

#[test]
fn param_writer_writes_length_then_bytes() {
    let mut writer = ParamWriter::new(Vec::new());
    writer.write_bytes(&[0xAA, 0xBB, 0xCC]);
    assert_eq!(writer.finish(), vec![0x03, 0xAA, 0xBB, 0xCC]);
}

#[test]
fn param_writer_goes_on_behind_what_is_there() {
    let mut writer = ParamWriter::new(vec![0xE0, 0x10, 0x02]);
    writer.write_bytes(&[0x01]);
    writer.write_bytes(&[]);
    writer.write_bytes(&[0x02, 0x03]);
    assert_eq!(
        writer.finish(),
        vec![0xE0, 0x10, 0x02, 0x01, 0x01, 0x00, 0x02, 0x02, 0x03]
    );
}

#[test]
fn param_writer_takes_the_longest_parameter() {
    let data = vec![0x5A; 255];
    let mut writer = ParamWriter::new(Vec::new());
    writer.write_bytes(&data);
    let out = writer.finish();
    assert_eq!(out.len(), 256);
    assert_eq!(out[0], 0xFF);
    assert_eq!(&out[1..], &data[..]);
}

#[test]
fn send_cmd_builds_the_mac_address_frame() {
    let frame = send_cmd(CmdCode::GetMACAddress, 1, &vec![vec![0xFF]]);
    assert_eq!(frame, vec![0xE0, 0x22, 0x01, 0x01, 0xFF, 0xEE]);
}

#[test]
fn send_cmd_without_parameters() {
    let frame = send_cmd(CmdCode::GetConnStatus, 0, &Vec::new());
    assert_eq!(frame, vec![0xE0, 0x20, 0x00, 0xEE]);
}

#[test]
fn send_cmd_writes_parameters_in_order() {
    let params = vec![vec![b'n', b'e', b't'], vec![], vec![b'p', b'w']];
    let frame = send_cmd(CmdCode::SetPassPhrase, 3, &params);
    assert_eq!(
        frame,
        vec![0xE0, 0x11, 0x03, 0x03, b'n', b'e', b't', 0x00, 0x02, b'p', b'w', 0xEE]
    );
}

#[test]
fn send_cmd_declares_the_count_it_is_given() {
    let frame = send_cmd(CmdCode::SetNet, 2, &vec![vec![0x01]]);
    assert_eq!(frame, vec![0xE0, 0x10, 0x02, 0x01, 0x01, 0xEE]);
}

#[test]
fn round_trip_reproduces_code_count_and_payloads() {
    let params = vec![vec![0x00], vec![0xE0, 0xEE], vec![], vec![0x42; 255]];
    let frame = send_cmd(CmdCode::StartClientTCP, 4, &params);
    let parsed = parse_frame(&frame);
    assert_eq!(
        parsed,
        Some(Frame { code: CmdCode::StartClientTCP.code(), params: params.clone() })
    );
    let back = parsed.unwrap();
    assert_eq!(back.code, 0x2D);
    assert_eq!(back.params.len(), 4);
    assert_eq!(back.params, params);
}

#[test]
fn round_trip_of_each_shape_of_parameter_list() {
    let lists: Vec<Vec<Vec<u8>>> = vec![
        vec![],
        vec![vec![]],
        vec![vec![0xFF]],
        vec![vec![1, 2, 3], vec![4]],
        vec![vec![0xEE], vec![0xE0], vec![0xEE, 0xEE]],
    ];
    for params in lists {
        let frame = send_cmd(CmdCode::Ping, params.len() as u8, &params);
        assert_eq!(
            parse_frame(&frame),
            Some(Frame { code: 0x3E, params: params.clone() })
        );
    }
}

#[test]
fn parse_frame_keeps_the_reply_flag() {
    let bytes = [0xE0, 0xA2, 0x01, 0x06, 0xAA, 0xBB, 0xCC, 0xDD, 0xEE, 0xFF, 0xEE];
    let frame = parse_frame(&bytes).unwrap();
    assert_eq!(frame.code, 0xA2);
    assert_eq!(frame.code & REPLY_FLAG, REPLY_FLAG);
    assert_eq!(frame.params, vec![vec![0xAA, 0xBB, 0xCC, 0xDD, 0xEE, 0xFF]]);
}

#[test]
fn parse_frame_refuses_what_is_no_frame() {
    assert_eq!(parse_frame(&[]), None);
    assert_eq!(parse_frame(&[0xE0, 0x22, 0x00]), None);
    assert_eq!(parse_frame(&[0xE1, 0x22, 0x00, 0xEE]), None);
    assert_eq!(parse_frame(&[0xE0, 0x22, 0x00, 0xEF]), None);
    assert_eq!(parse_frame(&[0xE0, 0x22, 0x00, 0xEE, 0x00]), None);
    assert_eq!(parse_frame(&[0xE0, 0x22, 0x01, 0xEE]), None);
    assert_eq!(parse_frame(&[0xE0, 0x22, 0x01, 0x02, 0xAA, 0xEE]), None);
    assert_eq!(parse_frame(&[0xE0, 0x22, 0x01, 0x01, 0xAA]), None);
    assert_eq!(parse_frame(&[0xE0, 0x22, 0x02, 0x01, 0xAA, 0xEE]), None);
    assert_eq!(parse_frame(&[0xE0, 0x22, 0x00, 0x01, 0xAA, 0xEE]), None);
    assert_eq!(parse_frame(&[0x00, 0xE0, 0x22, 0x00, 0xEE]), None);
}

#[test]
fn parse_frame_refuses_a_frame_that_declares_more_than_it_holds() {
    let frame = send_cmd(CmdCode::SetNet, 2, &vec![vec![0x01]]);
    assert_eq!(parse_frame(&frame), None);
}
