use vstd::prelude::*;

verus! {

/// Sentinel byte that opens every frame.
pub const START_CMD: u8 = 0xe0;

/// Sentinel byte that closes every frame.
pub const END_CMD: u8 = 0xee;

/// Bit of the code byte that tells a reply from a command: clear in what the
/// host sends, set in what the module answers.
pub const REPLY_FLAG: u8 = 0x80;

/// Byte put on the bus when the host only wants to clock a byte in.
pub const DUMMY: u8 = 0xff;

/// The operations that the module understands.
#[derive(Clone, Copy, Debug, PartialEq, Eq, Structural)]
pub enum CmdCode {
    SetNet,
    SetPassPhrase,
    SetKey,
    SetIPConfig,
    SetDNSConfig,
    SetHostname,
    SetPowerMode,
    SetAPNet,
    SetAPPassPhrase,
    SetDebug,
    GetTemperature,
    GetConnStatus,
    GetIPAddress,
    GetMACAddress,
    GetCurrentSSID,
    GetCurrentBSSID,
    GetCurrentRSSI,
    GetCurrentEncryption,
    ScanNetwork,
    StartServerTCP,
    GetStateTCP,
    DataSentTCP,
    AvailableDataTCP,
    GetDataTCP,
    StartClientTCP,
    StopClientTCP,
    GetClientStateTCP,
    Disconnect,
    GetIndexRSSI,
    GetIndexEncryption,
    RequestHostByName,
    GetHostByName,
    StartScanNetworks,
    GetFirmwareVersion,
    SendUDPData,
    GetRemoteData,
    GetTime,
    GetIndexBSSID,
    GetIndexChannel,
    Ping,
    GetSocket,
    SetClientCert,
    SetCertKey,
    SendDataTCP,
    GetDataBufTCP,
    InsertDataBuf,
    WPA2EnterpriseSetIdentity,
    WPA2EnterpriseSetUsername,
    WPA2EnterpriseSetPassword,
    WPA2EnterpriseSetCACert,
    WPA2EnterpriseSetCertKey,
    WPA2EnterpriseEnable,
    SetPinMode,
    SetDigitalWrite,
    SetAnalogWrite,
    SetDigitalRead,
    SetAnalogRead,
}

impl CmdCode {
    /// The byte that stands for this command on the wire.
    pub open spec fn code_spec(self) -> u8 {
        match self {
            CmdCode::SetNet => 0x10,
            CmdCode::SetPassPhrase => 0x11,
            CmdCode::SetKey => 0x12,
            CmdCode::SetIPConfig => 0x14,
            CmdCode::SetDNSConfig => 0x15,
            CmdCode::SetHostname => 0x16,
            CmdCode::SetPowerMode => 0x17,
            CmdCode::SetAPNet => 0x18,
            CmdCode::SetAPPassPhrase => 0x19,
            CmdCode::SetDebug => 0x1a,
            CmdCode::GetTemperature => 0x1b,
            CmdCode::GetConnStatus => 0x20,
            CmdCode::GetIPAddress => 0x21,
            CmdCode::GetMACAddress => 0x22,
            CmdCode::GetCurrentSSID => 0x23,
            CmdCode::GetCurrentBSSID => 0x24,
            CmdCode::GetCurrentRSSI => 0x25,
            CmdCode::GetCurrentEncryption => 0x26,
            CmdCode::ScanNetwork => 0x27,
            CmdCode::StartServerTCP => 0x28,
            CmdCode::GetStateTCP => 0x29,
            CmdCode::DataSentTCP => 0x2a,
            CmdCode::AvailableDataTCP => 0x2b,
            CmdCode::GetDataTCP => 0x2c,
            CmdCode::StartClientTCP => 0x2d,
            CmdCode::StopClientTCP => 0x2e,
            CmdCode::GetClientStateTCP => 0x2f,
            CmdCode::Disconnect => 0x30,
            CmdCode::GetIndexRSSI => 0x32,
            CmdCode::GetIndexEncryption => 0x33,
            CmdCode::RequestHostByName => 0x34,
            CmdCode::GetHostByName => 0x35,
            CmdCode::StartScanNetworks => 0x36,
            CmdCode::GetFirmwareVersion => 0x37,
            CmdCode::SendUDPData => 0x39,
            CmdCode::GetRemoteData => 0x3a,
            CmdCode::GetTime => 0x3b,
            CmdCode::GetIndexBSSID => 0x3c,
            CmdCode::GetIndexChannel => 0x3d,
            CmdCode::Ping => 0x3e,
            CmdCode::GetSocket => 0x3f,
            CmdCode::SetClientCert => 0x40,
            CmdCode::SetCertKey => 0x41,
            CmdCode::SendDataTCP => 0x44,
            CmdCode::GetDataBufTCP => 0x45,
            CmdCode::InsertDataBuf => 0x46,
            CmdCode::WPA2EnterpriseSetIdentity => 0x4a,
            CmdCode::WPA2EnterpriseSetUsername => 0x4b,
            CmdCode::WPA2EnterpriseSetPassword => 0x4c,
            CmdCode::WPA2EnterpriseSetCACert => 0x4d,
            CmdCode::WPA2EnterpriseSetCertKey => 0x4e,
            CmdCode::WPA2EnterpriseEnable => 0x4f,
            CmdCode::SetPinMode => 0x50,
            CmdCode::SetDigitalWrite => 0x51,
            CmdCode::SetAnalogWrite => 0x52,
            CmdCode::SetDigitalRead => 0x53,
            CmdCode::SetAnalogRead => 0x54,
        }
    }

    /// The byte that stands for this command on the wire.
    #[verifier::when_used_as_spec(code_spec)]
    pub fn code(self) -> (c: u8)
        ensures
            c == self.code_spec(),
            c < REPLY_FLAG,
    {
        match self {
            CmdCode::SetNet => 0x10,
            CmdCode::SetPassPhrase => 0x11,
            CmdCode::SetKey => 0x12,
            CmdCode::SetIPConfig => 0x14,
            CmdCode::SetDNSConfig => 0x15,
            CmdCode::SetHostname => 0x16,
            CmdCode::SetPowerMode => 0x17,
            CmdCode::SetAPNet => 0x18,
            CmdCode::SetAPPassPhrase => 0x19,
            CmdCode::SetDebug => 0x1a,
            CmdCode::GetTemperature => 0x1b,
            CmdCode::GetConnStatus => 0x20,
            CmdCode::GetIPAddress => 0x21,
            CmdCode::GetMACAddress => 0x22,
            CmdCode::GetCurrentSSID => 0x23,
            CmdCode::GetCurrentBSSID => 0x24,
            CmdCode::GetCurrentRSSI => 0x25,
            CmdCode::GetCurrentEncryption => 0x26,
            CmdCode::ScanNetwork => 0x27,
            CmdCode::StartServerTCP => 0x28,
            CmdCode::GetStateTCP => 0x29,
            CmdCode::DataSentTCP => 0x2a,
            CmdCode::AvailableDataTCP => 0x2b,
            CmdCode::GetDataTCP => 0x2c,
            CmdCode::StartClientTCP => 0x2d,
            CmdCode::StopClientTCP => 0x2e,
            CmdCode::GetClientStateTCP => 0x2f,
            CmdCode::Disconnect => 0x30,
            CmdCode::GetIndexRSSI => 0x32,
            CmdCode::GetIndexEncryption => 0x33,
            CmdCode::RequestHostByName => 0x34,
            CmdCode::GetHostByName => 0x35,
            CmdCode::StartScanNetworks => 0x36,
            CmdCode::GetFirmwareVersion => 0x37,
            CmdCode::SendUDPData => 0x39,
            CmdCode::GetRemoteData => 0x3a,
            CmdCode::GetTime => 0x3b,
            CmdCode::GetIndexBSSID => 0x3c,
            CmdCode::GetIndexChannel => 0x3d,
            CmdCode::Ping => 0x3e,
            CmdCode::GetSocket => 0x3f,
            CmdCode::SetClientCert => 0x40,
            CmdCode::SetCertKey => 0x41,
            CmdCode::SendDataTCP => 0x44,
            CmdCode::GetDataBufTCP => 0x45,
            CmdCode::InsertDataBuf => 0x46,
            CmdCode::WPA2EnterpriseSetIdentity => 0x4a,
            CmdCode::WPA2EnterpriseSetUsername => 0x4b,
            CmdCode::WPA2EnterpriseSetPassword => 0x4c,
            CmdCode::WPA2EnterpriseSetCACert => 0x4d,
            CmdCode::WPA2EnterpriseSetCertKey => 0x4e,
            CmdCode::WPA2EnterpriseEnable => 0x4f,
            CmdCode::SetPinMode => 0x50,
            CmdCode::SetDigitalWrite => 0x51,
            CmdCode::SetAnalogWrite => 0x52,
            CmdCode::SetDigitalRead => 0x53,
            CmdCode::SetAnalogRead => 0x54,
        }
    }

    /// No command code uses the reply flag, so a code byte with the flag
    /// cleared is the code itself, and two commands with one code are one
    /// command.
    pub proof fn lemma_codes(self, other: CmdCode)
        ensures
            self.code_spec() < REPLY_FLAG,
            self.code_spec() == other.code_spec() ==> self == other,
    {
    }
}

} // verus!
