use femeter::asr6601::{
    at, bytes_to_hex, configure_commands, contains_ok, hex_to_bytes, init_commands, reply_ok, send_command,
    Asr6601, AtExchange, AtRxStep,
};
use femeter::hal::{LorawanConfig, LorawanError, LorawanJoinMode, LorawanStatus, UartError};

#[test]
fn asr_hex_text() {
    assert_eq!(bytes_to_hex(&[0x01, 0xAB, 0xFF]), b"01ABFF".to_vec());
    let mut out = [0u8; 4];
    assert_eq!(hex_to_bytes(b"01abFF", &mut out), Ok(3));
    assert_eq!(out, [0x01, 0xAB, 0xFF, 0]);
    assert_eq!(hex_to_bytes(b"0g", &mut out), Err(LorawanError::AtError));
    assert_eq!(hex_to_bytes(b"0102030405", &mut out), Err(LorawanError::AtError));
}

#[test]
fn asr_commands() {
    let init = init_commands();
    assert_eq!(init[0], b"AT\r\n".to_vec());
    assert_eq!(init[1], b"AT+BAND=CN470\r\n".to_vec());
    let cfg = LorawanConfig {
        dev_eui: [0x00, 0x11, 0x22, 0x33, 0x44, 0x55, 0x66, 0x77],
        app_eui: [0; 8],
        app_key: [0xA5; 16],
        join_mode: LorawanJoinMode::Otaa,
    };
    let cmds = configure_commands(&cfg);
    assert_eq!(cmds.len(), 4);
    assert_eq!(cmds[0], b"AT+MODE=LWOTAA\r\n".to_vec());
    assert_eq!(cmds[1], b"AT+ID=DevEui,\"0011223344556677\"\r\n".to_vec());
    let abp = LorawanConfig { join_mode: LorawanJoinMode::Abp, ..cfg };
    assert_eq!(configure_commands(&abp), vec![at::SET_ABP.to_vec()]);
    assert_eq!(send_command(&[0x12, 0x34], true), b"AT+CMSG=\"1234\"\r\n".to_vec());
    assert_eq!(send_command(&[], false), b"AT+MSG=\"\"\r\n".to_vec());
}

#[test]
fn asr_reply_reception() {
    let mut ex = AtExchange::new(1000);
    assert_eq!(ex.room(), 256);
    let chunk = b"+VER: 1.0\r\n";
    assert_eq!(ex.on_read(Ok(chunk.len()), chunk), AtRxStep::Continue);
    let chunk = b"OK\r\n";
    assert_eq!(ex.on_read(Ok(chunk.len()), chunk), AtRxStep::Done);
    assert!(contains_ok(ex.reply()));
    assert_eq!(reply_ok(ex.reply()), Ok(()));

    let mut ex = AtExchange::new(0);
    assert_eq!(ex.on_read(Err(UartError::RxTimeout), &[]), AtRxStep::Fail(LorawanError::AtTimeout));
    let mut ex = AtExchange::new(5);
    assert_eq!(ex.on_read(Err(UartError::RxTimeout), &[]), AtRxStep::Continue);
    assert_eq!(ex.on_read(Err(UartError::FramingError), &[]), AtRxStep::Fail(LorawanError::AtError));
}

#[test]
fn asr_module_state() {
    let mut m = Asr6601::new();
    assert_eq!(m.begin_send(), Err(LorawanError::NotJoined));
    m.begin_join();
    assert_eq!(m.status(), LorawanStatus::Joining);
    assert_eq!(m.join_result(b"+JOIN: Network joined\r\n"), Ok(()));
    assert_eq!(m.status(), LorawanStatus::Joined);
    assert_eq!(m.begin_send(), Ok(()));
    assert_eq!(m.status(), LorawanStatus::Sending);
    assert_eq!(m.send_result(b"+CMSG: ERROR\r\n"), Err(LorawanError::SendFailed));
    assert_eq!(m.status(), LorawanStatus::Joined);
    assert_eq!(m.rssi_result(b"+RSSI: -87\r\nOK\r\n"), -87);
    assert_eq!(m.rssi_result(b"no colon"), -87);
    assert_eq!(m.rssi_result(b"+RSSI: 12"), 12);
    assert_eq!(m.join_result(b"+JOIN: Join failed"), Err(LorawanError::JoinFailed));
    assert_eq!(m.status(), LorawanStatus::Error);
}
