use femeter::at_parser::{
    classify_reply_line, hex_digit, is_send_prompt, uplink_route, wait_ok_step, wait_prefix_step, wait_timed_out,
    AtError, AtResponse, ChannelId, QoS, ReplyLine,
};
use femeter::freertos::ms_to_ticks;

#[test]
fn at_hex_digits() {
    assert_eq!(hex_digit(0), b'0');
    assert_eq!(hex_digit(9), b'9');
    assert_eq!(hex_digit(10), b'A');
    assert_eq!(hex_digit(15), b'F');
}

#[test]
fn at_levels_and_channels() {
    assert_eq!(QoS::QoS0.level(), 0);
    assert_eq!(QoS::QoS2.level(), 2);
    assert_eq!(ChannelId::Rs485.index(), 0);
    assert_eq!(ChannelId::Lorawan.index(), 3);
}

#[test]
fn freertos_ticks_are_milliseconds() {
    assert_eq!(ms_to_ticks(0), 0);
    assert_eq!(ms_to_ticks(1500), 1500);
}

use femeter::at_parser::{detect_urc, parse_csq, parse_last_number, trim_bytes, urc_line_supported, UrcEvent};

#[test]
fn at_urc_basic_codes() {
    assert!(matches!(detect_urc("RDY"), Some(UrcEvent::Ready)));
    assert!(matches!(detect_urc("POWER DOWN"), Some(UrcEvent::PowerDown)));
    assert!(matches!(detect_urc("RING"), Some(UrcEvent::Ring)));
    assert!(detect_urc("OK").is_none());
    assert!(detect_urc("AT+CSQ").is_none());
}

#[test]
fn at_urc_numbers() {
    assert!(matches!(detect_urc("+CREG: 0,5"), Some(UrcEvent::NetworkRegChanged { stat: 5 })));
    assert!(matches!(detect_urc("+CEREG: 1"), Some(UrcEvent::NetworkRegChanged { stat: 1 })));
    assert!(matches!(detect_urc("+CSQ: 23,99"), Some(UrcEvent::SignalChanged { rssi: 23, ber: 99 })));
    assert!(matches!(detect_urc("+CSQ: 18, 3"), Some(UrcEvent::SignalChanged { rssi: 18, ber: 3 })));
    assert!(matches!(
        detect_urc("+QIURC: \"recv\",2,128"),
        Some(UrcEvent::DataReceived { conn_id: 2, size: 128 })
    ));
    assert!(matches!(detect_urc("+QIURC: \"closed\",4"), Some(UrcEvent::ConnectionClosed { conn_id: 4 })));
    assert!(matches!(detect_urc("+CMT: \"+8613800000000\",,\"26/04/05\",300"), Some(UrcEvent::SmsReceived { index: 300 })));
    // the register state is narrowed to 8 bits
    assert!(matches!(detect_urc("+CREG: 0,261"), Some(UrcEvent::NetworkRegChanged { stat: 5 })));
}

#[test]
fn at_urc_lorawan_and_custom() {
    assert!(matches!(detect_urc("+RECV: 1,5"), Some(UrcEvent::LorawanRxReceived { port: 0, rssi: 0, snr: 0, .. })));
    assert!(matches!(detect_urc("+SEND: OK"), Some(UrcEvent::LorawanTxDone { status: 0 })));
    assert!(matches!(detect_urc("JOIN Success"), Some(UrcEvent::LorawanJoined)));
    match detect_urc("+QMTSTAT: 0,1") {
        Some(UrcEvent::Custom(s)) => assert_eq!(s.as_str(), "+QMTSTAT: 0,1"),
        _ => panic!("custom code expected"),
    }
    let long: String = core::iter::once('+').chain(core::iter::repeat('x').take(200)).collect();
    match detect_urc(&long) {
        Some(UrcEvent::Custom(s)) => assert_eq!(s.len(), 128),
        _ => panic!("custom code expected"),
    }
}

#[test]
fn at_line_helpers() {
    assert_eq!(parse_last_number(b"+CREG: 0,5"), Some(5));
    assert_eq!(parse_last_number(b"no digits"), None);
    assert_eq!(parse_last_number(b"x 99999999999"), None);
    assert_eq!(parse_csq(b"+CSQ: 31,0"), (31, 0));
    assert_eq!(parse_csq(b"+CSQ: abc"), (99, 99));
    assert_eq!(trim_bytes(" \t ab c \r\n".as_bytes()), b"ab c".to_vec());
    assert_eq!(trim_bytes("\u{3000}7\u{a0}".as_bytes()), b"7".to_vec());
    assert!(urc_line_supported("+CSQ: 1,2"));
    assert!(!urc_line_supported("+CSQ: 1,2,3,4,5"));
    assert!(!urc_line_supported("+QIURC: \"recv\",1,2,3,4"));
}

// ---- channel routing ----

struct NoRs485;
impl femeter::at_parser::Rs485Channel for NoRs485 {
    fn send_dlms(&mut self, _frame: &[u8]) -> Result<(), AtError> {
        Ok(())
    }
    fn recv_dlms(&mut self, _buf: &mut [u8]) -> Result<usize, AtError> {
        Ok(0)
    }
    fn set_baudrate(&mut self, _baud: u32) {}
}

struct NoIrda;
impl femeter::at_parser::IrdaChannel for NoIrda {
    fn send_iec62056(&mut self, _data: &str) -> Result<(), AtError> {
        Ok(())
    }
    fn recv_iec62056(&mut self, _buf: &mut [u8]) -> Result<usize, AtError> {
        Ok(0)
    }
    fn set_mode(&mut self, _mode: femeter::at_parser::IecMode) {}
}

struct Cloud {
    connected: bool,
    published: Vec<(String, Vec<u8>)>,
}
impl femeter::at_parser::CloudChannel for Cloud {
    fn is_connected(&self) -> bool {
        self.connected
    }
    fn publish(&mut self, topic: &str, data: &[u8]) -> Result<(), AtError> {
        self.published.push((topic.to_string(), data.to_vec()));
        Ok(())
    }
    fn subscribe(&mut self, _topic: &str) -> Result<(), AtError> {
        Ok(())
    }
    fn poll_incoming(&mut self) -> Option<femeter::at_parser::CloudMessage> {
        None
    }
}

struct Lora {
    joined: bool,
    sent: Vec<(u8, Vec<u8>, bool)>,
}
impl femeter::at_parser::LorawanChannel for Lora {
    fn is_joined(&self) -> bool {
        self.joined
    }
    fn send(&mut self, port: u8, data: &[u8], confirmed: bool) -> Result<(), AtError> {
        self.sent.push((port, data.to_vec(), confirmed));
        Ok(())
    }
    fn poll_rx(&mut self) -> Option<femeter::at_parser::LorawanRxMessage> {
        None
    }
}

fn manager(
    connected: bool,
    joined: bool,
) -> femeter::at_parser::ChannelManager<NoRs485, NoIrda, Cloud, Lora> {
    femeter::at_parser::ChannelManager::new(
        NoRs485,
        NoIrda,
        Cloud { connected, published: Vec::new() },
        Lora { joined, sent: Vec::new() },
    )
}

#[test]
fn uplink_prefers_cat1() {
    let mut m = manager(true, true);
    assert_eq!(m.route_uplink("meter/data", &[1, 2]), Ok(ChannelId::Cat1));
    assert!(m.poll_all().is_none());
    assert!(m.poll_cat1_urc().is_none());
}

#[test]
fn uplink_falls_back_to_lorawan() {
    let mut m = manager(false, true);
    assert_eq!(m.route_uplink("meter/data", &[1, 2]), Ok(ChannelId::Lorawan));
}

#[test]
fn uplink_without_channel_not_ready() {
    let mut m = manager(false, false);
    assert_eq!(m.route_uplink("meter/data", &[1, 2]), Err(AtError::NotReady));
}

#[test]
fn uplink_route_table() {
    assert_eq!(uplink_route(true, false), Some(ChannelId::Cat1));
    assert_eq!(uplink_route(false, true), Some(ChannelId::Lorawan));
    assert_eq!(uplink_route(false, false), None);
}

fn feed(line: &mut heapless::String<256>, bytes: &[u8]) -> Vec<heapless::String<256>> {
    let mut out = Vec::new();
    for &b in bytes {
        if let Some(l) = femeter::at_parser::at_line_step(line, b) {
            out.push(l);
        }
    }
    out
}

#[test]
fn at_line_step_splits_lines_and_skips_cr() {
    let mut buf: heapless::String<256> = heapless::String::new();
    let lines = feed(&mut buf, b"\r\n+CSQ: 20,0\r\n\r\nOK\r\nAT");
    assert_eq!(lines.len(), 2);
    assert_eq!(lines[0].as_str(), "+CSQ: 20,0");
    assert_eq!(lines[1].as_str(), "OK");
    assert_eq!(buf.as_str(), "AT");
}

#[test]
fn at_line_step_high_byte_is_its_character() {
    let mut buf: heapless::String<256> = heapless::String::new();
    assert!(femeter::at_parser::at_line_step(&mut buf, 0xE9).is_none());
    assert_eq!(buf.as_bytes(), &[0xC3, 0xA9]);
}

#[test]
fn at_line_step_drops_overlong_line() {
    let mut buf: heapless::String<256> = heapless::String::new();
    let long = vec![b'A'; 256];
    assert!(feed(&mut buf, &long).is_empty());
    assert_eq!(buf.len(), 256);
    // the 257th byte does not fit: the line is dropped
    assert!(femeter::at_parser::at_line_step(&mut buf, b'B').is_none());
    assert_eq!(buf.len(), 0);
    let lines = feed(&mut buf, b"OK\n");
    assert_eq!(lines[0].as_str(), "OK");
}

#[test]
fn at_reply_lines_classified() {
    assert_eq!(classify_reply_line(b"OK"), ReplyLine::Done);
    assert_eq!(classify_reply_line(b"ERROR"), ReplyLine::Failed(0));
    assert_eq!(classify_reply_line(b"+CME ERROR: 10"), ReplyLine::Failed(10));
    assert_eq!(classify_reply_line(b"+CME ERROR:+30 "), ReplyLine::Failed(30));
    assert_eq!(classify_reply_line(b"+CME ERROR: SIM busy"), ReplyLine::Failed(0));
    assert_eq!(classify_reply_line(b"+CME ERROR: 70000"), ReplyLine::Failed(0));
    assert_eq!(classify_reply_line(b"OK "), ReplyLine::Info);
    assert_eq!(classify_reply_line(b"+CSQ: 20,0"), ReplyLine::Info);
}

#[test]
fn at_wait_ok_collects_lines() {
    let mut lines: Vec<Vec<u8>> = Vec::new();
    assert!(matches!(wait_ok_step(&mut lines, b"OK"), Some(AtResponse::OkOnly)));
    assert!(wait_ok_step(&mut lines, b"+CSQ: 20,0").is_none());
    assert!(wait_ok_step(&mut lines, b"second").is_none());
    match wait_ok_step(&mut lines, b"OK") {
        Some(AtResponse::OkWithLines(v)) => {
            assert_eq!(v, vec![b"+CSQ: 20,0".to_vec(), b"second".to_vec()]);
        }
        other => panic!("unexpected {:?}", other),
    }
    assert!(matches!(wait_ok_step(&mut lines, b"+CME ERROR: 3"), Some(AtResponse::Error(3))));
}

#[test]
fn at_wait_ok_keeps_sixteen_lines() {
    let mut lines: Vec<Vec<u8>> = Vec::new();
    for i in 0..20u8 {
        assert!(wait_ok_step(&mut lines, &[b'a' + i]).is_none());
    }
    assert_eq!(lines.len(), 16);
    assert_eq!(lines[15], vec![b'a' + 15]);
}

#[test]
fn at_wait_prefix_steps() {
    assert_eq!(wait_prefix_step(b"+CSQ: 20,0", b"+CSQ:"), Some(true));
    assert_eq!(wait_prefix_step(b"OK", b"+CSQ:"), Some(false));
    assert_eq!(wait_prefix_step(b"ERROR", b"+CSQ:"), Some(false));
    assert_eq!(wait_prefix_step(b"+CREG: 1", b"+CSQ:"), None);
}

#[test]
fn at_wait_clock_wraps() {
    assert!(!wait_timed_out(100, 1099, 1000));
    assert!(wait_timed_out(100, 1100, 1000));
    assert!(wait_timed_out(0xFFFF_FF00, 0x0000_0300, 0x300));
    assert!(!wait_timed_out(0xFFFF_FF00, 0x0000_01FF, 0x300));
    assert!(is_send_prompt(b'>'));
    assert!(!is_send_prompt(b' '));
}
