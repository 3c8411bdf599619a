use femeter::comm::{
    fcs16, fcs16_table_entry, HdlcError, HdlcFrame, HdlcReceiver, HdlcRxEvent, Iec62056Parser,
    IecRxEvent, UFrameType, HDLC_ESCAPE, HDLC_FLAG,
};

#[test]
fn test_fcs16_empty() {
    assert_eq!(fcs16(&[]), 0x0000);
}

#[test]
fn test_fcs16_known() {
    let crc = fcs16(&[0x01]);
    let expected = !((0xFFFFu16 >> 8) ^ fcs16_table_entry(0xFE));
    assert_eq!(crc, expected);
}

#[test]
fn test_hdlc_frame_roundtrip() {
    let addr = [0x03u8];
    let ctrl = 0x73;
    let info = [0x01, 0x02, 0x03];

    let mut tx = [0u8; 64];
    let len = HdlcFrame::build(&addr, ctrl, &info, &mut tx);

    assert!(len > 4);
    assert_eq!(tx[0], HDLC_FLAG);
    assert_eq!(tx[len - 1], HDLC_FLAG);

    let mut rx = HdlcReceiver::new();
    let mut event = HdlcRxEvent::Idle;
    for i in 0..len {
        event = rx.feed(tx[i]);
    }
    assert_eq!(event, HdlcRxEvent::Complete);

    let frame = rx.parse_frame().unwrap();
    assert_eq!(frame.address(), &[0x03]);
    assert_eq!(frame.control(), ctrl);
    assert_eq!(frame.information(), &info);
    assert!(frame.is_u_frame());
}

#[test]
fn test_hdlc_byte_stuffing() {
    let addr = [0x03];
    let ctrl = 0x00;
    let info = [0x7E, 0x7D, 0x42];

    let mut tx = [0u8; 64];
    let len = HdlcFrame::build(&addr, ctrl, &info, &mut tx);

    for i in 1..len - 1 {
        assert_ne!(tx[i], HDLC_FLAG, "Unescaped FLAG found in payload at idx {}", i);
    }

    let mut rx = HdlcReceiver::new();
    for i in 0..len {
        rx.feed(tx[i]);
    }
    let frame = rx.parse_frame().unwrap();
    assert_eq!(frame.information(), &info);
}

#[test]
fn test_u_frame_types() {
    let addr = [0x03];
    let ctrl_ua = 0x63;
    let mut tx = [0u8; 64];
    let len = HdlcFrame::build(&addr, ctrl_ua, &[], &mut tx);
    let mut rx = HdlcReceiver::new();
    for i in 0..len {
        rx.feed(tx[i]);
    }
    let frame = rx.parse_frame().unwrap();
    assert!(frame.is_u_frame());
}

#[test]
fn test_iec_request_detection() {
    let mut parser = Iec62056Parser::new();
    let request = b"/?!\r\n";
    let mut result = IecRxEvent::Idle;
    for &b in request {
        result = parser.feed(b);
    }
    assert_eq!(result, IecRxEvent::RequestReceived);
}

// ---- further cases ----

#[test]
fn fcs16_check_value() {
    // CRC-16/X-25 check value of "123456789".
    assert_eq!(fcs16(b"123456789"), 0x906E);
}

#[test]
fn hdlc_stuffed_frame_layout() {
    let mut tx = [0u8; 64];
    let len = HdlcFrame::build(&[0x03], 0x10, &[0x7E], &mut tx);
    // flag, address, control, escape pair, two FCS bytes (none stuffed here or more), flag
    assert_eq!(tx[0], HDLC_FLAG);
    assert_eq!(tx[1], 0x03);
    assert_eq!(tx[2], 0x10);
    assert_eq!(tx[3], HDLC_ESCAPE);
    assert_eq!(tx[4], 0x5E);
    assert_eq!(tx[len - 1], HDLC_FLAG);
}

#[test]
fn hdlc_parse_rejects_bad_fcs() {
    let mut tx = [0u8; 64];
    let len = HdlcFrame::build(&[0x03], 0x10, &[0x01, 0x02], &mut tx);
    // corrupt the control byte
    tx[2] ^= 0x01;
    assert!(HdlcFrame::parse(&tx[..len]).is_err());
}

#[test]
fn hdlc_parse_short_frame() {
    assert_eq!(HdlcFrame::parse(&[HDLC_FLAG, 0x03, HDLC_FLAG]).err(), Some(HdlcError::TooShort));
}

#[test]
fn hdlc_u_frame_snrm() {
    let mut tx = [0u8; 32];
    let len = HdlcFrame::build(&[0x03], 0x93, &[], &mut tx);
    let f = HdlcFrame::parse(&tx[..len]).unwrap();
    assert_eq!(f.u_frame_type(), UFrameType::Snrm);
    assert!(!f.is_i_frame());
}

#[test]
fn iec_parser_data_after_request() {
    let mut parser = Iec62056Parser::new();
    for &b in b"/?!\r\n" {
        parser.feed(b);
    }
    assert_eq!(parser.data(), b"/?!\r\n");
    parser.reset();
    assert_eq!(parser.data(), b"");
}

#[test]
fn comm_iec_ack_has_line_feed() {
    let mut out = [0u8; 8];
    assert_eq!(Iec62056Parser::build_ack_baud_switch(b'5', &mut out), 5);
    assert_eq!(out, [0x06, b'/', b'5', 0x0D, 0x0A, 0, 0, 0]);
    let mut short = [0u8; 4];
    assert_eq!(Iec62056Parser::build_ack_baud_switch(b'5', &mut short), 0);
}

#[test]
fn hdlc_u_frame_dm_and_others() {
    for &(c, t) in &[
        (0x1Fu8, UFrameType::Dm),
        (0x53, UFrameType::Disc),
        (0x73, UFrameType::Ua),
        (0x63, UFrameType::Ua),
    ] {
        let mut tx = [0u8; 32];
        let len = HdlcFrame::build(&[0x03], c, &[], &mut tx);
        let f = HdlcFrame::parse(&tx[..len]).unwrap();
        assert_eq!(f.u_frame_type(), t);
    }
}

#[test]
fn hdlc_receiver_holds_1024_bytes() {
    let mut rx = HdlcReceiver::new();
    assert_eq!(rx.feed(HDLC_FLAG), HdlcRxEvent::Idle);
    for _ in 0..1024 {
        assert_eq!(rx.feed(0x41), HdlcRxEvent::Idle);
    }
    assert_eq!(rx.feed(0x41), HdlcRxEvent::Error(HdlcError::Overflow));
    let mut rx = HdlcReceiver::new();
    rx.feed(HDLC_FLAG);
    for _ in 0..1024 {
        rx.feed(0x41);
    }
    assert_eq!(rx.feed(HDLC_FLAG), HdlcRxEvent::Complete);
    assert_eq!(rx.frame().map(|f| f.len()), Some(1024));
}

#[derive(Default)]
struct RecordingUart {
    writes: Vec<Vec<u8>>,
    inits: Vec<femeter::hal::UartConfig>,
    fail_write: bool,
}

impl femeter::hal::UartDriver for RecordingUart {
    fn init(&mut self, config: &femeter::hal::UartConfig) -> Result<(), femeter::hal::UartError> {
        self.inits.push(*config);
        Ok(())
    }
    fn write(&mut self, data: &[u8]) -> Result<(), femeter::hal::UartError> {
        self.writes.push(data.to_vec());
        if self.fail_write {
            Err(femeter::hal::UartError::TxTimeout)
        } else {
            Ok(())
        }
    }
    fn read(&mut self, _buf: &mut [u8], _timeout_ms: u32) -> Result<usize, femeter::hal::UartError> {
        Ok(0)
    }
    fn readable(&self) -> bool {
        false
    }
    fn channel(&self) -> femeter::hal::UartChannel {
        femeter::hal::UartChannel::Uart1
    }
}

struct NoDir;
impl femeter::comm::Rs485DirControl for NoDir {
    fn tx_enable(&mut self) {}
    fn tx_disable(&mut self) {}
}

#[test]
fn comm_iec_baud_switch_acks_then_reinitialises_infrared() {
    let mut m = femeter::comm::CommManager::new(RecordingUart::default(), RecordingUart::default(), NoDir);
    assert_eq!(m.iec_baud_switch(b'5', 9600), Ok(()));
    let ir = m.infrared_uart();
    assert_eq!(ir.writes, vec![vec![0x06, b'/', b'5', 0x0D, 0x0A]]);
    assert_eq!(
        ir.inits,
        vec![femeter::hal::UartConfig {
            baudrate: 9600,
            data_bits: 8,
            stop_bits: 1,
            parity: femeter::hal::Parity::Even
        }]
    );
    assert!(m.rs485_uart().writes.is_empty());
    assert!(m.rs485_uart().inits.is_empty());
    assert!(m.iec_parser().data().is_empty());
}

#[test]
fn comm_iec_baud_switch_write_failure_skips_init() {
    let ir = RecordingUart { fail_write: true, ..RecordingUart::default() };
    let mut m = femeter::comm::CommManager::new(RecordingUart::default(), ir, NoDir);
    assert_eq!(m.iec_baud_switch(b'5', 9600), Err(femeter::hal::UartError::TxTimeout));
    assert!(m.infrared_uart().inits.is_empty());
}

#[test]
fn hdlc_overlong_frame_leaves_no_frame() {
    let mut rx = HdlcReceiver::new();
    let mut events = vec![rx.feed(HDLC_FLAG)];
    for _ in 0..1030 {
        events.push(rx.feed(0x41));
    }
    events.push(rx.feed(HDLC_FLAG));
    for (i, e) in events.iter().enumerate() {
        if i == 1025 {
            assert_eq!(*e, HdlcRxEvent::Error(HdlcError::Overflow));
        } else {
            assert_eq!(*e, HdlcRxEvent::Idle);
        }
    }
    assert!(rx.frame().is_none());
}
