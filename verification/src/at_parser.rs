//! Common vocabulary of the AT-command communication modules: errors, the
//! transport and pin interfaces a board implements, module status values
//! and the meter's communication channels.
use vstd::prelude::*;
use vstd::string::StringSliceAdditionalSpecFns;

use crate::display::{decimal_value, is_ascii_digit, parse_u8_field, parse_u8_text, strip_plus, all_digits};
use crate::quectel::contains_bytes;

pub mod lit;

verus! {

/// Error of an AT-command exchange.
#[derive(Debug, Clone, Copy, PartialEq, Eq)]
pub enum AtError {
    /// Serial port error.
    UartError,
    /// No answer in time.
    Timeout,
    /// The module answered ERROR.
    Error { code: u16 },
    /// The module does not support the command.
    NotSupported,
    /// The module is not ready.
    NotReady,
    /// A buffer overflowed.
    BufferOverflow,
    /// A parameter was refused.
    InvalidParam,
    /// SIM card error.
    SimError,
    /// Not registered on a network.
    NetworkNotRegistered,
    /// Connection failed.
    ConnectionFailed,
    /// Sending failed.
    SendFailed,
    /// The answer could not be parsed.
    ParseError,
}

/// Serial transport of a module, implemented by the board.
pub trait UartTransport {
    /// Read one byte without blocking; `None` when nothing waits.
    fn read_byte(&mut self) -> Option<u8>;
    /// Write bytes, blocking until they are sent.
    fn write_bytes(&mut self, data: &[u8]) -> Result<(), AtError>;
    /// Drop what waits in the receive buffer.
    fn flush_rx(&mut self);
    /// Whether the port is usable.
    fn is_available(&self) -> bool;
}

/// A control pin of a module.
pub trait PinControl {
    fn set_high(&mut self);
    fn set_low(&mut self);
    fn is_high(&self) -> bool;
}

/// Blocking delay.
pub trait Delay {
    fn delay_ms(&mut self, ms: u32);
}

/// Low-power control of a module.
pub trait PowerControl {
    /// Enter sleep.
    fn sleep(&mut self) -> Result<(), AtError>;
    /// Wake up.
    fn wakeup(&mut self) -> Result<(), AtError>;
    /// Present power mode.
    fn get_power_mode(&mut self) -> PowerMode;
}

/// Kind of communication module.
#[derive(Debug, Clone, Copy, PartialEq, Eq)]
pub enum ModuleType {
    LteCat1,
    NbIoT,
    Gprs,
    Lorawan,
    Wifi,
    Unknown,
}

/// SIM card status.
#[derive(Debug, Clone, Copy, PartialEq, Eq)]
pub enum SimStatus {
    Ready,
    NotInserted,
    PinRequired,
    PukRequired,
    PinLocked,
    Error,
}

/// Radio signal figures.
#[derive(Debug, Clone, Copy)]
pub struct SignalInfo {
    /// RSSI (dBm, negative).
    pub rssi: i16,
    /// Bit error rate class 0..7.
    pub ber: u8,
    /// RSRP (dBm, LTE).
    pub rsrp: i16,
    /// RSRQ (dB, LTE).
    pub rsrq: i16,
    /// SNR (dB, LTE).
    pub snr: i16,
}

/// Network registration status.
#[derive(Debug, Clone, Copy, PartialEq, Eq)]
pub enum NetworkStatus {
    NotRegistered,
    HomeNetwork,
    Searching,
    RegistrationDenied,
    Unknown,
    Roaming,
}

/// Socket connection status.
#[derive(Debug, Clone, Copy, PartialEq, Eq)]
pub enum ConnStatus {
    Disconnected,
    Connecting,
    Connected,
    Closing,
}

/// MQTT session status.
#[derive(Debug, Clone, Copy, PartialEq, Eq)]
pub enum MqttState {
    Disconnected,
    Connecting,
    Connected,
    Error,
}

/// MQTT quality of service.
#[derive(Debug, Clone, Copy, PartialEq, Eq)]
pub enum QoS {
    QoS0,
    QoS1,
    QoS2,
}

impl QoS {
    /// The level as transmitted: 0, 1 or 2.
    pub fn level(self) -> (r: u8)
        ensures
            r == (match self {
                QoS::QoS0 => 0u8,
                QoS::QoS1 => 1u8,
                QoS::QoS2 => 2u8,
            }),
    {
        match self {
            QoS::QoS0 => 0,
            QoS::QoS1 => 1,
            QoS::QoS2 => 2,
        }
    }
}

/// LoRaWAN device class.
#[derive(Debug, Clone, Copy, PartialEq, Eq)]
pub enum LorawanClass {
    ClassA,
    ClassB,
    ClassC,
}

/// Power mode of a module.
#[derive(Debug, Clone, Copy, PartialEq, Eq)]
pub enum PowerMode {
    Active,
    Sleep,
    DeepSleep,
    PowerOff,
}

/// Communication channel of the meter.
#[derive(Debug, Clone, Copy, PartialEq, Eq)]
pub enum ChannelId {
    Rs485,
    Irda,
    Cat1,
    Lorawan,
}

impl ChannelId {
    /// Channel number: RS-485 0, infrared 1, Cat.1 2, LoRaWAN 3.
    pub fn index(self) -> (r: u8)
        ensures
            r == (match self {
                ChannelId::Rs485 => 0u8,
                ChannelId::Irda => 1u8,
                ChannelId::Cat1 => 2u8,
                ChannelId::Lorawan => 3u8,
            }),
    {
        match self {
            ChannelId::Rs485 => 0,
            ChannelId::Irda => 1,
            ChannelId::Cat1 => 2,
            ChannelId::Lorawan => 3,
        }
    }
}

/// RS-485 channel (DLMS/COSEM).
pub trait Rs485Channel {
    fn send_dlms(&mut self, frame: &[u8]) -> Result<(), AtError>;
    fn recv_dlms(&mut self, buf: &mut [u8]) -> Result<usize, AtError>;
    fn set_baudrate(&mut self, baud: u32);
}

/// Infrared channel (IEC 62056-21).
pub trait IrdaChannel {
    fn send_iec62056(&mut self, data: &str) -> Result<(), AtError>;
    fn recv_iec62056(&mut self, buf: &mut [u8]) -> Result<usize, AtError>;
    fn set_mode(&mut self, mode: IecMode);
}

/// IEC 62056-21 protocol mode.
#[derive(Debug, Clone, Copy)]
pub enum IecMode {
    /// Mode A: local reading.
    ModeA,
    /// Mode B: local reading (HDLC).
    ModeB,
    /// Mode C: two-way handshake.
    ModeC,
    /// Mode D: passive answer.
    ModeD,
}

/// Upper-case hexadecimal digit of a nibble.
pub open spec fn hex_digit_spec(n: u8) -> u8 {
    if n < 10 { (48 + n) as u8 } else { (65 + n - 10) as u8 }
}

/// Upper-case hexadecimal digit of a nibble (0..15).
pub fn hex_digit(n: u8) -> (r: u8)
    requires
        n < 16,
    ensures
        r == hex_digit_spec(n),
{
    if n < 10 {
        48u8 + n
    } else {
        65u8 + n - 10
    }
}

/* ---------------- bounded strings and vectors ---------------- */

/// Fixed-capacity string of the `heapless` crate.
#[verifier::external_type_specification]
#[verifier::external_body]
pub struct ExHeaplessString<const N: usize>(heapless::String<N>);

/// Fixed-capacity vector of the `heapless` crate.
#[verifier::external_type_specification]
#[verifier::external_body]
#[verifier::reject_recursive_types(T)]
pub struct ExHeaplessVec<T, const N: usize>(heapless::Vec<T, N>);

/// Bytes held by a 128-byte `heapless::String`.
pub uninterp spec fn text128(s: heapless::String<128>) -> Seq<u8>;

/// Bytes held by a 256-byte `heapless::Vec`.
pub uninterp spec fn bytes256(v: heapless::Vec<u8, 256>) -> Seq<u8>;

/// `heapless::String::new`: an empty string.
#[verifier::external_body]
fn text128_new() -> (r: heapless::String<128>)
    ensures
        text128(r) == Seq::<u8>::empty(),
{
    heapless::String::new()
}

/// `heapless::String::push_str`: appends the bytes of `t` when they fit
/// the capacity, else returns `Err(())` and leaves the string as it was.
#[verifier::external_body]
fn text128_push_str(s: &mut heapless::String<128>, t: &str) -> (r: Result<(), ()>)
    ensures
        text128(*old(s)).len() + t.spec_bytes().len() <= 128 ==> r is Ok && text128(*final(s)) == text128(*old(s))
            + t.spec_bytes(),
        text128(*old(s)).len() + t.spec_bytes().len() > 128 ==> r is Err && *final(s) == *old(s),
{
    s.push_str(t)
}

/// `heapless::Vec::new`: an empty vector.
#[verifier::external_body]
fn bytes256_new() -> (r: heapless::Vec<u8, 256>)
    ensures
        bytes256(r) == Seq::<u8>::empty(),
{
    heapless::Vec::new()
}

/// Bytes held by a 256-byte `heapless::String` (its UTF-8 text).
pub uninterp spec fn text256(s: heapless::String<256>) -> Seq<u8>;

/// `heapless::String::new`: an empty string.
#[verifier::external_body]
fn text256_new() -> (r: heapless::String<256>)
    ensures
        text256(r) == Seq::<u8>::empty(),
{
    heapless::String::new()
}

/// The bytes of the string (`str::as_bytes` through its `Deref`).
#[verifier::external_body]
fn text256_bytes(s: &heapless::String<256>) -> (r: &[u8])
    ensures
        r@ == text256(*s),
{
    s.as_bytes()
}

/// `heapless::String::clear`: the string becomes empty.
#[verifier::external_body]
fn text256_clear(s: &mut heapless::String<256>)
    ensures
        text256(*final(s)) == Seq::<u8>::empty(),
{
    s.clear()
}

/// `Clone` of `heapless::String`: a string holding the same bytes.
#[verifier::external_body]
fn text256_clone(s: &heapless::String<256>) -> (r: heapless::String<256>)
    ensures
        text256(r) == text256(*s),
{
    s.clone()
}

/// `heapless::String::push` of the character whose code is the byte `b`:
/// appends its UTF-8 encoding (one byte below 0x80, else two) when that
/// fits the 256-byte capacity, else returns `Err(())` and leaves the
/// string as it was.
#[verifier::external_body]
fn text256_push_code(s: &mut heapless::String<256>, b: u8) -> (r: Result<(), ()>)
    ensures
        text256(*old(s)).len() + code_utf8(b).len() <= 256 ==> r is Ok && text256(*final(s)) == text256(*old(s))
            + code_utf8(b),
        text256(*old(s)).len() + code_utf8(b).len() > 256 ==> r is Err && *final(s) == *old(s),
{
    s.push(b as char)
}

/* ---------------- module capabilities ---------------- */

/// What every AT-command module offers.
pub trait ModuleBase {
    /// Kind of module.
    fn module_type(&self) -> ModuleType;
    /// AT handshake.
    fn test_at(&mut self) -> Result<(), AtError>;
    /// Firmware version text.
    fn get_version(&mut self) -> Result<heapless::String<128>, AtError>;
    /// Device identity (IMEI or DevEUI).
    fn get_device_id(&mut self) -> Result<heapless::String<32>, AtError>;
    /// Software reset.
    fn reset(&mut self) -> Result<(), AtError>;
    /// Whether the module answers.
    fn is_ready(&mut self) -> bool;
    /// Change the serial baud rate.
    fn set_baudrate(&mut self, baud: u32) -> Result<(), AtError>;
}

/// A cellular module (Cat.1 or NB-IoT).
pub trait CellularModule: ModuleBase {
    fn get_sim_status(&mut self) -> Result<SimStatus, AtError>;
    fn get_iccid(&mut self) -> Result<heapless::String<24>, AtError>;
    fn get_signal(&mut self) -> Result<SignalInfo, AtError>;
    fn get_network_reg(&mut self) -> Result<NetworkStatus, AtError>;
    fn get_operator(&mut self) -> Result<heapless::String<32>, AtError>;
    fn attach_network(&mut self) -> Result<(), AtError>;
    fn get_ip_address(&mut self) -> Result<heapless::String<64>, AtError>;
    fn set_apn(&mut self, apn: &str) -> Result<(), AtError>;
}

/// TCP and UDP sockets of a cellular module.
pub trait SocketOps: CellularModule {
    /// Open a TCP connection; returns the connection id.
    fn tcp_connect(&mut self, addr: &str, port: u16) -> Result<u8, AtError>;
    /// Open a UDP socket; returns the connection id.
    fn udp_connect(&mut self, addr: &str, port: u16) -> Result<u8, AtError>;
    fn send_data(&mut self, conn_id: u8, data: &[u8]) -> Result<(), AtError>;
    fn recv_data(&mut self, conn_id: u8, buf: &mut [u8]) -> Result<usize, AtError>;
    fn close(&mut self, conn_id: u8) -> Result<(), AtError>;
    fn get_conn_status(&mut self, conn_id: u8) -> Result<ConnStatus, AtError>;
}

/// MQTT client of a cellular module.
pub trait MqttOps: CellularModule {
    fn mqtt_set_broker(&mut self, addr: &str, port: u16) -> Result<(), AtError>;
    fn mqtt_set_client_id(&mut self, id: &str) -> Result<(), AtError>;
    fn mqtt_set_auth(&mut self, user: &str, pass: &str) -> Result<(), AtError>;
    fn mqtt_set_will(&mut self, topic: &str, msg: &[u8], qos: QoS, retain: bool) -> Result<(), AtError>;
    fn mqtt_connect(&mut self) -> Result<(), AtError>;
    fn mqtt_disconnect(&mut self) -> Result<(), AtError>;
    fn mqtt_publish(&mut self, topic: &str, data: &[u8], qos: QoS) -> Result<(), AtError>;
    fn mqtt_subscribe(&mut self, topic: &str, qos: QoS) -> Result<(), AtError>;
    fn mqtt_unsubscribe(&mut self, topic: &str) -> Result<(), AtError>;
    fn mqtt_state(&mut self) -> Result<MqttState, AtError>;
}

/// CoAP client of an NB-IoT module.
pub trait CoapOps: CellularModule {
    fn coap_create(&mut self) -> Result<u8, AtError>;
    fn coap_get(&mut self, uri: &str) -> Result<heapless::Vec<u8, 512>, AtError>;
    fn coap_post(&mut self, uri: &str, data: &[u8]) -> Result<(), AtError>;
    fn coap_close(&mut self) -> Result<(), AtError>;
}

/// A LoRaWAN module.
pub trait LorawanOps: ModuleBase {
    fn set_app_eui(&mut self, eui: &[u8; 8]) -> Result<(), AtError>;
    fn set_app_key(&mut self, key: &[u8; 16]) -> Result<(), AtError>;
    fn set_dev_eui(&mut self, eui: &[u8; 8]) -> Result<(), AtError>;
    fn join_otaa(&mut self) -> Result<(), AtError>;
    fn join_abp(&mut self, dev_addr: &[u8; 4], nwk_skey: &[u8; 16], app_s_key: &[u8; 16]) -> Result<(), AtError>;
    fn send_confirmed(&mut self, port: u8, data: &[u8]) -> Result<(), AtError>;
    fn send_unconfirmed(&mut self, port: u8, data: &[u8]) -> Result<(), AtError>;
    fn is_joined(&mut self) -> Result<bool, AtError>;
    fn set_dr(&mut self, dr: u8) -> Result<(), AtError>;
    fn set_tx_power(&mut self, power: i8) -> Result<(), AtError>;
    fn set_channel_mask(&mut self, mask: &[u8; 8]) -> Result<(), AtError>;
    fn set_class(&mut self, class: LorawanClass) -> Result<(), AtError>;
    /// RSSI (dBm) and SNR (dB) of the last downlink.
    fn get_link_quality(&mut self) -> Result<(i16, i8), AtError>;
}

/* ---------------- unsolicited result codes ---------------- */

/// Unsolicited result code reported by a module.
#[derive(Debug)]
#[allow(inconsistent_fields)]
pub enum UrcEvent {
    /// Module ready.
    Ready,
    /// Power down.
    PowerDown,
    /// Network registration changed.
    NetworkRegChanged { stat: u8 },
    /// Signal changed.
    SignalChanged { rssi: u8, ber: u8 },
    /// IP data received.
    DataReceived { conn_id: u8, size: usize },
    /// Connection closed.
    ConnectionClosed { conn_id: u8 },
    /// SMS received.
    SmsReceived { index: u16 },
    /// LoRaWAN joined.
    LorawanJoined,
    /// LoRaWAN downlink received.
    LorawanRxReceived { port: u8, rssi: i16, snr: i8, data: heapless::Vec<u8, 256> },
    /// LoRaWAN transmission finished.
    LorawanTxDone { status: u8 },
    /// Ring indication.
    Ring,
    /// Other code starting with '+' (at most 128 bytes kept).
    Custom(heapless::String<128>),
}

/// `s` starts with `p`.
pub open spec fn starts(s: Seq<u8>, p: Seq<u8>) -> bool {
    p.len() <= s.len() && s.subrange(0, p.len() as int) == p
}

/// Whether `s` starts with `p`.
pub fn starts_with_bytes(s: &[u8], p: &[u8]) -> (r: bool)
    ensures
        r == starts(s@, p@),
{
    if p.len() > s.len() {
        return false;
    }
    let mut i: usize = 0;
    while i < p.len()
        invariant
            p@.len() <= s@.len(),
            i <= p@.len(),
            forall|k: int| 0 <= k < i ==> s@[k] == p@[k],
        decreases p@.len() - i,
    {
        if s[i] != p[i] {
            assert(s@.subrange(0, p@.len() as int)[i as int] != p@[i as int]);
            return false;
        }
        i = i + 1;
    }
    assert(s@.subrange(0, p@.len() as int) =~= p@);
    true
}

/// Whether `s` equals `p`.
pub fn bytes_eq(s: &[u8], p: &[u8]) -> (r: bool)
    ensures
        r == (s@ == p@),
{
    if s.len() != p.len() {
        return false;
    }
    let r = starts_with_bytes(s, p);
    proof {
        if r {
            assert(s@ =~= s@.subrange(0, p@.len() as int));
        } else {
            assert(s@.subrange(0, p@.len() as int) =~= s@);
        }
    }
    r
}

/* ---------------- numbers in a line ---------------- */

/// End of the last run of ASCII digits in `s[..j]` (0 when there is none).
pub open spec fn last_digit_end(s: Seq<u8>, j: int) -> int
    decreases j,
{
    if j <= 0 { 0 } else if is_ascii_digit(s[j - 1]) { j } else { last_digit_end(s, j - 1) }
}

/// Start of the run of ASCII digits that ends at `e`.
pub open spec fn digit_run_start(s: Seq<u8>, e: int) -> int
    decreases e,
{
    if e > 0 && is_ascii_digit(s[e - 1]) { digit_run_start(s, e - 1) } else { e }
}

/// The last number in a line: the value of its last run of ASCII digits,
/// if there is one and it fits 32 bits.
pub open spec fn last_number_spec(s: Seq<u8>) -> Option<u32> {
    let e = last_digit_end(s, s.len() as int);
    if e == 0 {
        None
    } else {
        let v = decimal_value(s.subrange(digit_run_start(s, e), e));
        if v <= u32::MAX { Some(v as u32) } else { None }
    }
}

proof fn lemma_last_digit_end_bounds(s: Seq<u8>, j: int)
    requires
        0 <= j <= s.len(),
    ensures
        0 <= last_digit_end(s, j) <= j,
        last_digit_end(s, j) > 0 ==> is_ascii_digit(s[last_digit_end(s, j) - 1]),
        forall|k: int| last_digit_end(s, j) <= k < j ==> !is_ascii_digit(#[trigger] s[k]),
    decreases j,
{
    if j > 0 && !is_ascii_digit(s[j - 1]) {
        lemma_last_digit_end_bounds(s, j - 1);
    }
}

proof fn lemma_digit_run_start_bounds(s: Seq<u8>, e: int)
    requires
        0 <= e <= s.len(),
    ensures
        0 <= digit_run_start(s, e) <= e,
        forall|k: int| digit_run_start(s, e) <= k < e ==> is_ascii_digit(#[trigger] s[k]),
    decreases e,
{
    if e > 0 && is_ascii_digit(s[e - 1]) {
        lemma_digit_run_start_bounds(s, e - 1);
    }
}

/// The last number in a line (see `last_number_spec`).
pub fn parse_last_number(s: &[u8]) -> (r: Option<u32>)
    ensures
        r == last_number_spec(s@),
{
    let n = s.len();
    let mut e: usize = n;
    while e > 0 && !(48 <= s[e - 1] && s[e - 1] <= 57)
        invariant
            e <= n,
            n == s@.len(),
            last_digit_end(s@, n as int) == last_digit_end(s@, e as int),
        decreases e,
    {
        e = e - 1;
    }
    if e == 0 {
        return None;
    }
    let mut b: usize = e;
    while b > 0 && 48 <= s[b - 1] && s[b - 1] <= 57
        invariant
            b <= e <= n,
            n == s@.len(),
            digit_run_start(s@, e as int) == digit_run_start(s@, b as int),
        decreases b,
    {
        b = b - 1;
    }
    let ghost d = s@.subrange(b as int, e as int);
    proof {
        lemma_digit_run_start_bounds(s@, e as int);
        assert(last_digit_end(s@, e as int) == e);
        assert(digit_run_start(s@, b as int) == b);
        assert(last_digit_end(s@, n as int) == e);
        assert(digit_run_start(s@, e as int) == b);
    }
    let mut v: u64 = 0;
    let mut i: usize = b;
    while i < e
        invariant
            b <= i <= e <= n,
            n == s@.len(),
            d == s@.subrange(b as int, e as int),
            forall|k: int| b <= k < e ==> is_ascii_digit(#[trigger] s@[k]),
            v <= u32::MAX,
            v as nat == decimal_value(d.subrange(0, i - b)),
            last_digit_end(s@, n as int) == e as int,
            digit_run_start(s@, e as int) == b as int,
        decreases e - i,
    {
        assert(d.subrange(0, i - b + 1).drop_last() =~= d.subrange(0, i - b));
        assert(is_ascii_digit(s@[i as int]));
        assert(d.subrange(0, i - b + 1).last() == s@[i as int]);
        assert(decimal_value(d.subrange(0, i - b + 1)) == decimal_value(d.subrange(0, i - b)) * 10 + (s@[i as int] - 48) as nat);
        v = v * 10 + ((s[i] - 48) as u64);
        if v > u32::MAX as u64 {
            proof {
                crate::display::lemma_decimal_prefix_le(d, i - b + 1);
                assert(decimal_value(d.subrange(0, i - b + 1)) > u32::MAX);
                assert(decimal_value(d) > u32::MAX);
                assert(last_digit_end(s@, s@.len() as int) == e);
                assert(digit_run_start(s@, e as int) == b);
            }
            return None;
        }
        i = i + 1;
    }
    assert(d.subrange(0, d.len() as int) =~= d);
    Some(v as u32)
}

/* ---------------- fields of a line ---------------- */

/// The fields of `s` between separator bytes `a` or `b` (empty fields
/// included; a text without separator is one field).
pub open spec fn split_on(s: Seq<u8>, a: u8, b: u8) -> Seq<Seq<u8>>
    decreases s.len(),
{
    if s.len() == 0 {
        seq![Seq::<u8>::empty()]
    } else {
        let rest = split_on(s.drop_last(), a, b);
        if s.last() == a || s.last() == b {
            rest.push(Seq::<u8>::empty())
        } else {
            rest.update(rest.len() - 1, rest.last().push(s.last()))
        }
    }
}

proof fn lemma_split_on_nonempty(s: Seq<u8>, a: u8, b: u8)
    ensures
        split_on(s, a, b).len() >= 1,
    decreases s.len(),
{
    if s.len() > 0 {
        lemma_split_on_nonempty(s.drop_last(), a, b);
    }
}

/// Views of a vector of byte vectors.
pub open spec fn views(v: Seq<Vec<u8>>) -> Seq<Seq<u8>> {
    v.map_values(|x: Vec<u8>| x@)
}

/// The fields of `s` between bytes `a` or `b` (see `split_on`).
pub fn split_fields(s: &[u8], a: u8, b: u8) -> (r: Vec<Vec<u8>>)
    ensures
        views(r@) == split_on(s@, a, b),
{
    let mut parts: Vec<Vec<u8>> = Vec::new();
    let mut cur: Vec<u8> = Vec::new();
    let mut i: usize = 0;
    assert(s@.subrange(0, 0) =~= Seq::<u8>::empty());
    assert(views(parts@).push(cur@) =~= split_on(Seq::<u8>::empty(), a, b));
    while i < s.len()
        invariant
            i <= s@.len(),
            views(parts@).push(cur@) == split_on(s@.subrange(0, i as int), a, b),
        decreases s@.len() - i,
    {
        let c = s[i];
        let ghost t = s@.subrange(0, i + 1);
        assert(t.drop_last() =~= s@.subrange(0, i as int));
        assert(t.last() == c);
        if c == a || c == b {
            let done = cur;
            parts.push(done);
            cur = Vec::new();
            assert(views(parts@).push(cur@) =~= split_on(t, a, b));
        } else {
            let ghost before = views(parts@).push(cur@);
            cur.push(c);
            assert(views(parts@).push(cur@) =~= before.update(before.len() - 1, before.last().push(c)));
        }
        i = i + 1;
    }
    assert(s@.subrange(0, s@.len() as int) =~= s@);
    let last = cur;
    parts.push(last);
    assert(views(parts@) =~= split_on(s@, a, b));
    parts
}

/// Whitespace bytes of one character: the three-byte encodings of the
/// Unicode whitespace characters U+1680, U+2000..U+200A, U+2028, U+2029,
/// U+202F, U+205F and U+3000.
pub open spec fn ws3(x: u8, y: u8, z: u8) -> bool {
    ||| (x == 0xE1u8 && y == 0x9Au8 && z == 0x80u8)
    ||| (x == 0xE2u8 && y == 0x80u8 && ((0x80u8 <= z <= 0x8Au8) || z == 0xA8u8 || z == 0xA9u8 || z == 0xAFu8))
    ||| (x == 0xE2u8 && y == 0x81u8 && z == 0x9Fu8)
    ||| (x == 0xE3u8 && y == 0x80u8 && z == 0x80u8)
}

/// Length of the UTF-8 encoded Unicode whitespace character starting at
/// `i` (0 when none does): tab..carriage return and space (1 byte),
/// U+0085 and U+00A0 (2 bytes), the others of `ws3` (3 bytes).
pub open spec fn ws_len_at(t: Seq<u8>, i: int) -> int {
    if 0 <= i < t.len() && ((9 <= t[i] <= 13) || t[i] == 32) {
        1
    } else if 0 <= i && i + 1 < t.len() && t[i] == 0xC2u8 && (t[i + 1] == 0x85u8 || t[i + 1] == 0xA0u8) {
        2
    } else if 0 <= i && i + 2 < t.len() && ws3(t[i], t[i + 1], t[i + 2]) {
        3
    } else {
        0
    }
}

/// Length of the UTF-8 encoded whitespace character ending at `j` (0 when
/// none does).
pub open spec fn ws_len_before(t: Seq<u8>, j: int) -> int {
    if 1 <= j <= t.len() && ((9 <= t[j - 1] <= 13) || t[j - 1] == 32) {
        1
    } else if 2 <= j <= t.len() && t[j - 2] == 0xC2u8 && (t[j - 1] == 0x85u8 || t[j - 1] == 0xA0u8) {
        2
    } else if 3 <= j <= t.len() && ws3(t[j - 3], t[j - 2], t[j - 1]) {
        3
    } else {
        0
    }
}

/// First position from `i` past leading whitespace.
pub open spec fn lead_end(t: Seq<u8>, i: int) -> int
    decreases t.len() - i,
{
    if 0 <= i && ws_len_at(t, i) > 0 { lead_end(t, i + ws_len_at(t, i)) } else { i }
}

/// End of `t[st..j]` without trailing whitespace.
pub open spec fn trail_start(t: Seq<u8>, j: int, st: int) -> int
    decreases j,
{
    if j > st && ws_len_before(t, j) > 0 && j - ws_len_before(t, j) >= st {
        trail_start(t, j - ws_len_before(t, j), st)
    } else {
        j
    }
}

/// `t` without leading and trailing Unicode whitespace.
pub open spec fn trim_spec(t: Seq<u8>) -> Seq<u8> {
    let st = lead_end(t, 0);
    t.subrange(st, trail_start(t, t.len() as int, st))
}

proof fn lemma_lead_end_bounds(t: Seq<u8>, i: int)
    requires
        0 <= i <= t.len(),
    ensures
        i <= lead_end(t, i) <= t.len(),
    decreases t.len() - i,
{
    if ws_len_at(t, i) > 0 {
        lemma_lead_end_bounds(t, i + ws_len_at(t, i));
    }
}

proof fn lemma_trail_start_bounds(t: Seq<u8>, j: int, st: int)
    requires
        0 <= st <= j <= t.len(),
    ensures
        st <= trail_start(t, j, st) <= j,
    decreases j,
{
    if j > st && ws_len_before(t, j) > 0 && j - ws_len_before(t, j) >= st {
        lemma_trail_start_bounds(t, j - ws_len_before(t, j), st);
    }
}

/// Length of the whitespace character at `i` of `t` (see `ws_len_at`).
fn ws_at(t: &[u8], i: usize) -> (r: usize)
    ensures
        r == ws_len_at(t@, i as int),
{
    let n = t.len();
    if i < n && ((9 <= t[i] && t[i] <= 13) || t[i] == 32) {
        1
    } else if i < n && n - i > 1 && t[i] == 0xC2 && (t[i + 1] == 0x85 || t[i + 1] == 0xA0) {
        2
    } else if i < n && n - i > 2 && ((t[i] == 0xE1 && t[i + 1] == 0x9A && t[i + 2] == 0x80)
        || (t[i] == 0xE2 && t[i + 1] == 0x80 && ((0x80 <= t[i + 2] && t[i + 2] <= 0x8A) || t[i + 2] == 0xA8
        || t[i + 2] == 0xA9 || t[i + 2] == 0xAF)) || (t[i] == 0xE2 && t[i + 1] == 0x81 && t[i + 2] == 0x9F)
        || (t[i] == 0xE3 && t[i + 1] == 0x80 && t[i + 2] == 0x80)) {
        3
    } else {
        0
    }
}

/// Length of the whitespace character ending at `j` of `t` (see
/// `ws_len_before`).
fn ws_before(t: &[u8], j: usize) -> (r: usize)
    ensures
        r == ws_len_before(t@, j as int),
{
    let n = t.len();
    if 1 <= j && j <= n && ((9 <= t[j - 1] && t[j - 1] <= 13) || t[j - 1] == 32) {
        1
    } else if 2 <= j && j <= n && t[j - 2] == 0xC2 && (t[j - 1] == 0x85 || t[j - 1] == 0xA0) {
        2
    } else if 3 <= j && j <= n && ((t[j - 3] == 0xE1 && t[j - 2] == 0x9A && t[j - 1] == 0x80)
        || (t[j - 3] == 0xE2 && t[j - 2] == 0x80 && ((0x80 <= t[j - 1] && t[j - 1] <= 0x8A) || t[j - 1] == 0xA8
        || t[j - 1] == 0xA9 || t[j - 1] == 0xAF)) || (t[j - 3] == 0xE2 && t[j - 2] == 0x81 && t[j - 1] == 0x9F)
        || (t[j - 3] == 0xE3 && t[j - 2] == 0x80 && t[j - 1] == 0x80)) {
        3
    } else {
        0
    }
}

/// Bounds of `t` without leading and trailing Unicode whitespace.
fn trim_bounds(t: &[u8]) -> (r: (usize, usize))
    ensures
        r.0 <= r.1 <= t@.len(),
        t@.subrange(r.0 as int, r.1 as int) == trim_spec(t@),
{
    let n = t.len();
    let mut st: usize = 0;
    loop
        invariant
            st <= n,
            n == t@.len(),
            lead_end(t@, 0) == lead_end(t@, st as int),
        ensures
            st <= n,
            lead_end(t@, 0) == st,
        decreases n - st,
    {
        let w = ws_at(t, st);
        if w == 0 {
            break;
        }
        st = st + w;
    }
    let mut en: usize = n;
    proof {
        lemma_trail_start_bounds(t@, n as int, st as int);
    }
    loop
        invariant
            st <= en <= n,
            n == t@.len(),
            lead_end(t@, 0) == st,
            trail_start(t@, n as int, st as int) == trail_start(t@, en as int, st as int),
        ensures
            st <= en <= n,
            trail_start(t@, n as int, st as int) == en,
        decreases en,
    {
        let w = ws_before(t, en);
        if en > st && w > 0 && en - w >= st {
            en = en - w;
        } else {
            break;
        }
    }
    (st, en)
}

/// A copy of `t[from..to]`.
fn copy_range(t: &[u8], from: usize, to: usize) -> (r: Vec<u8>)
    requires
        from <= to <= t@.len(),
    ensures
        r@ == t@.subrange(from as int, to as int),
{
    let mut v: Vec<u8> = Vec::new();
    let mut i: usize = from;
    while i < to
        invariant
            from <= i <= to <= t@.len(),
            v@ == t@.subrange(from as int, i as int),
        decreases to - i,
    {
        v.push(t[i]);
        i = i + 1;
    }
    v
}

/// `t` without leading and trailing Unicode whitespace.
pub fn trim_bytes(t: &[u8]) -> (r: Vec<u8>)
    ensures
        r@ == trim_spec(t@),
{
    let (st, en) = trim_bounds(t);
    copy_range(t, st, en)
}

/// The fields, trimmed, empty ones dropped.
pub open spec fn trimmed_nonempty(parts: Seq<Seq<u8>>) -> Seq<Seq<u8>>
    decreases parts.len(),
{
    if parts.len() == 0 {
        Seq::empty()
    } else {
        let r = trimmed_nonempty(parts.drop_last());
        let t = trim_spec(parts.last());
        if t.len() > 0 { r.push(t) } else { r }
    }
}

/// Decimal `usize` text with an optional leading '+'.
pub open spec fn parse_usize_text(t: Seq<u8>) -> Option<usize> {
    let d = strip_plus(t);
    if d.len() > 0 && all_digits(d) && decimal_value(d) <= usize::MAX {
        Some(decimal_value(d) as usize)
    } else {
        None
    }
}

/// Parse `b` as a decimal `usize` (optional leading '+').
pub fn parse_usize_bytes(b: &[u8]) -> (r: Option<usize>)
    ensures
        r == parse_usize_text(b@),
{
    let ghost t = b@;
    let to = b.len();
    let mut i: usize = 0;
    if i < to && b[i] == 43u8 {
        i = i + 1;
    }
    let ghost d = b@.subrange(i as int, to as int);
    assert(d =~= strip_plus(t));
    if i == to {
        return None;
    }
    let ghost ds = i;
    let mut v: usize = 0;
    while i < to
        invariant
            ds <= i <= to == b@.len(),
            t == b@,
            d == b@.subrange(ds as int, to as int),
            d == strip_plus(t),
            v as nat == decimal_value(d.subrange(0, i - ds)),
            forall|j: int| 0 <= j < i - ds ==> is_ascii_digit(#[trigger] d[j]),
        decreases to - i,
    {
        let c = b[i];
        if c < 48 || c > 57 {
            assert(!is_ascii_digit(d[i - ds]));
            assert(!all_digits(d));
            return None;
        }
        assert(d.subrange(0, i - ds + 1).drop_last() =~= d.subrange(0, i - ds));
        assert(d.subrange(0, i - ds + 1).last() == c);
        let dig: usize = (c - 48) as usize;
        let next = match v.checked_mul(10) {
            Some(x) => x.checked_add(dig),
            None => None,
        };
        match next {
            Some(nv) => {
                v = nv;
            },
            None => {
                proof {
                    assert(decimal_value(d.subrange(0, i - ds + 1)) > usize::MAX);
                    if all_digits(d) {
                        crate::display::lemma_decimal_prefix_le(d, i - ds + 1);
                    }
                }
                return None;
            },
        }
        i = i + 1;
    }
    assert(d.subrange(0, d.len() as int) =~= d);
    Some(v)
}

/// A parsed value, or `d` when there is none.
pub open spec fn u8_or(t: Option<u8>, d: u8) -> u8 {
    match t {
        Some(v) => v,
        None => d,
    }
}

/// A parsed value, or `d` when there is none.
pub open spec fn usize_or(t: Option<usize>, d: usize) -> usize {
    match t {
        Some(v) => v,
        None => d,
    }
}

/// Fields of a `+CSQ:` line: split at ':' and ',', trimmed, empty ones
/// dropped.
pub open spec fn csq_parts(s: Seq<u8>) -> Seq<Seq<u8>> {
    trimmed_nonempty(split_on(s, 58u8, 44u8))
}

/// RSSI and bit error rate of a `+CSQ: <rssi>,<ber>` line: the second and
/// third fields as `u8`, 99 when missing or not a `u8`.
pub open spec fn csq_spec(s: Seq<u8>) -> (u8, u8) {
    let p = csq_parts(s);
    (
        if p.len() > 1 { u8_or(parse_u8_text(p[1]), 99) } else { 99 },
        if p.len() > 2 { u8_or(parse_u8_text(p[2]), 99) } else { 99 },
    )
}

/// `+QIURC: "recv",<id>,<size>` values: the second and third ','-fields,
/// trimmed, as `u8` and `usize`, 0 when missing or unparsable.
pub open spec fn qiurc_spec(s: Seq<u8>) -> (u8, usize) {
    let p = split_on(s, 44u8, 44u8);
    (
        if p.len() > 1 { u8_or(parse_u8_text(trim_spec(p[1])), 0) } else { 0 },
        if p.len() > 2 { usize_or(parse_usize_text(trim_spec(p[2])), 0) } else { 0 },
    )
}

/// Parse a field as `u8`.
fn parse_u8_bytes(b: &[u8]) -> (r: Option<u8>)
    ensures
        r == parse_u8_text(b@),
{
    assert(b@.subrange(0, b@.len() as int) =~= b@);
    parse_u8_field(b, 0, b.len())
}

/// Trimmed non-empty fields of a `+CSQ:` line.
fn csq_fields(s: &[u8]) -> (r: Vec<Vec<u8>>)
    ensures
        views(r@) == csq_parts(s@),
{
    let fields = split_fields(s, 58, 44);
    let mut kept: Vec<Vec<u8>> = Vec::new();
    let mut i: usize = 0;
    assert(views(fields@).take(0) =~= Seq::<Seq<u8>>::empty());
    assert(views(kept@) =~= Seq::<Seq<u8>>::empty());
    while i < fields.len()
        invariant
            i <= fields@.len(),
            views(fields@) == split_on(s@, 58u8, 44u8),
            views(kept@) == trimmed_nonempty(views(fields@).take(i as int)),
        decreases fields@.len() - i,
    {
        let t = trim_bytes(fields[i].as_slice());
        let ghost pre = views(fields@).take(i as int);
        let ghost nxt = views(fields@).take(i + 1);
        assert(nxt.drop_last() =~= pre);
        assert(nxt.last() == fields@[i as int]@);
        if t.len() > 0 {
            let ghost before = views(kept@);
            kept.push(t);
            assert(views(kept@) =~= before.push(t@));
        }
        i = i + 1;
    }
    assert(views(fields@).take(fields@.len() as int) =~= views(fields@));
    kept
}

/// Number of trimmed non-empty fields of a `+CSQ:` line.
pub fn csq_field_count(s: &[u8]) -> (r: usize)
    ensures
        r == csq_parts(s@).len(),
{
    let f = csq_fields(s);
    f.len()
}

/// RSSI and bit error rate of a `+CSQ:` line (see `csq_spec`); a line with
/// more than four fields is outside what the line buffer holds.
pub fn parse_csq(s: &[u8]) -> (r: (u8, u8))
    requires
        csq_parts(s@).len() <= 4,
    ensures
        r == csq_spec(s@),
{
    let p = csq_fields(s);
    let rssi: u8 = if p.len() > 1 {
        match parse_u8_bytes(p[1].as_slice()) {
            Some(v) => v,
            None => 99,
        }
    } else {
        99
    };
    let ber: u8 = if p.len() > 2 {
        match parse_u8_bytes(p[2].as_slice()) {
            Some(v) => v,
            None => 99,
        }
    } else {
        99
    };
    (rssi, ber)
}

/// Connection and size of a `+QIURC: "recv"` line (see `qiurc_spec`).
fn parse_qiurc_recv(s: &[u8]) -> (r: (u8, usize))
    ensures
        r == qiurc_spec(s@),
{
    let p = split_fields(s, 44, 44);
    let conn_id: u8 = if p.len() > 1 {
        let t = trim_bytes(p[1].as_slice());
        match parse_u8_bytes(t.as_slice()) {
            Some(v) => v,
            None => 0,
        }
    } else {
        0
    };
    let size: usize = if p.len() > 2 {
        let t = trim_bytes(p[2].as_slice());
        match parse_usize_bytes(t.as_slice()) {
            Some(v) => v,
            None => 0,
        }
    } else {
        0
    };
    (conn_id, size)
}

/// A network registration report.
pub open spec fn is_reg_report(s: Seq<u8>) -> bool {
    starts(s, lit::CREG@) || starts(s, lit::CGREG@) || starts(s, lit::CEREG@)
}

/// A `+QIURC:` data report.
pub open spec fn is_recv_report(s: Seq<u8>) -> bool {
    starts(s, lit::QIURC@) && (contains_bytes(s, lit::RECV@) || contains_bytes(s, lit::QRECV@))
}

/// A `+QIURC:` close report.
pub open spec fn is_closed_report(s: Seq<u8>) -> bool {
    starts(s, lit::QIURC@) && !is_recv_report(s) && contains_bytes(s, lit::CLOSED@)
}

/// A LoRaWAN join report.
pub open spec fn is_join_report(s: Seq<u8>) -> bool {
    contains_bytes(s, lit::JOIN@) && (contains_bytes(s, lit::OK@) || contains_bytes(s, lit::SUCCESS@))
}

/// The last number of a line, 0 when there is none.
pub open spec fn last_number_or0(s: Seq<u8>) -> u32 {
    match last_number_spec(s) {
        Some(v) => v,
        None => 0,
    }
}

/// Number of bytes kept of an unrecognised code.
pub open spec fn custom_len(s: Seq<u8>) -> int {
    if s.len() < 128 { s.len() as int } else { 128 }
}

/// Which rule recognises a line, first match wins: 1 ready, 2 power down,
/// 3 ring, 4 registration, 5 signal, 6 data, 7 closed, 8 SMS, 9 LoRaWAN
/// downlink, 10 LoRaWAN sent, 11 LoRaWAN joined, 12 other '+' code,
/// 0 none.
pub open spec fn urc_rule(s: Seq<u8>) -> int {
    if s == lit::RDY@ { 1 }
    else if s == lit::NORMAL_POWER_DOWN@ || s == lit::POWER_DOWN@ { 2 }
    else if s == lit::RING@ { 3 }
    else if is_reg_report(s) { 4 }
    else if starts(s, lit::CSQ@) { 5 }
    else if is_recv_report(s) { 6 }
    else if is_closed_report(s) { 7 }
    else if starts(s, lit::CMT@) { 8 }
    else if starts(s, lit::LORARX@) || starts(s, lit::RECV_URC@) { 9 }
    else if starts(s, lit::LORATX@) || starts(s, lit::SEND_URC@) { 10 }
    else if is_join_report(s) { 11 }
    else if starts(s, lit::PLUS@) && !starts(s, lit::AT_PLUS@) { 12 }
    else { 0 }
}

/// Lines the recogniser handles: a signal report has at most four
/// non-empty fields, a data report at most four ','-fields, and an
/// unrecognised code longer than 128 bytes has a character boundary at
/// byte 128 (the fixed-size buffers and the cut hold nothing else).
pub open spec fn urc_defined(s: Seq<u8>) -> bool {
    &&& urc_rule(s) == 5 ==> csq_parts(s).len() <= 4
    &&& urc_rule(s) == 6 ==> split_on(s, 44u8, 44u8).len() <= 4
    &&& urc_rule(s) == 12 ==> s.len() <= 128 || vstd::utf8::is_char_boundary(s, 128)
}

/// The code recognised in line `s` (see `urc_rule`).
pub open spec fn urc_matches(r: Option<UrcEvent>, s: Seq<u8>) -> bool {
    let k = urc_rule(s);
    if k == 0 {
        r is None
    } else {
        match r {
            None => false,
            Some(e) => match e {
                UrcEvent::Ready => k == 1,
                UrcEvent::PowerDown => k == 2,
                UrcEvent::Ring => k == 3,
                UrcEvent::NetworkRegChanged { stat } => k == 4 && stat == last_number_or0(s) as u8,
                UrcEvent::SignalChanged { rssi, ber } => k == 5 && (rssi, ber) == csq_spec(s),
                UrcEvent::DataReceived { conn_id, size } => k == 6 && (conn_id, size) == qiurc_spec(s),
                UrcEvent::ConnectionClosed { conn_id } => k == 7 && conn_id == last_number_or0(s) as u8,
                UrcEvent::SmsReceived { index } => k == 8 && index == last_number_or0(s) as u16,
                UrcEvent::LorawanRxReceived { port, rssi, snr, data } => k == 9 && port == 0 && rssi == 0
                    && snr == 0 && bytes256(data) == Seq::<u8>::empty(),
                UrcEvent::LorawanTxDone { status } => k == 10 && status == 0,
                UrcEvent::LorawanJoined => k == 11,
                UrcEvent::Custom(t) => k == 12 && text128(t) == s.subrange(0, custom_len(s)),
            },
        }
    }
}

proof fn lemma_run_start_after(p: Seq<u8>, d: Seq<u8>, e: int)
    requires
        p.len() == 0 || !is_ascii_digit(p.last()),
        all_digits(d),
        p.len() <= e <= p.len() + d.len(),
    ensures
        digit_run_start(p + d, e) == p.len(),
    decreases e,
{
    let s = p + d;
    if e > p.len() {
        assert(s[e - 1] == d[e - 1 - p.len()]);
        lemma_run_start_after(p, d, e - 1);
    } else if e > 0 {
        assert(s[e - 1] == p.last());
    }
}

/// Last-number law: in a line that ends with a run of decimal digits
/// after a non-digit, the line's last number is the value of that run.
pub proof fn lemma_last_number_of_trailing_digits(p: Seq<u8>, d: Seq<u8>)
    requires
        p.len() == 0 || !is_ascii_digit(p.last()),
        d.len() > 0,
        all_digits(d),
        decimal_value(d) <= u32::MAX,
    ensures
        last_number_or0(p + d) == decimal_value(d),
{
    let s = p + d;
    assert(s[s.len() - 1] == d[d.len() - 1]);
    assert(last_digit_end(s, s.len() as int) == s.len());
    lemma_run_start_after(p, d, s.len() as int);
    assert(s.subrange(p.len() as int, s.len() as int) =~= d);
}

/// Registration-report law: a line that starts with `+CREG:`, `+CGREG:` or
/// `+CEREG:` (circuit, GPRS or EPS registration) is recognised as a
/// network registration change whose status is the line's last number
/// (0 when it has none), whatever follows the prefix; for a line that ends
/// in a run of digits worth at most 255, the status is that value.
pub proof fn lemma_registration_reports(s: Seq<u8>, r: Option<UrcEvent>)
    requires
        starts(s, seq![43u8, 67u8, 82u8, 69u8, 71u8, 58u8])
            || starts(s, seq![43u8, 67u8, 71u8, 82u8, 69u8, 71u8, 58u8])
            || starts(s, seq![43u8, 67u8, 69u8, 82u8, 69u8, 71u8, 58u8]),
        urc_matches(r, s),
    ensures
        r == Some(UrcEvent::NetworkRegChanged { stat: last_number_or0(s) as u8 }),
        forall|pre: Seq<u8>, d: Seq<u8>|
            s == pre + d && pre.len() > 0 && !is_ascii_digit(pre.last()) && d.len() > 0 && all_digits(d)
                && decimal_value(d) <= 255 ==> #[trigger] last_number_or0(pre + d) == decimal_value(d)
                && r == Some(UrcEvent::NetworkRegChanged { stat: decimal_value(d) as u8 }),
{
    assert forall|pre: Seq<u8>, d: Seq<u8>|
        s == pre + d && pre.len() > 0 && !is_ascii_digit(pre.last()) && d.len() > 0 && all_digits(d)
            && decimal_value(d) <= 255 implies #[trigger] last_number_or0(pre + d) == decimal_value(d) by {
        lemma_last_number_of_trailing_digits(pre, d);
    }
    assert(s[0] == 43u8);
    assert(s.len() >= 6);
    assert(lit::RDY@[0] == 82u8);
    assert(lit::NORMAL_POWER_DOWN@[0] == 78u8);
    assert(lit::POWER_DOWN@[0] == 80u8);
    assert(lit::RING@[0] == 82u8);
    assert(s != lit::RDY@);
    assert(s != lit::NORMAL_POWER_DOWN@);
    assert(s != lit::POWER_DOWN@);
    assert(s != lit::RING@);
    assert(lit::CREG@ =~= seq![43u8, 67u8, 82u8, 69u8, 71u8, 58u8]);
    assert(lit::CGREG@ =~= seq![43u8, 67u8, 71u8, 82u8, 69u8, 71u8, 58u8]);
    assert(lit::CEREG@ =~= seq![43u8, 67u8, 69u8, 82u8, 69u8, 71u8, 58u8]);
    assert(is_reg_report(s));
    assert(urc_rule(s) == 4);
}

/// Which rule recognises a line (see `urc_rule`).
fn urc_rule_of(s: &[u8]) -> (r: u8)
    ensures
        r as int == urc_rule(s@),
{
    if bytes_eq(s, &lit::RDY) { 1 }
    else if bytes_eq(s, &lit::NORMAL_POWER_DOWN) || bytes_eq(s, &lit::POWER_DOWN) { 2 }
    else if bytes_eq(s, &lit::RING) { 3 }
    else if starts_with_bytes(s, &lit::CREG) || starts_with_bytes(s, &lit::CGREG) || starts_with_bytes(s, &lit::CEREG) { 4 }
    else if starts_with_bytes(s, &lit::CSQ) { 5 }
    else if starts_with_bytes(s, &lit::QIURC) && (crate::asr6601::contains_pattern(s, &lit::RECV)
        || crate::asr6601::contains_pattern(s, &lit::QRECV)) { 6 }
    else if starts_with_bytes(s, &lit::QIURC) && crate::asr6601::contains_pattern(s, &lit::CLOSED) { 7 }
    else if starts_with_bytes(s, &lit::CMT) { 8 }
    else if starts_with_bytes(s, &lit::LORARX) || starts_with_bytes(s, &lit::RECV_URC) { 9 }
    else if starts_with_bytes(s, &lit::LORATX) || starts_with_bytes(s, &lit::SEND_URC) { 10 }
    else if crate::asr6601::contains_pattern(s, &lit::JOIN) && (crate::asr6601::contains_pattern(s, &lit::OK)
        || crate::asr6601::contains_pattern(s, &lit::SUCCESS)) { 11 }
    else if starts_with_bytes(s, &lit::PLUS) && !starts_with_bytes(s, &lit::AT_PLUS) { 12 }
    else { 0 }
}

/// Whether `detect_urc` handles `line` (see `urc_defined`).
pub fn urc_line_supported(line: &str) -> (r: bool)
    ensures
        r == urc_defined(line.spec_bytes()),
{
    let s = line.as_bytes();
    let k = urc_rule_of(s);
    if k == 5 {
        csq_field_count(s) <= 4
    } else if k == 6 {
        let p = split_fields(s, 44, 44);
        p.len() <= 4
    } else if k == 12 {
        s.len() <= 128 || line.is_char_boundary(128)
    } else {
        true
    }
}

/// Recognise an unsolicited result code in a received line (see
/// `urc_rule` and `urc_matches`).
pub fn detect_urc(line: &str) -> (r: Option<UrcEvent>)
    requires
        urc_defined(line.spec_bytes()),
    ensures
        urc_matches(r, line.spec_bytes()),
{
    let s = line.as_bytes();
    let k = urc_rule_of(s);
    if k == 1 {
        Some(UrcEvent::Ready)
    } else if k == 2 {
        Some(UrcEvent::PowerDown)
    } else if k == 3 {
        Some(UrcEvent::Ring)
    } else if k == 4 {
        let n: u32 = match parse_last_number(s) {
            Some(v) => v,
            None => 0,
        };
        Some(UrcEvent::NetworkRegChanged { stat: n as u8 })
    } else if k == 5 {
        let (rssi, ber) = parse_csq(s);
        Some(UrcEvent::SignalChanged { rssi, ber })
    } else if k == 6 {
        let (conn_id, size) = parse_qiurc_recv(s);
        Some(UrcEvent::DataReceived { conn_id, size })
    } else if k == 7 {
        let n: u32 = match parse_last_number(s) {
            Some(v) => v,
            None => 0,
        };
        Some(UrcEvent::ConnectionClosed { conn_id: n as u8 })
    } else if k == 8 {
        let n: u32 = match parse_last_number(s) {
            Some(v) => v,
            None => 0,
        };
        Some(UrcEvent::SmsReceived { index: n as u16 })
    } else if k == 9 {
        Some(UrcEvent::LorawanRxReceived { port: 0, rssi: 0, snr: 0, data: bytes256_new() })
    } else if k == 10 {
        Some(UrcEvent::LorawanTxDone { status: 0 })
    } else if k == 11 {
        Some(UrcEvent::LorawanJoined)
    } else if k == 12 {
        let mut t = text128_new();
        if s.len() <= 128 {
            let _ = text128_push_str(&mut t, line);
            assert(line.spec_bytes().subrange(0, custom_len(line.spec_bytes())) =~= line.spec_bytes());
        } else {
            let (head, _) = line.split_at(128);
            let _ = text128_push_str(&mut t, head);
        }
        Some(UrcEvent::Custom(t))
    } else {
        None
    }
}


/* ---------------- channel management ---------------- */

/// Cloud channel (Cat.1 MQTT).
pub trait CloudChannel {
    /// Publishes and downlink polls done on the channel so far, oldest
    /// first, with what they gave. The default records nothing; an
    /// implementation that is itself verified overrides it with its own
    /// record, and one that is not is trusted to keep the contracts below
    /// over some record.
    open spec fn cloud_record(&self) -> Seq<ChannelOp> {
        Seq::empty()
    }

    fn is_connected(&self) -> bool;
    fn publish(&mut self, topic: &str, data: &[u8]) -> (r: Result<(), AtError>)
        ensures
            final(self).cloud_record() == old(self).cloud_record().push(ChannelOp::Publish(topic@, data@, r)),
    ;
    fn subscribe(&mut self, topic: &str) -> Result<(), AtError>;
    fn poll_incoming(&mut self) -> (r: Option<CloudMessage>)
        ensures
            final(self).cloud_record() == old(self).cloud_record().push(ChannelOp::Cat1Polled(r)),
    ;
}

/// Message received from the cloud.
#[derive(Debug)]
pub struct CloudMessage {
    pub topic: heapless::String<128>,
    pub data: heapless::Vec<u8, 512>,
}

/// LoRaWAN channel.
pub trait LorawanChannel {
    /// Uplinks sent on the channel so far, oldest first, with what they
    /// gave (default and trust as for `CloudChannel::cloud_record`).
    open spec fn lora_record(&self) -> Seq<ChannelOp> {
        Seq::empty()
    }

    fn is_joined(&self) -> bool;
    fn send(&mut self, port: u8, data: &[u8], confirmed: bool) -> (r: Result<(), AtError>)
        ensures
            final(self).lora_record() == old(self).lora_record().push(ChannelOp::LoraSend(port, data@, confirmed, r)),
    ;
    fn poll_rx(&mut self) -> Option<LorawanRxMessage>;
}

/// LoRaWAN downlink.
#[derive(Debug)]
pub struct LorawanRxMessage {
    pub port: u8,
    pub rssi: i16,
    pub snr: i8,
    pub data: heapless::Vec<u8, 256>,
}

/// Channel an uplink goes out on: Cat.1 when connected, else LoRaWAN when
/// joined, else none.
pub open spec fn uplink_route_spec(cat1_connected: bool, lora_joined: bool) -> Option<ChannelId> {
    if cat1_connected {
        Some(ChannelId::Cat1)
    } else if lora_joined {
        Some(ChannelId::Lorawan)
    } else {
        None
    }
}

/// Channel an uplink goes out on (see `uplink_route_spec`).
pub fn uplink_route(cat1_connected: bool, lora_joined: bool) -> (r: Option<ChannelId>)
    ensures
        r == uplink_route_spec(cat1_connected, lora_joined),
{
    if cat1_connected {
        Some(ChannelId::Cat1)
    } else if lora_joined {
        Some(ChannelId::Lorawan)
    } else {
        None
    }
}

/// An exchange of the channel manager with a channel, with what came back.
pub enum ChannelOp {
    /// Cat.1 connection state asked
    Cat1Connected(bool),
    /// LoRaWAN join state asked
    LoraJoined(bool),
    /// Cat.1 publish of data on a topic
    Publish(Seq<char>, Seq<u8>, Result<(), AtError>),
    /// LoRaWAN send on a port, confirmed or not
    LoraSend(u8, Seq<u8>, bool, Result<(), AtError>),
    /// Cat.1 polled for a downlink, with the message it gave
    Cat1Polled(Option<CloudMessage>),
}

/// What `route_uplink` hands the channels and answers, from the states
/// and send results they gave: `ops` is what was handed over, `r` the
/// answer.
pub open spec fn uplink_exchange(ops: Seq<ChannelOp>, topic: Seq<char>, data: Seq<u8>, r: Result<ChannelId, AtError>) -> bool {
    &&& ops.len() >= 1
    &&& ops[0] matches ChannelOp::Cat1Connected(c) && {
        if c {
            &&& ops.len() == 2
            &&& ops[1] matches ChannelOp::Publish(t, d, res) && t == topic && d == data
                && r == (match res { Ok(_) => Ok::<ChannelId, AtError>(ChannelId::Cat1), Err(e) => Err::<ChannelId, AtError>(e) })
        } else {
            &&& ops.len() >= 2
            &&& ops[1] matches ChannelOp::LoraJoined(j) && {
                if j {
                    &&& ops.len() == 3
                    &&& ops[2] matches ChannelOp::LoraSend(port, d, confirmed, res) && port == 1 && d == data && !confirmed
                        && r == (match res { Ok(_) => Ok::<ChannelId, AtError>(ChannelId::Lorawan), Err(e) => Err::<ChannelId, AtError>(e) })
                } else {
                    ops.len() == 2 && r == Err::<ChannelId, AtError>(AtError::NotReady)
                }
            }
        }
    }
}

/// The exchanges with the Cat.1 channel that change it (publishes and
/// downlink polls) among `ops`, in order.
pub open spec fn cloud_ops_of(ops: Seq<ChannelOp>) -> Seq<ChannelOp>
    decreases ops.len(),
{
    if ops.len() == 0 {
        Seq::empty()
    } else if ops.last() is Publish || ops.last() is Cat1Polled {
        cloud_ops_of(ops.drop_last()).push(ops.last())
    } else {
        cloud_ops_of(ops.drop_last())
    }
}

/// The LoRaWAN sends among `ops`, in order.
pub open spec fn lora_ops_of(ops: Seq<ChannelOp>) -> Seq<ChannelOp>
    decreases ops.len(),
{
    if ops.len() == 0 {
        Seq::empty()
    } else if ops.last() is LoraSend {
        lora_ops_of(ops.drop_last()).push(ops.last())
    } else {
        lora_ops_of(ops.drop_last())
    }
}

/// The meter's four communication channels.
pub struct ChannelManager<R: Rs485Channel, I: IrdaChannel, C: CloudChannel, L: LorawanChannel> {
    rs485: R,
    irda: I,
    cat1: C,
    lora: L,
    /// Exchanges with the channels so far, oldest first
    log: Ghost<Seq<ChannelOp>>,
    /// The channels' own records when the manager took them
    prior: Ghost<(Seq<ChannelOp>, Seq<ChannelOp>)>,
}

impl<R: Rs485Channel, I: IrdaChannel, C: CloudChannel, L: LorawanChannel> ChannelManager<R, I, C, L> {
    /// The channels managed: RS-485, infrared, Cat.1, LoRaWAN.
    pub closed spec fn channels(&self) -> (R, I, C, L) {
        (self.rs485, self.irda, self.cat1, self.lora)
    }

    /// Exchanges with the channels so far, oldest first.
    pub closed spec fn log(&self) -> Seq<ChannelOp> {
        self.log@
    }

    /// The Cat.1 and LoRaWAN channels' own records when the manager took them.
    pub closed spec fn prior_records(&self) -> (Seq<ChannelOp>, Seq<ChannelOp>) {
        self.prior@
    }

    /// The publishes, polls and sends in the manager's log are those the
    /// Cat.1 and LoRaWAN channels themselves record since it took them.
    pub open spec fn wf(&self) -> bool {
        &&& self.channels().2.cloud_record() == self.prior_records().0 + cloud_ops_of(self.log())
        &&& self.channels().3.lora_record() == self.prior_records().1 + lora_ops_of(self.log())
    }

    /// A manager over the four channels.
    pub fn new(rs485: R, irda: I, cat1: C, lora: L) -> (r: Self)
        ensures
            r.channels() == (rs485, irda, cat1, lora),
            r.log() == Seq::<ChannelOp>::empty(),
            r.prior_records() == (cat1.cloud_record(), lora.lora_record()),
            r.wf(),
    {
        let r = ChannelManager {
            rs485,
            irda,
            cat1,
            lora,
            log: Ghost(Seq::empty()),
            prior: Ghost((cat1.cloud_record(), lora.lora_record())),
        };
        proof {
            assert(r.cat1.cloud_record() =~= r.prior@.0 + cloud_ops_of(r.log@));
            assert(r.lora.lora_record() =~= r.prior@.1 + lora_ops_of(r.log@));
        }
        r
    }

    /// Send an uplink on the channel `uplink_route` picks from the channels'
    /// states: published on `topic` over Cat.1, or sent unconfirmed on port
    /// 1 over LoRaWAN. A send error is returned as is; with neither channel
    /// up the answer is `NotReady`.
    pub fn route_uplink(&mut self, topic: &str, data: &[u8]) -> (r: Result<ChannelId, AtError>)
        requires
            old(self).wf(),
        ensures
            final(self).wf(),
            final(self).log().subrange(0, old(self).log().len() as int) == old(self).log(),
            uplink_exchange(
                final(self).log().subrange(old(self).log().len() as int, final(self).log().len() as int),
                topic@,
                data@,
                r,
            ),
    {
        let ghost l0 = self.log@;
        let cat1_connected = self.cat1.is_connected();
        let ghost p0 = self.log@;
        self.log = Ghost(self.log@.push(ChannelOp::Cat1Connected(cat1_connected)));
        proof {
            assert(self.log@.drop_last() =~= p0);
            assert(cloud_ops_of(self.log@) == cloud_ops_of(p0));
            assert(lora_ops_of(self.log@) == lora_ops_of(p0));
            assert(self.wf());
        }
        let lora_joined = if cat1_connected {
            false
        } else {
            let j = self.lora.is_joined();
            let ghost p1 = self.log@;
            self.log = Ghost(self.log@.push(ChannelOp::LoraJoined(j)));
            proof {
                assert(self.log@.drop_last() =~= p1);
                assert(cloud_ops_of(self.log@) == cloud_ops_of(p1));
                assert(lora_ops_of(self.log@) == lora_ops_of(p1));
                assert(self.wf());
            }
            j
        };
        let r = match uplink_route(cat1_connected, lora_joined) {
            Some(ChannelId::Cat1) => {
                let res = self.cat1.publish(topic, data);
                let ghost p2 = self.log@;
                self.log = Ghost(self.log@.push(ChannelOp::Publish(topic@, data@, res)));
                proof {
                    assert(self.log@.drop_last() =~= p2);
                    assert(self.cat1.cloud_record() =~= self.prior@.0 + cloud_ops_of(self.log@));
                }
                match res {
                    Ok(()) => Ok(ChannelId::Cat1),
                    Err(e) => Err(e),
                }
            },
            Some(ChannelId::Lorawan) => {
                let res = self.lora.send(1, data, false);
                let ghost p3 = self.log@;
                self.log = Ghost(self.log@.push(ChannelOp::LoraSend(1, data@, false, res)));
                proof {
                    assert(self.log@.drop_last() =~= p3);
                    assert(self.lora.lora_record() =~= self.prior@.1 + lora_ops_of(self.log@));
                }
                match res {
                    Ok(()) => Ok(ChannelId::Lorawan),
                    Err(e) => Err(e),
                }
            },
            Some(c) => Ok(c),
            None => Err(AtError::NotReady),
        };
        proof {
            assert(self.log@.subrange(0, l0.len() as int) =~= l0);
            let added = self.log@.subrange(l0.len() as int, self.log@.len() as int);
            assert forall|k: int| 0 <= k < added.len() implies #[trigger] added[k] == self.log@[l0.len() + k] by {}
        }
        r
    }

    /// Poll the channels for a downlink: the message Cat.1 gives, tagged
    /// with its channel, or `None` when it gives none.
    pub fn poll_all(&mut self) -> (r: Option<(ChannelId, CloudMessage)>)
        requires
            old(self).wf(),
        ensures
            final(self).wf(),
            final(self).log().len() == old(self).log().len() + 1,
            final(self).log().drop_last() == old(self).log(),
            final(self).log().last() matches ChannelOp::Cat1Polled(m) && r == (match m {
                Some(msg) => Some((ChannelId::Cat1, msg)),
                None => None,
            }),
    {
        let m = self.cat1.poll_incoming();
        self.log = Ghost(self.log@.push(ChannelOp::Cat1Polled(m)));
        proof {
            assert(self.log@.drop_last() =~= old(self).log@);
        }
        match m {
            Some(msg) => Some((ChannelId::Cat1, msg)),
            None => None,
        }
    }

    /// Unsolicited codes of the Cat.1 module are taken by its own parser:
    /// nothing here.
    pub fn poll_cat1_urc(&mut self) -> (r: Option<UrcEvent>)
        ensures
            r is None,
    {
        None
    }
}


/* ---------------- reply lines ---------------- */

/// UTF-8 encoding of the character whose code is `b` (U+0000..U+00FF).
pub open spec fn code_utf8(b: u8) -> Seq<u8> {
    if b < 0x80 { seq![b] } else { seq![(0xC0 + b / 64) as u8, (0x80 + b % 64) as u8] }
}

/// One received byte in the line buffer: CR is skipped; LF ends a
/// non-empty line, which is returned and the buffer emptied (LF on an
/// empty buffer is skipped); any other byte is appended as the character
/// with that code, and when it no longer fits the 256-byte buffer the
/// buffer is emptied (the overlong line is dropped).
pub fn at_line_step(line: &mut heapless::String<256>, byte: u8) -> (r: Option<heapless::String<256>>)
    ensures
        byte == 13 ==> r is None && *final(line) == *old(line),
        byte == 10 && text256(*old(line)).len() == 0 ==> r is None && *final(line) == *old(line),
        byte == 10 && text256(*old(line)).len() > 0 ==> r is Some && text256(r->Some_0) == text256(*old(line))
            && text256(*final(line)).len() == 0,
        byte != 13 && byte != 10 ==> r is None,
        byte != 13 && byte != 10 && text256(*old(line)).len() + code_utf8(byte).len() <= 256 ==> text256(
            *final(line),
        ) == text256(*old(line)) + code_utf8(byte),
        byte != 13 && byte != 10 && text256(*old(line)).len() + code_utf8(byte).len() > 256 ==> text256(
            *final(line),
        ).len() == 0,
{
    if byte == 13 {
        return None;
    }
    if byte == 10 {
        if text256_bytes(line).len() == 0 {
            return None;
        }
        let out = text256_clone(line);
        text256_clear(line);
        return Some(out);
    }
    if text256_push_code(line, byte).is_err() {
        text256_clear(line);
    }
    None
}

/// How a reply line bears on a pending command.
#[derive(Debug, Clone, Copy, PartialEq, Eq)]
pub enum ReplyLine {
    /// `OK`: the command succeeded.
    Done,
    /// `ERROR` or `+CME ERROR: <code>`: the command failed with the code.
    Failed(u16),
    /// Any other line: information belonging to the reply.
    Info,
}

/// A `u16` written in decimal, with an optional leading '+'.
pub open spec fn parse_u16_text(t: Seq<u8>) -> Option<u16> {
    let d = strip_plus(t);
    if d.len() > 0 && all_digits(d) && decimal_value(d) <= 0xFFFF {
        Some(decimal_value(d) as u16)
    } else {
        None
    }
}

/// Index of the first `c` in `s` (`s.len()` when there is none).
pub open spec fn first_index_of(s: Seq<u8>, c: u8) -> int
    decreases s.len(),
{
    if s.len() == 0 { 0 } else if s[0] == c { 0 } else { 1 + first_index_of(s.drop_first(), c) }
}

/// Error code of an error line: the text after its first ':', trimmed and
/// read as a decimal `u16`; 0 when there is no ':' or no such number.
pub open spec fn error_code_of(s: Seq<u8>) -> u16 {
    let i = first_index_of(s, 58u8);
    if i >= s.len() {
        0
    } else {
        match parse_u16_text(trim_spec(s.subrange(i + 1, s.len() as int))) {
            Some(v) => v,
            None => 0,
        }
    }
}

/// Meaning of a reply line.
pub open spec fn reply_line_spec(s: Seq<u8>) -> ReplyLine {
    if s == lit::OK@ {
        ReplyLine::Done
    } else if s == lit::ERROR@ || starts(s, lit::CME_ERROR@) {
        ReplyLine::Failed(error_code_of(s))
    } else {
        ReplyLine::Info
    }
}

proof fn lemma_first_index_bound(s: Seq<u8>, c: u8)
    ensures
        0 <= first_index_of(s, c) <= s.len(),
        forall|j: int| 0 <= j < first_index_of(s, c) ==> s[j] != c,
        first_index_of(s, c) < s.len() ==> s[first_index_of(s, c)] == c,
    decreases s.len(),
{
    if s.len() > 0 && s[0] != c {
        lemma_first_index_bound(s.drop_first(), c);
        assert forall|j: int| 0 <= j < first_index_of(s, c) implies s[j] != c by {
            if j > 0 {
                assert(s[j] == s.drop_first()[j - 1]);
            }
        }
    }
}

proof fn lemma_first_index_is(s: Seq<u8>, c: u8, i: int)
    requires
        0 <= i <= s.len(),
        forall|j: int| 0 <= j < i ==> s[j] != c,
        i < s.len() ==> s[i] == c,
    ensures
        first_index_of(s, c) == i,
    decreases s.len(),
{
    if s.len() > 0 && s[0] != c {
        assert forall|j: int| 0 <= j < i - 1 implies s.drop_first()[j] != c by {
            assert(s.drop_first()[j] == s[j + 1]);
        }
        lemma_first_index_is(s.drop_first(), c, i - 1);
    }
}

/// Parse `b` as a decimal `u16` (optional leading '+').
fn parse_u16_bytes(b: &[u8]) -> (r: Option<u16>)
    ensures
        r == parse_u16_text(b@),
{
    match parse_usize_bytes(b) {
        Some(v) => {
            if v <= 0xFFFF {
                Some(v as u16)
            } else {
                None
            }
        },
        None => None,
    }
}

/// The error code of an error line (see `error_code_of`).
fn error_code(s: &[u8]) -> (r: u16)
    ensures
        r == error_code_of(s@),
{
    let mut i: usize = 0;
    while i < s.len() && s[i] != 58u8
        invariant
            i <= s.len(),
            forall|j: int| 0 <= j < i ==> s@[j] != 58u8,
        decreases s.len() - i,
    {
        i = i + 1;
    }
    proof {
        lemma_first_index_is(s@, 58u8, i as int);
    }
    if i >= s.len() {
        return 0;
    }
    let rest = copy_range(s, i + 1, s.len());
    let t = trim_bytes(rest.as_slice());
    match parse_u16_bytes(t.as_slice()) {
        Some(v) => v,
        None => 0,
    }
}

/// What a reply line means for the pending command: `OK` finishes it,
/// `ERROR` fails it with code 0 and `+CME ERROR:` with the code that
/// follows, any other line is information.
pub fn classify_reply_line(line: &[u8]) -> (r: ReplyLine)
    ensures
        r == reply_line_spec(line@),
{
    if bytes_eq(line, &lit::OK) {
        return ReplyLine::Done;
    }
    let is_error = bytes_eq(line, &lit::ERROR);
    let is_cme = starts_with_bytes(line, &lit::CME_ERROR);
    if is_error || is_cme {
        return ReplyLine::Failed(error_code(line));
    }
    ReplyLine::Info
}

/// Answer to an AT command.
#[derive(Debug)]
pub enum AtResponse {
    /// `OK` with no line before it.
    OkOnly,
    /// `OK` after these lines.
    OkWithLines(Vec<Vec<u8>>),
    /// The command failed with this code.
    Error(u16),
    /// No answer in time.
    NoResponse,
}

/// Most information lines kept for one reply.
pub const MAX_REPLY_LINES: usize = 16;

/// The information lines `lines` with `line` kept when there is room.
pub open spec fn keep_line(lines: Seq<Seq<u8>>, line: Seq<u8>) -> Seq<Seq<u8>> {
    if lines.len() < MAX_REPLY_LINES { lines.push(line) } else { lines }
}

/// One complete line while waiting for `OK` or an error, with the
/// information lines `lines` collected so far: `OK` ends the wait with
/// `Ok` when no line was collected and with the collected lines
/// otherwise; an error line ends it with its code; any other line is
/// collected (the first 16 are kept) and the wait goes on (`None`).
pub fn wait_ok_step(lines: &mut Vec<Vec<u8>>, line: &[u8]) -> (r: Option<AtResponse>)
    ensures
        reply_line_spec(line@) == ReplyLine::Done ==> views(final(lines)@) == views(old(lines)@) && match r {
            Some(AtResponse::OkOnly) => old(lines)@.len() == 0,
            Some(AtResponse::OkWithLines(v)) => old(lines)@.len() > 0 && views(v@) == views(old(lines)@),
            _ => false,
        },
        reply_line_spec(line@) matches ReplyLine::Failed(c) ==> r == Some(AtResponse::Error(c)) && views(
            final(lines)@,
        ) == views(old(lines)@),
        reply_line_spec(line@) == ReplyLine::Info ==> r is None && views(final(lines)@) == keep_line(
            views(old(lines)@),
            line@,
        ),
{
    match classify_reply_line(line) {
        ReplyLine::Done => {
            if lines.len() == 0 {
                Some(AtResponse::OkOnly)
            } else {
                Some(AtResponse::OkWithLines(copy_lines(lines)))
            }
        },
        ReplyLine::Failed(c) => Some(AtResponse::Error(c)),
        ReplyLine::Info => {
            if lines.len() < MAX_REPLY_LINES {
                let l = copy_range(line, 0, line.len());
                proof {
                    assert(line@.subrange(0, line@.len() as int) =~= line@);
                }
                lines.push(l);
                proof {
                    assert(views(lines@) =~= views(old(lines)@).push(line@));
                }
            }
            None
        },
    }
}

/// A copy of the lines.
fn copy_lines(lines: &Vec<Vec<u8>>) -> (r: Vec<Vec<u8>>)
    ensures
        views(r@) == views(lines@),
{
    let mut out: Vec<Vec<u8>> = Vec::new();
    let mut i: usize = 0;
    while i < lines.len()
        invariant
            i <= lines.len(),
            views(out@) == views(lines@.subrange(0, i as int)),
        decreases lines.len() - i,
    {
        let l = &lines[i];
        let c = copy_range(l.as_slice(), 0, l.len());
        proof {
            assert(l@.subrange(0, l@.len() as int) =~= l@);
        }
        let ghost prev = out@;
        out.push(c);
        proof {
            assert(views(out@) =~= views(prev).push(c@));
            assert(views(lines@.subrange(0, i + 1)) =~= views(lines@.subrange(0, i as int)).push(lines@[i as int]@));
        }
        i = i + 1;
    }
    proof {
        assert(lines@.subrange(0, lines.len() as int) =~= lines@);
    }
    out
}

/// What a line means while waiting for one that starts with a prefix.
pub open spec fn prefix_wait_spec(line: Seq<u8>, prefix: Seq<u8>) -> Option<bool> {
    if starts(line, prefix) {
        Some(true)
    } else if line == lit::OK@ || line == lit::ERROR@ {
        Some(false)
    } else {
        None
    }
}

/// One complete line while waiting for a line that starts with `prefix`:
/// `Some(true)` when it does (the wait ends with it), `Some(false)` when it
/// is `OK` or `ERROR` (the wait ends with nothing), `None` to wait on.
pub fn wait_prefix_step(line: &[u8], prefix: &[u8]) -> (r: Option<bool>)
    ensures
        r == prefix_wait_spec(line@, prefix@),
{
    if starts_with_bytes(line, prefix) {
        Some(true)
    } else if bytes_eq(line, &lit::OK) || bytes_eq(line, &lit::ERROR) {
        Some(false)
    } else {
        None
    }
}

/// Whether a wait that started at `start_ms` has run out at `now_ms` on
/// the wrapping millisecond clock.
pub fn wait_timed_out(start_ms: u32, now_ms: u32, timeout_ms: u32) -> (r: bool)
    ensures
        r == ((now_ms - start_ms + 0x1_0000_0000) % 0x1_0000_0000 >= timeout_ms),
{
    let elapsed = now_ms.wrapping_sub(start_ms);
    elapsed >= timeout_ms
}

/// The send prompt `>` that a data command waits for, seen byte by byte.
pub fn is_send_prompt(byte: u8) -> (r: bool)
    ensures
        r == (byte == 62u8),
{
    byte == 62u8
}

} // verus!
