//! Hardware abstraction layer: the data types exchanged between the metering,
//! communication, display and board layers, and the driver interfaces that
//! board-specific code implements.

use vstd::prelude::*;

pub use crate::lcd_content::{LcdBias, LcdContent, LcdDisplayMode};

verus! {

/// Three-phase instantaneous data in engineering units.
#[derive(Clone, Copy, Debug)]
pub struct PhaseData {
    /// Phase A voltage RMS (0.01 V)
    pub voltage_a: u16,
    /// Phase B voltage RMS (0.01 V)
    pub voltage_b: u16,
    /// Phase C voltage RMS (0.01 V)
    pub voltage_c: u16,
    /// Phase A current RMS (mA)
    pub current_a: u16,
    /// Phase B current RMS (mA)
    pub current_b: u16,
    /// Phase C current RMS (mA)
    pub current_c: u16,
    /// Phase A active power (W, signed)
    pub active_power_a: i32,
    /// Phase B active power (W, signed)
    pub active_power_b: i32,
    /// Phase C active power (W, signed)
    pub active_power_c: i32,
    /// Total active power (W, signed)
    pub active_power_total: i32,
    /// Phase A reactive power (var, signed)
    pub reactive_power_a: i32,
    /// Phase B reactive power (var, signed)
    pub reactive_power_b: i32,
    /// Phase C reactive power (var, signed)
    pub reactive_power_c: i32,
    /// Total reactive power (var, signed)
    pub reactive_power_total: i32,
    /// Grid frequency (0.01 Hz)
    pub frequency: u16,
    /// Phase A power factor (0..1000)
    pub power_factor_a: u16,
    /// Phase B power factor (0..1000)
    pub power_factor_b: u16,
    /// Phase C power factor (0..1000)
    pub power_factor_c: u16,
    /// Total power factor (0..1000)
    pub power_factor_total: u16,
}

/// The all-zero phase data record.
pub open spec fn phase_data_zero() -> PhaseData {
    PhaseData {
        voltage_a: 0,
        voltage_b: 0,
        voltage_c: 0,
        current_a: 0,
        current_b: 0,
        current_c: 0,
        active_power_a: 0,
        active_power_b: 0,
        active_power_c: 0,
        active_power_total: 0,
        reactive_power_a: 0,
        reactive_power_b: 0,
        reactive_power_c: 0,
        reactive_power_total: 0,
        frequency: 0,
        power_factor_a: 0,
        power_factor_b: 0,
        power_factor_c: 0,
        power_factor_total: 0,
    }
}

impl Default for PhaseData {
    fn default() -> (r: Self)
        ensures
            r == phase_data_zero(),
    {
        PhaseData {
            voltage_a: 0,
            voltage_b: 0,
            voltage_c: 0,
            current_a: 0,
            current_b: 0,
            current_c: 0,
            active_power_a: 0,
            active_power_b: 0,
            active_power_c: 0,
            active_power_total: 0,
            reactive_power_a: 0,
            reactive_power_b: 0,
            reactive_power_c: 0,
            reactive_power_total: 0,
            frequency: 0,
            power_factor_a: 0,
            power_factor_b: 0,
            power_factor_c: 0,
            power_factor_total: 0,
        }
    }
}

/// Accumulated energy values (0.01 kWh / 0.01 kvarh).
#[derive(Clone, Copy, Debug)]
pub struct EnergyData {
    /// Active import (0.01 kWh)
    pub active_import: u64,
    /// Active export (0.01 kWh)
    pub active_export: u64,
    /// Reactive import (0.01 kvarh)
    pub reactive_import: u64,
    /// Reactive export (0.01 kvarh)
    pub reactive_export: u64,
    /// Phase A active import (0.01 kWh)
    pub active_import_a: u64,
    /// Phase B active import (0.01 kWh)
    pub active_import_b: u64,
    /// Phase C active import (0.01 kWh)
    pub active_import_c: u64,
}

impl Default for EnergyData {
    fn default() -> (r: Self)
        ensures
            r.active_import == 0 && r.active_export == 0 && r.reactive_import == 0
                && r.reactive_export == 0 && r.active_import_a == 0 && r.active_import_b == 0
                && r.active_import_c == 0,
    {
        EnergyData {
            active_import: 0,
            active_export: 0,
            reactive_import: 0,
            reactive_export: 0,
            active_import_a: 0,
            active_import_b: 0,
            active_import_c: 0,
        }
    }
}

/// Number of harmonic slots kept per phase.
pub const MAX_HARMONICS: usize = 63;

/// A register access a metering chip driver made, with its outcome.
pub enum RegOp {
    /// Read of a register and what it gave
    Read(u8, Result<u32, MeteringError>),
    /// Write of a value to a register and how it ended
    Write(u8, u32, Result<(), MeteringError>),
}

/// The value of a successful read, 0 otherwise.
pub open spec fn read_value(op: RegOp) -> u32 {
    match op {
        RegOp::Read(_, Ok(v)) => v,
        _ => 0,
    }
}

/// Whether `op` is a read of `addr`.
pub open spec fn is_read_of(op: RegOp, addr: u8) -> bool {
    op matches RegOp::Read(a, _) && a == addr
}

/// Whether `op` succeeded.
pub open spec fn op_ok(op: RegOp) -> bool {
    match op {
        RegOp::Read(_, r) => r is Ok,
        RegOp::Write(_, _, r) => r is Ok,
    }
}

/// The error of a failed read (`SpiError` for anything else).
pub open spec fn read_err(op: RegOp) -> MeteringError {
    match op {
        RegOp::Read(_, Err(e)) => e,
        _ => MeteringError::SpiError,
    }
}

/// `ops` reads the registers `addrs` in order and stops after the first
/// failed read.
pub open spec fn reads_until_error(addrs: Seq<u8>, ops: Seq<RegOp>) -> bool {
    &&& 0 < ops.len() <= addrs.len()
    &&& forall|i: int| 0 <= i < ops.len() ==> #[trigger] is_read_of(ops[i], addrs[i])
    &&& forall|i: int| 0 <= i < ops.len() - 1 ==> op_ok(#[trigger] ops[i])
    &&& ops.len() < addrs.len() ==> !op_ok(ops.last())
}

/// `ops` writes the (register, value) pairs of `w` in order and stops
/// after the first failed write.
pub open spec fn writes_until_error(w: Seq<(u8, u32)>, ops: Seq<RegOp>) -> bool {
    &&& 0 < ops.len() <= w.len()
    &&& forall|i: int| 0 <= i < ops.len() ==> (#[trigger] ops[i] matches RegOp::Write(a, d, _) && a == w[i].0 && d == w[i].1)
    &&& forall|i: int| 0 <= i < ops.len() - 1 ==> op_ok(#[trigger] ops[i])
    &&& ops.len() < w.len() ==> !op_ok(ops.last())
}

/// The harmonic value kept from a read: its low 16 bits, or 0 when the
/// read failed.
pub open spec fn harmonic_of(op: RegOp) -> u16 {
    if op_ok(op) { (read_value(op) & 0xFFFF) as u16 } else { 0 }
}

/// Harmonic data of one phase.
#[derive(Clone, Copy, Debug)]
pub struct HarmonicData {
    /// THD (0.01 %)
    pub thd: u16,
    /// Harmonic content per order (0.01 %); index 0 is the fundamental.
    pub harmonics: [u16; 63],
}

impl HarmonicData {
    /// Number of harmonic slots.
    pub const MAX_HARMONICS: usize = 63;
}

impl Default for HarmonicData {
    fn default() -> (r: Self)
        ensures
            r.thd == 0,
            forall|i: int| 0 <= i < 63 ==> #[trigger] r.harmonics@[i] == 0,
    {
        HarmonicData { thd: 0, harmonics: [0u16; 63] }
    }
}

/// Power quality event.
#[derive(Clone, Copy, Debug)]
pub enum PowerQualityEvent {
    /// Voltage sag (phase, duration ms, minimum 0.01 V)
    VoltageSag { phase: u8, duration_ms: u16, min_voltage: u16 },
    /// Voltage swell (phase, duration ms, maximum 0.01 V)
    VoltageSwell { phase: u8, duration_ms: u16, max_voltage: u16 },
    /// Frequency out of range (0.01 Hz)
    FrequencyDeviation { frequency: u16 },
    /// Three-phase unbalance over limit (0.01 %)
    PhaseUnbalance { percentage: u16 },
    /// Flicker (short term, long term)
    Flicker { short_term: u16, long_term: u16 },
}

/// Metering chip error.
#[derive(Clone, Copy, Debug, PartialEq, Eq, Structural)]
pub enum MeteringError {
    /// SPI communication error
    SpiError,
    /// Checksum error
    ChecksumError,
    /// Chip not ready
    NotReady,
    /// Invalid register address
    InvalidRegister,
    /// Data overflow
    Overflow,
    /// Tamper detected
    TamperDetected,
}

/// Phase selector.
#[derive(Clone, Copy, Debug, PartialEq, Eq, Structural)]
pub enum Phase {
    A,
    B,
    C,
}

/// One transfer on an SPI link: the bytes sent, the bytes received, and
/// its result.
pub type SpiExchange = (Seq<u8>, Seq<u8>, Result<(), MeteringError>);

/// SPI transfer interface (implemented by the board layer).
pub trait SpiTransfer {
    /// Transfers done on the link so far, oldest first. The default
    /// records nothing; an implementation that is itself verified overrides
    /// it with its own record, and one that is not is trusted to keep the
    /// contract of `transfer` over some record.
    open spec fn transfers(&self) -> Seq<SpiExchange> {
        Seq::empty()
    }

    /// Full-duplex transfer with automatic chip select: `tx` is sent and
    /// `rx` filled with what was received.
    fn transfer(&mut self, tx: &[u8], rx: &mut [u8]) -> (r: Result<(), MeteringError>)
        ensures
            final(rx)@.len() == old(rx)@.len(),
            final(self).transfers() == old(self).transfers().push((tx@, final(rx)@, r)),
    ;
}

/// Harmonic analysis offered by a metering chip.
pub trait HarmonicAnalysis {
    /// Harmonic data of one phase.
    fn read_harmonics(&mut self, phase: Phase) -> Result<HarmonicData, MeteringError>;
    /// Total harmonic distortion of one phase (0.01 %).
    fn read_thd(&mut self, phase: Phase) -> Result<u16, MeteringError>;
    /// Highest harmonic order measured.
    fn max_harmonic_order(&self) -> u8;
}

/// Power-quality measurements offered by a metering chip.
pub trait PowerQuality: HarmonicAnalysis {
    /// Three-phase voltage unbalance (0.01 %).
    fn read_voltage_unbalance(&mut self) -> Result<u16, MeteringError>;
    /// Three-phase current unbalance (0.01 %).
    fn read_current_unbalance(&mut self) -> Result<u16, MeteringError>;
    /// Short-term flicker (Pst).
    fn read_short_flicker(&mut self) -> Result<u16, MeteringError>;
    /// Long-term flicker (Plt).
    fn read_long_flicker(&mut self) -> Result<u16, MeteringError>;
    /// Interharmonic of one phase and order.
    fn read_interharmonic(&mut self, phase: Phase, order: u8) -> Result<u16, MeteringError>;
    /// DC component of one phase voltage (0.01 V).
    fn read_dc_component(&mut self, phase: Phase) -> Result<u16, MeteringError>;
    /// Pending power-quality event, if any (non-blocking).
    fn check_pq_event(&mut self) -> Option<PowerQualityEvent>;
}

/// UART channel number.
#[derive(Clone, Copy, Debug, PartialEq, Eq, Structural)]
pub enum UartChannel {
    /// UART0: RS-485 (DLMS/COSEM)
    Uart0,
    /// UART1: infrared (IEC 62056-21)
    Uart1,
    /// UART2: LoRaWAN
    Uart2,
    /// UART3: cellular module
    Uart3,
    /// UART4: spare
    Uart4,
    /// UART5: spare
    Uart5,
    /// LPUART0: debug / low-power wakeup
    LpUart0,
    /// LPUART1: spare
    LpUart1,
}

/// Parity setting.
#[derive(Clone, Copy, Debug, PartialEq, Eq, Structural)]
pub enum Parity {
    NoParity,
    Even,
    Odd,
}

/// UART configuration.
#[derive(Clone, Copy, Debug, PartialEq, Eq, Structural)]
pub struct UartConfig {
    pub baudrate: u32,
    pub data_bits: u8,
    pub stop_bits: u8,
    pub parity: Parity,
}

impl Default for UartConfig {
    fn default() -> (r: Self)
        ensures
            r == (UartConfig { baudrate: 9600, data_bits: 8, stop_bits: 1, parity: Parity::NoParity }),
    {
        UartConfig { baudrate: 9600, data_bits: 8, stop_bits: 1, parity: Parity::NoParity }
    }
}

/// One operation on a UART with what it gave: an initialisation, a write
/// of bytes, a read with its timeout and the buffer's content after it.
pub enum UartExchange {
    Init(UartConfig, Result<(), UartError>),
    Write(Seq<u8>, Result<(), UartError>),
    Read(u32, Seq<u8>, Result<usize, UartError>),
}

/// UART error.
#[derive(Clone, Copy, Debug, PartialEq, Eq, Structural)]
pub enum UartError {
    /// Transmit timeout
    TxTimeout,
    /// Receive timeout
    RxTimeout,
    /// Framing error
    FramingError,
    /// Parity error
    ParityError,
    /// Overrun
    OverrunError,
    /// Buffer full
    BufferFull,
}

/// UART driver interface.
pub trait UartDriver {
    /// Initialisations, writes and reads done on the UART so far, oldest
    /// first, with what they gave. The default records nothing; an
    /// implementation that is itself verified overrides it with its own
    /// record, and one that is not is trusted to keep the contracts below
    /// over some record.
    open spec fn uart_record(&self) -> Seq<UartExchange> {
        Seq::empty()
    }

    /// Initialise the UART.
    fn init(&mut self, config: &UartConfig) -> (r: Result<(), UartError>)
        ensures
            final(self).uart_record() == old(self).uart_record().push(UartExchange::Init(*config, r)),
    ;
    /// Blocking write.
    fn write(&mut self, data: &[u8]) -> (r: Result<(), UartError>)
        ensures
            final(self).uart_record() == old(self).uart_record().push(UartExchange::Write(data@, r)),
    ;
    /// Blocking read into `buf`; returns the number of bytes received.
    fn read(&mut self, buf: &mut [u8], timeout_ms: u32) -> (r: Result<usize, UartError>)
        ensures
            final(buf)@.len() == old(buf)@.len(),
            final(self).uart_record() == old(self).uart_record().push(UartExchange::Read(timeout_ms, final(buf)@, r)),
    ;
    /// Non-blocking check for available data.
    fn readable(&self) -> bool;
    /// Channel number.
    fn channel(&self) -> UartChannel;
}

/// GPIO pin (port, pin).
#[derive(Clone, Copy, Debug, PartialEq, Eq, Structural)]
pub struct GpioPin {
    pub port: u8,
    pub pin: u8,
}

impl GpioPin {
    /// Build a pin descriptor.
    pub fn new(port: u8, pin: u8) -> (r: Self)
        ensures
            r.port == port && r.pin == pin,
    {
        GpioPin { port, pin }
    }
}

/// GPIO direction.
#[derive(Clone, Copy, Debug, PartialEq, Eq, Structural)]
pub enum GpioDirection {
    Input,
    Output,
}

/// GPIO level.
#[derive(Clone, Copy, Debug, PartialEq, Eq, Structural)]
pub enum GpioLevel {
    Low,
    High,
}

/// GPIO driver interface.
pub trait GpioDriver {
    fn set_direction(&mut self, pin: GpioPin, dir: GpioDirection);
    fn write(&mut self, pin: GpioPin, level: GpioLevel);
    fn read(&self, pin: GpioPin) -> GpioLevel;
    fn toggle(&mut self, pin: GpioPin);
}

/// LCD driver interface.
pub trait LcdDriver {
    /// The driver's counters allow an update without overflow.
    spec fn update_ready(&self) -> bool;

    fn init(&mut self);

    fn update(&mut self, content: &LcdContent)
        requires
            old(self).update_ready(),
    ;

    fn set_mode(&mut self, mode: LcdDisplayMode);
    fn enable(&mut self, on: bool);
    fn set_bias(&mut self, bias: LcdBias);
}

/// Cellular module type.
#[derive(Clone, Copy, Debug, PartialEq, Eq, Structural)]
pub enum CellularModule {
    /// Quectel EC800N (LTE Cat.1 bis)
    Ec800n,
    /// Quectel BC260Y (NB-IoT)
    Bc260y,
}

/// Cellular network registration status.
#[derive(Clone, Copy, Debug, PartialEq, Eq, Structural)]
pub enum NetworkStatus {
    NotRegistered,
    RegisteredHome,
    Searching,
    Denied,
    Unknown,
    RegisteredRoaming,
}

/// MQTT connection configuration.
#[derive(Clone, Copy, Debug)]
pub struct MqttConfig {
    /// Broker URL, NUL terminated
    pub broker: [u8; 64],
    pub port: u16,
    pub client_id: [u8; 32],
    pub username: [u8; 32],
    pub password: [u8; 32],
    pub keepalive_sec: u16,
}

/// GPS fix.
#[derive(Clone, Copy, Debug)]
pub struct GpsData {
    /// Latitude (1e-7 degree, north positive)
    pub latitude: i32,
    /// Longitude (1e-7 degree, east positive)
    pub longitude: i32,
    /// Altitude (cm)
    pub altitude: i32,
    /// Speed (cm/s)
    pub speed: u32,
    /// Satellites in view
    pub satellites: u8,
    /// HDOP (0.1)
    pub hdop: u16,
    /// UTC timestamp (Unix)
    pub utc_timestamp: u64,
}

impl Default for GpsData {
    fn default() -> (r: Self)
        ensures
            r.latitude == 0 && r.longitude == 0 && r.altitude == 0 && r.speed == 0
                && r.satellites == 0 && r.hdop == 0 && r.utc_timestamp == 0,
    {
        GpsData {
            latitude: 0,
            longitude: 0,
            altitude: 0,
            speed: 0,
            satellites: 0,
            hdop: 0,
            utc_timestamp: 0,
        }
    }
}

/// HTTP response summary.
#[derive(Clone, Copy, Debug)]
pub struct HttpResult {
    pub status_code: u16,
    pub content_length: u32,
    /// Data offset in the module buffer
    pub data_offset: u32,
}

/// SMS message.
#[derive(Clone, Copy, Debug)]
pub struct SmsMessage {
    pub index: u8,
    pub sender: [u8; 20],
    pub timestamp: [u8; 20],
    pub text: [u8; 160],
    pub text_len: u8,
}

/// Cellular error.
#[derive(Clone, Copy, Debug, PartialEq, Eq, Structural)]
pub enum CellularError {
    AtTimeout,
    AtError,
    NoResponse,
    NoSim,
    NotRegistered,
    MqttNotConnected,
    GpsNotFixed,
    OutOfMemory,
    NotSupported,
    HttpError(u16),
}

/// Cellular module driver interface.
pub trait CellularDriver {
    fn init(&mut self) -> Result<(), CellularError>;
    fn module_type(&self) -> CellularModule;
    fn network_status(&mut self) -> Result<NetworkStatus, CellularError>;
    fn signal_strength(&mut self) -> Result<i16, CellularError>;
    fn mqtt_connect(&mut self, config: &MqttConfig) -> Result<(), CellularError>;
    fn mqtt_publish(&mut self, topic: &str, data: &[u8], qos: u8) -> Result<(), CellularError>;
    fn mqtt_subscribe(&mut self, topic: &str, qos: u8) -> Result<(), CellularError>;
    fn mqtt_disconnect(&mut self) -> Result<(), CellularError>;
    fn http_get(&mut self, url: &str) -> Result<HttpResult, CellularError>;
    fn http_post(&mut self, url: &str, content_type: &str, body: &[u8]) -> Result<
        HttpResult,
        CellularError,
    >;
    fn sms_send(&mut self, number: &str, text: &str) -> Result<(), CellularError>;
    fn sms_read(&mut self, index: u8) -> Result<SmsMessage, CellularError>;
    fn sms_delete(&mut self, index: u8) -> Result<(), CellularError>;
    fn gps_position(&mut self) -> Result<GpsData, CellularError>;
    fn sync_time(&mut self) -> Result<u64, CellularError>;
    fn fota_update(&mut self, url: &str) -> Result<(), CellularError>;
    fn enter_psm(&mut self, tau_sec: u32, active_sec: u32) -> Result<(), CellularError>;
    fn wakeup(&mut self) -> Result<(), CellularError>;
    fn power_off(&mut self) -> Result<(), CellularError>;
}

/// LoRaWAN join mode.
#[derive(Clone, Copy, Debug, PartialEq, Eq, Structural)]
pub enum LorawanJoinMode {
    Otaa,
    Abp,
}

/// LoRaWAN configuration.
#[derive(Clone, Copy, Debug)]
pub struct LorawanConfig {
    pub dev_eui: [u8; 8],
    pub app_eui: [u8; 8],
    pub app_key: [u8; 16],
    pub join_mode: LorawanJoinMode,
}

/// LoRaWAN status.
#[derive(Clone, Copy, Debug, PartialEq, Eq, Structural)]
pub enum LorawanStatus {
    Idle,
    Joining,
    Joined,
    Sending,
    Error,
}

/// LoRaWAN error.
#[derive(Clone, Copy, Debug, PartialEq, Eq, Structural)]
pub enum LorawanError {
    AtTimeout,
    AtError,
    NoResponse,
    JoinFailed,
    SendFailed,
    NotJoined,
    Busy,
}

/// LoRaWAN driver interface.
pub trait LorawanDriver {
    fn init(&mut self) -> Result<(), LorawanError>;
    fn configure(&mut self, config: &LorawanConfig) -> Result<(), LorawanError>;
    fn join(&mut self) -> Result<(), LorawanError>;
    fn send(&mut self, port: u8, data: &[u8], confirmed: bool) -> Result<(), LorawanError>;
    fn status(&mut self) -> LorawanStatus;
    fn rssi(&mut self) -> Result<i16, LorawanError>;
}

/// Storage region.
#[derive(Clone, Copy, Debug, PartialEq, Eq, Structural)]
pub enum StorageRegion {
    InternalParam,
    ExternalFlash,
}

/// Storage error.
#[derive(Clone, Copy, Debug, PartialEq, Eq, Structural)]
pub enum StorageError {
    ReadError,
    WriteError,
    EraseError,
    OutOfBounds,
    NotAvailable,
}

/// Storage driver interface.
pub trait StorageDriver {
    fn read(&mut self, region: StorageRegion, offset: u32, buf: &mut [u8]) -> Result<(), StorageError>;
    fn write(&mut self, region: StorageRegion, offset: u32, data: &[u8]) -> Result<(), StorageError>;
    fn erase_sector(&mut self, region: StorageRegion, sector_index: u32) -> Result<(), StorageError>;
    fn capacity(&self, region: StorageRegion) -> u32;
    fn sector_size(&self, region: StorageRegion) -> u32;
}

/// Pulse type.
#[derive(Clone, Copy, Debug, PartialEq, Eq, Structural)]
pub enum PulseType {
    Active,
    Reactive,
}

/// Pulse output configuration.
#[derive(Clone, Copy, Debug, PartialEq, Eq, Structural)]
pub struct PulseConfig {
    /// Pulse constant (imp/kWh or imp/kvarh)
    pub constant_imp: u32,
    /// Pulse width (ms)
    pub pulse_width_ms: u16,
}

/// Pulse output driver interface.
pub trait PulseDriver {
    fn configure(&mut self, config: &PulseConfig);
    fn update_energy(&mut self, pulse_type: PulseType, delta_wh: u32);
}

/// Supply state.
#[derive(Clone, Copy, Debug, PartialEq, Eq, Structural)]
pub enum PowerState {
    MainsNormal,
    BatteryBackup,
    BatteryLow,
}

/// Power management driver interface.
pub trait PowerDriver {
    fn state(&self) -> PowerState;
    fn battery_voltage(&mut self) -> u16;
    fn temperature(&mut self) -> i16;
    fn enter_low_power(&mut self);
    fn wakeup(&mut self);
}

/// Button.
#[derive(Clone, Copy, Debug, PartialEq, Eq, Structural)]
pub enum Button {
    Page,
    Program,
}

/// Key event.
#[derive(Clone, Copy, Debug, PartialEq, Eq, Structural)]
pub enum KeyEvent {
    ShortPress(Button),
    LongPress(Button),
    DoublePress(Button),
}

/// Indicator LED.
#[derive(Clone, Copy, Debug, PartialEq, Eq, Structural)]
pub enum Led {
    Power,
    Communication,
    Alarm,
    PulseActive,
    PulseReactive,
}

/// Indicator driver interface.
pub trait IndicatorDriver {
    fn set_led(&mut self, led: Led, on: bool);
    fn toggle_led(&mut self, led: Led);
    fn buzzer_alarm(&mut self, duration_ms: u16);
    fn buzzer_off(&mut self);
}

/// Tamper event.
#[derive(Clone, Copy, Debug, PartialEq, Eq, Structural)]
pub enum TamperEvent {
    CoverOpen,
    TerminalCoverOpen,
    MagneticFieldDetected,
    ChipTamperDetected,
}

/// Tamper detection driver interface.
pub trait TamperDriver {
    fn check_events(&mut self) -> Option<TamperEvent>;
    fn magnetic_field_strength(&mut self) -> Option<u16>;
}

} // verus!
