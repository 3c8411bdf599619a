//! Quectel cellular module family: model identification from the module's
//! identification answer, per-model capabilities and power-key timing.
use vstd::prelude::*;
use vstd::string::StringSliceAdditionalSpecFns;

use crate::at_parser::{trim_bytes, trim_spec, AtError};

verus! {

/// Quectel module model.
#[derive(Debug, Clone, Copy, PartialEq, Eq)]
pub enum QuectelModel {
    Ec20,
    Ec25,
    Ec200T,
    Ec200S,
    Ec200A,
    Ec800N,
    Ec800G,
    Ec200U,
    Ec800E,
    Bc260Y,
    Bc28F,
    Bc95,
    M26,
    M35,
    Mc60,
    M66,
    Ag35,
    Ag215,
    Ag52,
    Unknown,
}

/// Radio technology of a module.
#[derive(Debug, Clone, Copy, PartialEq, Eq)]
pub enum CellularType {
    LteCat4,
    LteCat1,
    NbIoT,
    Gprs,
    Unknown,
}

/// What a module model supports.
#[derive(Debug, Clone, Copy)]
pub struct QuectelCapabilities {
    pub cellular_type: CellularType,
    pub socket: bool,
    pub mqtt: bool,
    pub mqtt_ssl: bool,
    pub coap: bool,
    pub ftp: bool,
    pub http: bool,
    pub ssl: bool,
    pub sms: bool,
    pub voice: bool,
    pub gnss: bool,
    pub max_baud: u32,
}

/// Socket transport protocol.
#[derive(Debug, Clone, Copy, PartialEq, Eq)]
pub enum SocketProto {
    Tcp,
    Udp,
    TcpListen,
    UdpService,
}

/// Socket state.
#[derive(Debug, Clone, Copy, PartialEq, Eq)]
pub enum SocketState {
    Closed,
    Opening,
    Connected,
    Closing,
    Error,
}

/* ---------------- identification ---------------- */

/// ASCII upper case of one byte; other bytes unchanged.
pub open spec fn ascii_upper(b: u8) -> u8 {
    if 97 <= b <= 122 { (b - 32) as u8 } else { b }
}

/// ASCII upper case of a byte string.
pub open spec fn upper_bytes(s: Seq<u8>) -> Seq<u8> {
    s.map_values(|b: u8| ascii_upper(b))
}

/// `p` occurs in `s` starting at `i`.
pub open spec fn occurs_at(s: Seq<u8>, p: Seq<u8>, i: int) -> bool {
    0 <= i && i + p.len() <= s.len() && s.subrange(i, i + p.len()) == p
}

/// `p` occurs somewhere in `s`.
pub open spec fn contains_bytes(s: Seq<u8>, p: Seq<u8>) -> bool {
    exists|i: int| occurs_at(s, p, i)
}

/// Model named by an upper-cased identification answer: the first name in
/// the table below that occurs in it.
pub open spec fn model_of(u: Seq<u8>) -> QuectelModel {
    if contains_bytes(u, seq![69u8, 67u8, 50u8, 48u8, 48u8, 84u8]) { QuectelModel::Ec200T } // "EC200T"
    else if contains_bytes(u, seq![69u8, 67u8, 50u8, 48u8, 48u8, 83u8]) { QuectelModel::Ec200S } // "EC200S"
    else if contains_bytes(u, seq![69u8, 67u8, 50u8, 48u8, 48u8, 85u8]) { QuectelModel::Ec200U } // "EC200U"
    else if contains_bytes(u, seq![69u8, 67u8, 50u8, 48u8]) { QuectelModel::Ec20 } // "EC20"
    else if contains_bytes(u, seq![69u8, 67u8, 50u8, 53u8]) { QuectelModel::Ec25 } // "EC25"
    else if contains_bytes(u, seq![69u8, 67u8, 56u8, 48u8, 48u8, 78u8]) { QuectelModel::Ec800N } // "EC800N"
    else if contains_bytes(u, seq![69u8, 67u8, 56u8, 48u8, 48u8, 71u8]) { QuectelModel::Ec800G } // "EC800G"
    else if contains_bytes(u, seq![69u8, 67u8, 56u8, 48u8, 48u8, 69u8]) { QuectelModel::Ec800E } // "EC800E"
    else if contains_bytes(u, seq![66u8, 67u8, 50u8, 54u8, 48u8]) { QuectelModel::Bc260Y } // "BC260"
    else if contains_bytes(u, seq![66u8, 67u8, 50u8, 56u8]) { QuectelModel::Bc28F } // "BC28"
    else if contains_bytes(u, seq![66u8, 67u8, 57u8, 53u8]) { QuectelModel::Bc95 } // "BC95"
    else if contains_bytes(u, seq![77u8, 50u8, 54u8]) { QuectelModel::M26 } // "M26"
    else if contains_bytes(u, seq![77u8, 51u8, 53u8]) { QuectelModel::M35 } // "M35"
    else if contains_bytes(u, seq![77u8, 67u8, 54u8, 48u8]) { QuectelModel::Mc60 } // "MC60"
    else if contains_bytes(u, seq![77u8, 54u8, 54u8]) { QuectelModel::M66 } // "M66"
    else if contains_bytes(u, seq![65u8, 71u8, 51u8, 53u8]) { QuectelModel::Ag35 } // "AG35"
    else if contains_bytes(u, seq![65u8, 71u8, 50u8, 49u8, 53u8]) { QuectelModel::Ag215 } // "AG215"
    else if contains_bytes(u, seq![65u8, 71u8, 53u8, 50u8]) { QuectelModel::Ag52 } // "AG52"
    else { QuectelModel::Unknown }
}

/// `s` in ASCII upper case when `upper`, else as it is.
pub open spec fn case_fold(s: Seq<u8>, upper: bool) -> Seq<u8> {
    if upper { upper_bytes(s) } else { s }
}

/// Whether `pat` occurs in the ASCII upper case of `hay`.
fn contains_upper(hay: &[u8], pat: &[u8]) -> (r: bool)
    requires
        pat@.len() > 0,
    ensures
        r == contains_bytes(upper_bytes(hay@), pat@),
{
    contains_folded(hay, pat, true)
}

/// Whether `pat` occurs in `hay`, compared byte for byte.
pub fn contains_exact(hay: &[u8], pat: &[u8]) -> (r: bool)
    requires
        pat@.len() > 0,
    ensures
        r == contains_bytes(hay@, pat@),
{
    contains_folded(hay, pat, false)
}

/// Whether `pat` occurs in `hay`, upper-cased first when `upper`.
fn contains_folded(hay: &[u8], pat: &[u8], upper: bool) -> (r: bool)
    requires
        pat@.len() > 0,
    ensures
        r == contains_bytes(case_fold(hay@, upper), pat@),
{
    let n = hay.len();
    let m = pat.len();
    let ghost u = case_fold(hay@, upper);
    if m > n {
        assert forall|i: int| !occurs_at(u, pat@, i) by {}
        return false;
    }
    let mut i: usize = 0;
    while i <= n - m
        invariant
            m <= n,
            n == hay@.len(),
            m == pat@.len(),
            m > 0,
            u == case_fold(hay@, upper),
            u.len() == n,
            i <= n - m + 1,
            forall|k: int| 0 <= k < i ==> !occurs_at(u, pat@, k),
        decreases n - m + 1 - i,
    {
        let mut j: usize = 0;
        let mut same = true;
        while j < m
            invariant
                m <= n,
                i <= n - m,
                n == hay@.len(),
                m == pat@.len(),
                u == case_fold(hay@, upper),
                u.len() == n,
                j <= m,
                same == (forall|t: int| 0 <= t < j ==> u[i + t] == pat@[t]),
            decreases m - j,
        {
            let b = hay[i + j];
            let up: u8 = if upper && 97 <= b && b <= 122 { b - 32 } else { b };
            assert(up == u[i + j]);
            if up != pat[j] {
                same = false;
            }
            j = j + 1;
        }
        if same {
            assert(u.subrange(i as int, i + m) =~= pat@);
            assert(occurs_at(u, pat@, i as int));
            return true;
        }
        assert(!occurs_at(u, pat@, i as int)) by {
            let t = choose|t: int| 0 <= t < m && u[i + t] != pat@[t];
            if u.subrange(i as int, i + m) == pat@ {
                assert(u.subrange(i as int, i + m)[t] == u[i + t]);
            }
        }
        i = i + 1;
    }
    assert forall|k: int| !occurs_at(u, pat@, k) by {
        if 0 <= k < i {
        }
    }
    false
}

/// Capabilities of a model.
pub open spec fn capabilities_of(m: QuectelModel) -> QuectelCapabilities {
    match m {
        QuectelModel::Ec20 | QuectelModel::Ec25 | QuectelModel::Ec200T | QuectelModel::Ec200S
        | QuectelModel::Ag35 | QuectelModel::Ag52 => QuectelCapabilities {
            cellular_type: CellularType::LteCat4,
            socket: true, mqtt: true, mqtt_ssl: true, coap: false, ftp: true, http: true,
            ssl: true, sms: true, voice: true,
            gnss: m == QuectelModel::Ec25 || m == QuectelModel::Ag52,
            max_baud: 460800,
        },
        QuectelModel::Ec800N | QuectelModel::Ec800G | QuectelModel::Ec200U | QuectelModel::Ec800E
        | QuectelModel::Ag215 => QuectelCapabilities {
            cellular_type: CellularType::LteCat1,
            socket: true, mqtt: true, mqtt_ssl: true, coap: false, ftp: true, http: true,
            ssl: true, sms: true,
            voice: m == QuectelModel::Ec800N || m == QuectelModel::Ec800G,
            gnss: m == QuectelModel::Ec800G,
            max_baud: 460800,
        },
        QuectelModel::Bc260Y | QuectelModel::Bc28F | QuectelModel::Bc95 => QuectelCapabilities {
            cellular_type: CellularType::NbIoT,
            socket: true, mqtt: true, mqtt_ssl: true, coap: true, ftp: false, http: true,
            ssl: true, sms: false, voice: false, gnss: false,
            max_baud: 460800,
        },
        QuectelModel::M26 | QuectelModel::M35 | QuectelModel::Mc60 | QuectelModel::M66 => QuectelCapabilities {
            cellular_type: CellularType::Gprs,
            socket: true, mqtt: false, mqtt_ssl: false, coap: false, ftp: true, http: false,
            ssl: false, sms: true, voice: true,
            gnss: m == QuectelModel::Mc60,
            max_baud: 115200,
        },
        _ => QuectelCapabilities {
            cellular_type: CellularType::Unknown,
            socket: false, mqtt: false, mqtt_ssl: false, coap: false, ftp: false, http: false,
            ssl: false, sms: false, voice: false, gnss: false,
            max_baud: 115200,
        },
    }
}

/// NB-IoT models.
pub open spec fn is_nb_iot(m: QuectelModel) -> bool {
    m == QuectelModel::Bc260Y || m == QuectelModel::Bc28F || m == QuectelModel::Bc95
}

/// GPRS models.
pub open spec fn is_gprs(m: QuectelModel) -> bool {
    m == QuectelModel::M26 || m == QuectelModel::M35 || m == QuectelModel::Mc60 || m == QuectelModel::M66
}

impl QuectelModel {
    /// Capability set of the model.
    pub fn capabilities(&self) -> (r: QuectelCapabilities)
        ensures
            r == capabilities_of(*self),
    {
        match self {
            QuectelModel::Ec20 | QuectelModel::Ec25 | QuectelModel::Ec200T | QuectelModel::Ec200S
            | QuectelModel::Ag35 | QuectelModel::Ag52 => QuectelCapabilities {
                cellular_type: CellularType::LteCat4,
                socket: true,
                mqtt: true,
                mqtt_ssl: true,
                coap: false,
                ftp: true,
                http: true,
                ssl: true,
                sms: true,
                voice: true,
                gnss: matches!(self, QuectelModel::Ec25 | QuectelModel::Ag52),
                max_baud: 460800,
            },
            QuectelModel::Ec800N | QuectelModel::Ec800G | QuectelModel::Ec200U | QuectelModel::Ec800E
            | QuectelModel::Ag215 => QuectelCapabilities {
                cellular_type: CellularType::LteCat1,
                socket: true,
                mqtt: true,
                mqtt_ssl: true,
                coap: false,
                ftp: true,
                http: true,
                ssl: true,
                sms: true,
                voice: matches!(self, QuectelModel::Ec800N | QuectelModel::Ec800G),
                gnss: matches!(self, QuectelModel::Ec800G),
                max_baud: 460800,
            },
            QuectelModel::Bc260Y | QuectelModel::Bc28F | QuectelModel::Bc95 => QuectelCapabilities {
                cellular_type: CellularType::NbIoT,
                socket: true,
                mqtt: true,
                mqtt_ssl: true,
                coap: true,
                ftp: false,
                http: true,
                ssl: true,
                sms: false,
                voice: false,
                gnss: false,
                max_baud: 460800,
            },
            QuectelModel::M26 | QuectelModel::M35 | QuectelModel::Mc60 | QuectelModel::M66 => QuectelCapabilities {
                cellular_type: CellularType::Gprs,
                socket: true,
                mqtt: false,
                mqtt_ssl: false,
                coap: false,
                ftp: true,
                http: false,
                ssl: false,
                sms: true,
                voice: true,
                gnss: matches!(self, QuectelModel::Mc60),
                max_baud: 115200,
            },
            _ => QuectelCapabilities {
                cellular_type: CellularType::Unknown,
                socket: false,
                mqtt: false,
                mqtt_ssl: false,
                coap: false,
                ftp: false,
                http: false,
                ssl: false,
                sms: false,
                voice: false,
                gnss: false,
                max_baud: 115200,
            },
        }
    }

    /// Power-key low time to switch on (ms): 1000 for GPRS models, 500
    /// otherwise.
    pub fn pwrkey_on_ms(&self) -> (r: u32)
        ensures
            r == (if is_gprs(*self) { 1000u32 } else { 500u32 }),
    {
        match self {
            QuectelModel::Bc260Y | QuectelModel::Bc28F | QuectelModel::Bc95 => 500,
            QuectelModel::M26 | QuectelModel::M35 | QuectelModel::Mc60 | QuectelModel::M66 => 1000,
            _ => 500,
        }
    }

    /// Power-key low time to switch off (ms): 1500 for GPRS models, 650
    /// otherwise.
    pub fn pwrkey_off_ms(&self) -> (r: u32)
        ensures
            r == (if is_gprs(*self) { 1500u32 } else { 650u32 }),
    {
        match self {
            QuectelModel::Bc260Y | QuectelModel::Bc28F | QuectelModel::Bc95 => 650,
            QuectelModel::M26 | QuectelModel::M35 | QuectelModel::Mc60 | QuectelModel::M66 => 1500,
            _ => 650,
        }
    }

    /// Longest wait for the ready message after power-on (ms): 15000 for
    /// NB-IoT models, 10000 otherwise.
    pub fn boot_ready_timeout_ms(&self) -> (r: u32)
        ensures
            r == (if is_nb_iot(*self) { 15000u32 } else { 10000u32 }),
    {
        match self {
            QuectelModel::Bc260Y | QuectelModel::Bc28F | QuectelModel::Bc95 => 15000,
            _ => 10000,
        }
    }

    /// Model named by an identification answer (AT+GMR or AT+CGMM),
    /// compared in ASCII upper case.
    pub fn from_ident_response(resp: &str) -> (r: Self)
        ensures
            r == model_of(upper_bytes(resp.spec_bytes())),
    {
        Self::from_ident_bytes(resp.as_bytes())
    }

    /// Model named by the bytes of an identification answer, compared in
    /// ASCII upper case.
    pub fn from_ident_bytes(s: &[u8]) -> (r: Self)
        ensures
            r == model_of(upper_bytes(s@)),
    {
        if contains_upper(s, &[69u8, 67u8, 50u8, 48u8, 48u8, 84u8]) { QuectelModel::Ec200T } // "EC200T"
        else if contains_upper(s, &[69u8, 67u8, 50u8, 48u8, 48u8, 83u8]) { QuectelModel::Ec200S } // "EC200S"
        else if contains_upper(s, &[69u8, 67u8, 50u8, 48u8, 48u8, 85u8]) { QuectelModel::Ec200U } // "EC200U"
        else if contains_upper(s, &[69u8, 67u8, 50u8, 48u8]) { QuectelModel::Ec20 } // "EC20"
        else if contains_upper(s, &[69u8, 67u8, 50u8, 53u8]) { QuectelModel::Ec25 } // "EC25"
        else if contains_upper(s, &[69u8, 67u8, 56u8, 48u8, 48u8, 78u8]) { QuectelModel::Ec800N } // "EC800N"
        else if contains_upper(s, &[69u8, 67u8, 56u8, 48u8, 48u8, 71u8]) { QuectelModel::Ec800G } // "EC800G"
        else if contains_upper(s, &[69u8, 67u8, 56u8, 48u8, 48u8, 69u8]) { QuectelModel::Ec800E } // "EC800E"
        else if contains_upper(s, &[66u8, 67u8, 50u8, 54u8, 48u8]) { QuectelModel::Bc260Y } // "BC260"
        else if contains_upper(s, &[66u8, 67u8, 50u8, 56u8]) { QuectelModel::Bc28F } // "BC28"
        else if contains_upper(s, &[66u8, 67u8, 57u8, 53u8]) { QuectelModel::Bc95 } // "BC95"
        else if contains_upper(s, &[77u8, 50u8, 54u8]) { QuectelModel::M26 } // "M26"
        else if contains_upper(s, &[77u8, 51u8, 53u8]) { QuectelModel::M35 } // "M35"
        else if contains_upper(s, &[77u8, 67u8, 54u8, 48u8]) { QuectelModel::Mc60 } // "MC60"
        else if contains_upper(s, &[77u8, 54u8, 54u8]) { QuectelModel::M66 } // "M66"
        else if contains_upper(s, &[65u8, 71u8, 51u8, 53u8]) { QuectelModel::Ag35 } // "AG35"
        else if contains_upper(s, &[65u8, 71u8, 50u8, 49u8, 53u8]) { QuectelModel::Ag215 } // "AG215"
        else if contains_upper(s, &[65u8, 71u8, 53u8, 50u8]) { QuectelModel::Ag52 } // "AG52"
        else { QuectelModel::Unknown }
    }
}


/* ---------------- driver decisions ---------------- */

/// The byte views of a list of lines.
pub open spec fn line_views(lines: Seq<Vec<u8>>) -> Seq<Seq<u8>> {
    lines.map_values(|l: Vec<u8>| l@)
}

/// The model named by the first line of an identification reply that
/// names one (`Unknown` when none does).
pub open spec fn first_model(lines: Seq<Seq<u8>>) -> QuectelModel
    decreases lines.len(),
{
    if lines.len() == 0 {
        QuectelModel::Unknown
    } else {
        let m = model_of(upper_bytes(lines[0]));
        if m != QuectelModel::Unknown { m } else { first_model(lines.drop_first()) }
    }
}

/// Outcome of the lines of a `AT+CPIN?` reply, scanned in order: a line
/// holding "READY" ends the scan with success, one holding "SIM" with a
/// SIM error; no such line is success.
pub open spec fn sim_lines_result(lines: Seq<Seq<u8>>) -> Result<(), AtError>
    decreases lines.len(),
{
    if lines.len() == 0 {
        Ok(())
    } else if contains_bytes(lines[0], seq![82u8, 69u8, 65u8, 68u8, 89u8]) {
        Ok(())
    } else if contains_bytes(lines[0], seq![83u8, 73u8, 77u8]) {
        Err(AtError::SimError)
    } else {
        sim_lines_result(lines.drop_first())
    }
}

/// The kind of reply an AT command got.
#[derive(Debug, Clone, Copy, PartialEq, Eq)]
pub enum ReplyKind {
    /// OK with no information lines
    OkOnly,
    /// OK with information lines
    OkWithLines,
    /// ERROR
    Error,
    /// Nothing in time
    NoResponse,
}

/// Outcome of the SIM check for a reply of `kind` with `lines`.
pub open spec fn sim_check_spec(kind: ReplyKind, lines: Seq<Seq<u8>>) -> Result<(), AtError> {
    match kind {
        ReplyKind::OkWithLines => sim_lines_result(lines),
        ReplyKind::Error => Err(AtError::SimError),
        _ => Err(AtError::Timeout),
    }
}

/// A feature an operation of the module needs.
#[derive(Debug, Clone, Copy, PartialEq, Eq)]
pub enum Feature {
    Socket,
    Mqtt,
    Coap,
    Http,
    Ftp,
    Sms,
    Gnss,
    Ssl,
    /// PSM/eDRX power saving (NB-IoT only)
    Psm,
}

/// Whether capabilities `c` provide `f`.
pub open spec fn feature_supported(c: QuectelCapabilities, f: Feature) -> bool {
    match f {
        Feature::Socket => c.socket,
        Feature::Mqtt => c.mqtt,
        Feature::Coap => c.coap,
        Feature::Http => c.http,
        Feature::Ftp => c.ftp,
        Feature::Sms => c.sms,
        Feature::Gnss => c.gnss,
        Feature::Ssl => c.ssl,
        Feature::Psm => c.cellular_type == CellularType::NbIoT,
    }
}

/// Index of the first `b` in `s` at or after `i`, or `s.len()` when none.
pub open spec fn index_of_byte(s: Seq<u8>, b: u8, i: int) -> int
    decreases s.len() - i,
{
    if i >= s.len() || i < 0 {
        s.len() as int
    } else if s[i] == b {
        i
    } else {
        index_of_byte(s, b, i + 1)
    }
}

/// The ICCID of a `+QCCID: <iccid>` line: what follows the first ':',
/// trimmed; `None` without a ':'.
pub open spec fn iccid_spec(line: Seq<u8>) -> Option<Seq<u8>> {
    let k = index_of_byte(line, 58u8, 0);
    if k >= line.len() { None } else { Some(trim_spec(line.subrange(k + 1, line.len() as int))) }
}

/// Decision state of a Quectel module driver: the model and its
/// capabilities, the PDP context and MQTT client used, and whether the
/// network is attached.
pub struct QuectelControl {
    pub model: QuectelModel,
    pub caps: QuectelCapabilities,
    /// PDP context id
    pub pdp_ctx: u8,
    /// MQTT client index
    pub mqtt_client: u8,
    /// Network attached
    pub attached: bool,
    /// The model was identified from the module's answer
    pub auto_detected: bool,
}

impl QuectelControl {
    /// Driver state for a known model.
    pub fn new_known(model: QuectelModel) -> (r: Self)
        ensures
            r.model == model,
            r.caps == capabilities_of(model),
            r.pdp_ctx == 1,
            r.mqtt_client == 0,
            !r.attached,
            !r.auto_detected,
    {
        QuectelControl { model, caps: model.capabilities(), pdp_ctx: 1, mqtt_client: 0, attached: false, auto_detected: false }
    }

    /// Driver state whose model is identified after power-on.
    pub fn new_auto_detect() -> (r: Self)
        ensures
            r.model == QuectelModel::Unknown,
            r.caps == capabilities_of(QuectelModel::Unknown),
            r.pdp_ctx == 1,
            r.mqtt_client == 0,
            !r.attached,
            !r.auto_detected,
    {
        Self::new_known(QuectelModel::Unknown)
    }

    /// Whether the model still has to be identified.
    pub fn needs_detection(&self) -> (r: bool)
        ensures
            r == (self.model == QuectelModel::Unknown),
    {
        match self.model {
            QuectelModel::Unknown => true,
            _ => false,
        }
    }

    /// Take the model named by the first line of an `AT+CGMM` reply that
    /// names one; with none the state is unchanged and `Unknown` returned.
    pub fn detect_from_lines(&mut self, lines: &[Vec<u8>]) -> (r: QuectelModel)
        ensures
            r == first_model(line_views(lines@)),
            r != QuectelModel::Unknown ==> *final(self) == (QuectelControl {
                model: r,
                caps: capabilities_of(r),
                auto_detected: true,
                ..*old(self)
            }),
            r == QuectelModel::Unknown ==> *final(self) == *old(self),
    {
        let ghost vs = line_views(lines@);
        let mut i: usize = 0;
        proof {
            assert(vs.subrange(0, vs.len() as int) =~= vs);
        }
        while i < lines.len()
            invariant
                vs == line_views(lines@),
                i <= lines@.len(),
                first_model(vs) == first_model(vs.subrange(i as int, vs.len() as int)),
                *self == *old(self),
            decreases lines@.len() - i,
        {
            let m = QuectelModel::from_ident_bytes(lines[i].as_slice());
            let ghost rest = vs.subrange(i as int, vs.len() as int);
            proof {
                assert(rest[0] == lines@[i as int]@);
                assert(rest.drop_first() =~= vs.subrange(i + 1, vs.len() as int));
            }
            match m {
                QuectelModel::Unknown => {},
                _ => {
                    self.model = m;
                    self.caps = m.capabilities();
                    self.auto_detected = true;
                    return m;
                },
            }
            i = i + 1;
        }
        proof {
            assert(vs.subrange(i as int, vs.len() as int) =~= Seq::<Seq<u8>>::empty());
        }
        QuectelModel::Unknown
    }

    /// Outcome of the SIM check (`AT+CPIN?`) for a reply of `kind` with
    /// `lines`: scanned for "READY" or "SIM" when OK came with lines, a
    /// SIM error on ERROR, a timeout otherwise.
    pub fn sim_check(kind: ReplyKind, lines: &[Vec<u8>]) -> (r: Result<(), AtError>)
        ensures
            r == sim_check_spec(kind, line_views(lines@)),
    {
        match kind {
            ReplyKind::OkWithLines => {},
            ReplyKind::Error => {
                return Err(AtError::SimError);
            },
            _ => {
                return Err(AtError::Timeout);
            },
        }
        let ghost vs = line_views(lines@);
        let mut i: usize = 0;
        proof {
            assert(vs.subrange(0, vs.len() as int) =~= vs);
        }
        while i < lines.len()
            invariant
                vs == line_views(lines@),
                i <= lines@.len(),
                sim_lines_result(vs) == sim_lines_result(vs.subrange(i as int, vs.len() as int)),
                kind == ReplyKind::OkWithLines,
            decreases lines@.len() - i,
        {
            let ghost rest = vs.subrange(i as int, vs.len() as int);
            proof {
                assert(rest[0] == lines@[i as int]@);
                assert(rest.drop_first() =~= vs.subrange(i + 1, vs.len() as int));
            }
            let ready: [u8; 5] = [82u8, 69u8, 65u8, 68u8, 89u8];
            let sim: [u8; 3] = [83u8, 73u8, 77u8];
            proof {
                assert(ready@ =~= seq![82u8, 69u8, 65u8, 68u8, 89u8]);
                assert(sim@ =~= seq![83u8, 73u8, 77u8]);
            }
            if contains_exact(lines[i].as_slice(), &ready) {
                return Ok(());
            }
            if contains_exact(lines[i].as_slice(), &sim) {
                return Err(AtError::SimError);
            }
            i = i + 1;
        }
        proof {
            assert(vs.subrange(i as int, vs.len() as int) =~= Seq::<Seq<u8>>::empty());
        }
        Ok(())
    }

    /// Band selection command for the radio technology: bands 8 on NB-IoT,
    /// 3 and 8 on LTE, none on GPRS or an unknown module.
    pub fn band_command(&self) -> (r: Option<&'static str>)
        ensures
            self.caps.cellular_type == CellularType::NbIoT ==> (r matches Some(c) && c@ == "AT+QBAND=1,8"@),
            (self.caps.cellular_type == CellularType::LteCat1 || self.caps.cellular_type == CellularType::LteCat4)
                ==> (r matches Some(c) && c@ == "AT+QBAND=1,B3,B8"@),
            (self.caps.cellular_type == CellularType::Gprs || self.caps.cellular_type == CellularType::Unknown)
                ==> r is None,
    {
        match self.caps.cellular_type {
            CellularType::NbIoT => Some("AT+QBAND=1,8"),
            CellularType::LteCat1 | CellularType::LteCat4 => Some("AT+QBAND=1,B3,B8"),
            _ => None,
        }
    }

    /// Whether the EPS registration is queried too (NB-IoT).
    pub fn checks_eps_registration(&self) -> (r: bool)
        ensures
            r == (self.caps.cellular_type == CellularType::NbIoT),
    {
        match self.caps.cellular_type {
            CellularType::NbIoT => true,
            _ => false,
        }
    }

    /// Command and timeout (ms) that put the module to sleep: functionality
    /// off on GPRS, slow clock otherwise.
    pub fn sleep_command(&self) -> (r: (&'static str, u32))
        ensures
            self.caps.cellular_type == CellularType::Gprs ==> r.0@ == "AT+CFUN=0"@ && r.1 == 5000,
            self.caps.cellular_type != CellularType::Gprs ==> r.0@ == "AT+QSCLK=0"@ && r.1 == 3000,
    {
        match self.caps.cellular_type {
            CellularType::Gprs => ("AT+CFUN=0", 5000),
            _ => ("AT+QSCLK=0", 3000),
        }
    }

    /// `Ok` when the module provides `f`, else `NotSupported`.
    pub fn require(&self, f: Feature) -> (r: Result<(), AtError>)
        ensures
            feature_supported(self.caps, f) ==> r == Ok::<(), AtError>(()),
            !feature_supported(self.caps, f) ==> r == Err::<(), AtError>(AtError::NotSupported),
    {
        let ok = match f {
            Feature::Socket => self.caps.socket,
            Feature::Mqtt => self.caps.mqtt,
            Feature::Coap => self.caps.coap,
            Feature::Http => self.caps.http,
            Feature::Ftp => self.caps.ftp,
            Feature::Sms => self.caps.sms,
            Feature::Gnss => self.caps.gnss,
            Feature::Ssl => self.caps.ssl,
            Feature::Psm => match self.caps.cellular_type {
                CellularType::NbIoT => true,
                _ => false,
            },
        };
        if ok { Ok(()) } else { Err(AtError::NotSupported) }
    }

    /// Configuration commands before opening an MQTT connection to `port`:
    /// MQTT 3.1.1, then SSL when the module has it and the port is 8883.
    pub fn mqtt_setup_commands(&self, port: u16) -> (r: Result<Vec<&'static str>, AtError>)
        ensures
            !self.caps.mqtt ==> r == Err::<Vec<&'static str>, AtError>(AtError::NotSupported),
            self.caps.mqtt ==> (r matches Ok(v) && {
                let ssl = self.caps.mqtt_ssl && port == 8883;
                &&& v@.len() == (if ssl { 2int } else { 1int })
                &&& v@[0]@ == "AT+QMTCFG=\"version\",0,4"@
                &&& ssl ==> v@[1]@ == "AT+QMTCFG=\"ssl\",0,1,2"@
            }),
    {
        if !self.caps.mqtt {
            return Err(AtError::NotSupported);
        }
        let mut v: Vec<&'static str> = Vec::new();
        v.push("AT+QMTCFG=\"version\",0,4");
        if self.caps.mqtt_ssl && port == 8883 {
            v.push("AT+QMTCFG=\"ssl\",0,1,2");
        }
        Ok(v)
    }

    /// Record that the network is attached.
    pub fn set_attached(&mut self)
        ensures
            *final(self) == (QuectelControl { attached: true, ..*old(self) }),
    {
        self.attached = true;
    }
}

/// The ICCID in a `+QCCID:` answer line (see `iccid_spec`).
pub fn iccid_of(line: &[u8]) -> (r: Option<Vec<u8>>)
    ensures
        match iccid_spec(line@) {
            None => r is None,
            Some(v) => r matches Some(x) && x@ == v,
        },
{
    let n = line.len();
    let mut k: usize = 0;
    while k < n && line[k] != 58u8
        invariant
            k <= n,
            n == line@.len(),
            index_of_byte(line@, 58u8, 0) == index_of_byte(line@, 58u8, k as int),
        decreases n - k,
    {
        k = k + 1;
    }
    if k >= n {
        return None;
    }
    let rest = vstd::slice::slice_subrange(line, k + 1, n);
    Some(trim_bytes(rest))
}

} // verus!
