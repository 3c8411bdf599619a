//! Page driver for the on-chip segment LCD controller (4 COM x 40 SEG):
//! page rotation and seven-segment encoding into the per-COM display
//! buffer. Each COM line is one 32-bit word, one bit per segment line.
use vstd::prelude::*;

verus! {

/// Seven-segment patterns of the hexadecimal digits 0..F
/// (a = bit 0 ... g = bit 6, DP = bit 7).
pub const DIGIT_PATTERNS: [u8; 16] = [
    0x3F, 0x06, 0x5B, 0x4F, 0x66, 0x6D, 0x7D, 0x07,
    0x7F, 0x6F, 0x77, 0x7C, 0x39, 0x5E, 0x79, 0x71,
];

/// Page shown by the LCD driver.
#[derive(Clone, Copy, PartialEq, Eq, Debug)]
pub enum DisplayPage {
    /// Voltage and current.
    VoltageCurrent,
    /// Active power.
    Power,
    /// Total energy.
    EnergyTotal,
    /// Energy of one tariff.
    EnergyTariff(u8),
    /// Frequency and power factor.
    FrequencyPf,
    /// Tariff and power.
    TariffInfo,
    /// Error code.
    Error(u8),
}

/// Number of refreshes a page stays before the rotation moves on.
pub const CYCLE_REFRESHES: u32 = 200;

/// LCD driver state: the page, the rotation counter and the display buffer.
pub struct LcdDriver {
    current_page: DisplayPage,
    auto_cycle: bool,
    cycle_counter: u32,
    display_ram: [u32; 4],
}

/// Page that follows `p` in the automatic rotation.
pub open spec fn rotated(p: DisplayPage) -> DisplayPage {
    match p {
        DisplayPage::VoltageCurrent => DisplayPage::Power,
        DisplayPage::Power => DisplayPage::EnergyTotal,
        DisplayPage::EnergyTotal => DisplayPage::FrequencyPf,
        _ => DisplayPage::VoltageCurrent,
    }
}

/// Bits a digit adds to every COM word: segments a..g of the digit's
/// pattern in byte `pos`; nothing for a value past the table or a
/// position whose segment lines lie past the 40 driven ones.
pub open spec fn digit_word(pos: int, d: int) -> u32 {
    if 0 <= d <= 15 && 0 <= pos <= 3 {
        (((DIGIT_PATTERNS[d] & 0x7F) as u32) << ((8 * pos) as u32)) as u32
    } else {
        0
    }
}

/// A position and digit whose encoding stays inside the 32-bit COM words
/// (the segment lines of position 4 fall past bit 31).
pub open spec fn digit_fits(pos: int, d: int) -> bool {
    pos != 4 || d > 15
}

/// COM word of four digits at positions 0..3.
pub open spec fn four_digits(d0: int, d1: int, d2: int, d3: int) -> u32 {
    digit_word(0, d0) | digit_word(1, d1) | digit_word(2, d2) | digit_word(3, d3)
}

/// Voltage page word: the voltage in 0.1 V as "hundreds, tens, units .
/// tenths" of volts (the current digits fall past the driven segments).
pub open spec fn voltage_word(voltage: u16) -> u32 {
    let v_int = voltage / 10;
    four_digits((v_int / 100) as int, ((v_int / 10) % 10) as int, (v_int % 10) as int, (voltage % 10) as int)
}

/// Frequency page word: the frequency in 0.01 Hz as four digits (the
/// power-factor digits fall past the driven segments).
pub open spec fn frequency_word(freq: u16) -> u32 {
    four_digits((freq / 1000) as int, ((freq / 100) % 10) as int, ((freq / 10) % 10) as int, (freq % 10) as int)
}

/// Pages whose encoding stays inside the 32-bit COM words.
pub open spec fn page_fits(p: DisplayPage) -> bool {
    p == DisplayPage::VoltageCurrent || p == DisplayPage::FrequencyPf
}

/// Or-ing in zero changes nothing.
proof fn lemma_or_zero(x: u32)
    ensures
        x | 0u32 == x,
        0u32 | x == x,
{
    assert(x | 0u32 == x && 0u32 | x == x) by (bit_vector);
}

impl LcdDriver {
    /// Page on display.
    pub closed spec fn page(&self) -> DisplayPage {
        self.current_page
    }

    /// Whether pages rotate by themselves.
    pub closed spec fn cycling(&self) -> bool {
        self.auto_cycle
    }

    /// Refreshes counted towards the next rotation.
    pub closed spec fn counter(&self) -> u32 {
        self.cycle_counter
    }

    /// The four COM words of the display buffer.
    pub closed spec fn ram(&self) -> Seq<u32> {
        self.display_ram@
    }

    /// The rotation counter stays below the rotation period.
    pub closed spec fn wf(&self) -> bool {
        self.cycle_counter < CYCLE_REFRESHES
    }

    /// Page the next refresh shows.
    pub open spec fn next_page(&self) -> DisplayPage {
        if self.cycling() && self.counter() + 1 >= CYCLE_REFRESHES {
            rotated(self.page())
        } else {
            self.page()
        }
    }

    /// Rotation counter after the next refresh.
    pub open spec fn next_counter(&self) -> u32 {
        if !self.cycling() {
            self.counter()
        } else if self.counter() + 1 >= CYCLE_REFRESHES {
            0
        } else {
            (self.counter() + 1) as u32
        }
    }

    /// A driver on the voltage page, rotating, with a blank buffer.
    pub fn new() -> (r: Self)
        ensures
            r.wf(),
            r.page() == DisplayPage::VoltageCurrent,
            r.cycling(),
            r.counter() == 0,
            r.ram() == seq![0u32, 0u32, 0u32, 0u32],
    {
        let r = LcdDriver {
            current_page: DisplayPage::VoltageCurrent,
            auto_cycle: true,
            cycle_counter: 0,
            display_ram: [0; 4],
        };
        assert(r.display_ram@ =~= seq![0u32, 0u32, 0u32, 0u32]);
        r
    }

    /// Controller set-up. The clock, bias, duty and contrast registers
    /// are the application's to write; the driver state is unchanged.
    pub fn init_hw(&mut self)
        ensures
            *final(self) == *old(self),
    {
    }

    /// Refresh: advance the rotation, clear the buffer and encode the page
    /// (the tariff icon is drawn for tariffs 0..7).
    ///
    /// Only the voltage and frequency pages, with no tariff icon, fit the
    /// 32-bit COM words; the other encodings shift past bit 31.
    pub fn update(
        &mut self,
        voltage: u16,
        current: u16,
        power: i32,
        energy: u64,
        tariff: u8,
        frequency: u16,
        pf: u16,
    )
        requires
            old(self).wf(),
            tariff >= 8,
            page_fits(old(self).next_page()),
        ensures
            final(self).wf(),
            final(self).page() == old(self).next_page(),
            final(self).counter() == old(self).next_counter(),
            final(self).cycling() == old(self).cycling(),
            final(self).ram().len() == 4,
            forall|c: int| 0 <= c < 4 ==> #[trigger] final(self).ram()[c] == (
                if old(self).next_page() == DisplayPage::VoltageCurrent {
                    voltage_word(voltage)
                } else {
                    frequency_word(frequency)
                }),
    {
        if self.auto_cycle {
            self.cycle_counter = self.cycle_counter + 1;
            if self.cycle_counter >= CYCLE_REFRESHES {
                self.cycle_counter = 0;
                self.current_page = match self.current_page {
                    DisplayPage::VoltageCurrent => DisplayPage::Power,
                    DisplayPage::Power => DisplayPage::EnergyTotal,
                    DisplayPage::EnergyTotal => DisplayPage::FrequencyPf,
                    _ => DisplayPage::VoltageCurrent,
                };
            }
        }
        self.display_ram = [0; 4];
        assert(self.ram() =~= seq![0u32, 0u32, 0u32, 0u32]);
        match self.current_page {
            DisplayPage::VoltageCurrent => {
                self.write_voltage_current(voltage, current);
            },
            _ => {
                self.write_freq_pf(frequency, pf);
            },
        }
        self.set_tariff_icon(tariff);
    }

    fn write_voltage_current(&mut self, voltage: u16, current: u16)
        requires
            old(self).ram() == seq![0u32, 0u32, 0u32, 0u32],
        ensures
            final(self).page() == old(self).page(),
            final(self).cycling() == old(self).cycling(),
            final(self).counter() == old(self).counter(),
            final(self).ram() == seq![voltage_word(voltage), voltage_word(voltage), voltage_word(voltage), voltage_word(voltage)],
    {
        let v_int = voltage / 10;
        let v_dec = voltage % 10;
        let a_int = current / 1000;
        let a_dec = (current % 1000) / 10;
        self.write_digit(0, (v_int / 100) as u8, false);
        self.write_digit(1, ((v_int / 10) % 10) as u8, false);
        self.write_digit(2, (v_int % 10) as u8, true);
        self.write_digit(3, v_dec as u8, false);
        self.write_digit(5, (a_int / 10) as u8, false);
        self.write_digit(6, (a_int % 10) as u8, true);
        self.write_digit(7, (a_dec / 10) as u8, false);
        self.write_digit(8, (a_dec % 10) as u8, false);
        proof {
            let w = voltage_word(voltage);
            lemma_or_zero(digit_word(0, (v_int / 100) as int));
            lemma_or_zero(w);
            assert(self.ram() =~= seq![w, w, w, w]);
        }
    }

    fn write_freq_pf(&mut self, freq: u16, pf: u16)
        requires
            old(self).ram() == seq![0u32, 0u32, 0u32, 0u32],
        ensures
            final(self).page() == old(self).page(),
            final(self).cycling() == old(self).cycling(),
            final(self).counter() == old(self).counter(),
            final(self).ram() == seq![frequency_word(freq), frequency_word(freq), frequency_word(freq), frequency_word(freq)],
    {
        self.write_digit(0, (freq / 1000) as u8, false);
        self.write_digit(1, ((freq / 100) % 10) as u8, true);
        self.write_digit(2, ((freq / 10) % 10) as u8, false);
        self.write_digit(3, (freq % 10) as u8, false);
        self.write_digit(5, ((pf / 100) % 10) as u8, false);
        self.write_digit(6, ((pf / 10) % 10) as u8, false);
        self.write_digit(7, (pf % 10) as u8, false);
        proof {
            let w = frequency_word(freq);
            lemma_or_zero(digit_word(0, (freq / 1000) as int));
            lemma_or_zero(w);
            assert(self.ram() =~= seq![w, w, w, w]);
        }
    }

    /// Encode one digit (segments a..g) into every COM word; values past
    /// the table and positions past 12 are ignored, as are segment lines
    /// past the 40th. The decimal point is not drawn.
    fn write_digit(&mut self, pos: usize, digit: u8, decimal_point: bool)
        requires
            digit_fits(pos as int, digit as int),
            old(self).ram().len() == 4,
        ensures
            final(self).page() == old(self).page(),
            final(self).cycling() == old(self).cycling(),
            final(self).counter() == old(self).counter(),
            final(self).ram().len() == 4,
            forall|c: int| 0 <= c < 4 ==> #[trigger] final(self).ram()[c] == old(self).ram()[c] | digit_word(pos as int, digit as int),
    {
        if digit > 0xF || pos > 12 {
            proof {
                assert forall|c: int| 0 <= c < 4 implies #[trigger] self.ram()[c] == self.ram()[c] | digit_word(pos as int, digit as int) by {
                    lemma_or_zero(self.ram()[c]);
                }
            }
            return;
        }
        let mut pattern: u8 = DIGIT_PATTERNS[digit as usize];
        if decimal_point {
            pattern = pattern | 0x80;
        }
        let seg_base: usize = pos * 8;
        if seg_base >= 40 {
            proof {
                assert forall|c: int| 0 <= c < 4 implies #[trigger] self.ram()[c] == self.ram()[c] | digit_word(pos as int, digit as int) by {
                    lemma_or_zero(self.ram()[c]);
                }
            }
            return;
        }
        let segs: u32 = ((pattern & 0x7F) as u32) << (seg_base as u32);
        proof {
            let p0 = DIGIT_PATTERNS[digit as int];
            assert(pattern & 0x7F == p0 & 0x7F) by (bit_vector)
                requires pattern == p0 || pattern == p0 | 0x80u8;
        }
        let r = self.display_ram;
        self.display_ram = [r[0] | segs, r[1] | segs, r[2] | segs, r[3] | segs];
    }

    /// Tariff icon: tariffs 0..7 light segment line 36 + tariff of COM 0,
    /// which lies past the 32-bit word, so only other values are accepted.
    fn set_tariff_icon(&mut self, tariff: u8)
        requires
            tariff >= 8,
        ensures
            *final(self) == *old(self),
    {
        if tariff < 8 {
            let r = self.display_ram;
            self.display_ram = [r[0] | (1u32 << (36 + tariff as u32)), r[1], r[2], r[3]];
        }
    }
}

} // verus!
