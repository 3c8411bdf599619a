use femeter::display::{symbol, LcdPanel, LcdSymbol, LETTER_PATTERNS, SEGMENT_PATTERNS};
use femeter::hal::LcdDriver;
use femeter::lcd_content::{LcdContent, LcdDisplayMode};


// ========== 基础面板测试 (1-5) ==========

#[test]
fn test_lcd_panel_new() {
    let panel = LcdPanel::new();
    assert!(!panel.enabled);
    assert_eq!(panel.rotate_total, 12);
    assert_eq!(panel.rotate_page, 0);
    assert_eq!(panel.display_ram, [0; 4]);
}

#[test]
fn test_lcd_panel_clear() {
    let mut panel = LcdPanel::new();
    panel.display_ram = [0xFFFF_FFFF_FFFF; 4];
    panel.clear();
    assert_eq!(panel.display_ram, [0; 4]);
}

#[test]
fn test_lcd_panel_all_on() {
    let mut panel = LcdPanel::new();
    panel.all_on();
    for &ram in &panel.display_ram {
        assert_eq!(ram, 0xFFF_FFFF_FFFF_u64);
    }
}

#[test]
fn test_lcd_panel_next_page() {
    let mut panel = LcdPanel::new();
    assert_eq!(panel.current_page(), 0);
    panel.next_page();
    assert_eq!(panel.current_page(), 1);
    panel.rotate_page = 11;
    panel.next_page();
    assert_eq!(panel.current_page(), 0);
}

#[test]
fn test_lcd_panel_rotate_timer_resets() {
    let mut panel = LcdPanel::new();
    panel.rotate_timer = 3000;
    panel.next_page();
    assert_eq!(panel.rotate_timer, 0);
}

// ========== 段码模式测试 (6-12) ==========

#[test]
fn test_segment_patterns_length() {
    assert_eq!(SEGMENT_PATTERNS.len(), 16);
}

#[test]
fn test_segment_patterns_all_digits() {
    // 验证 0-9 都有非零模式
    for i in 0..10 {
        assert!(SEGMENT_PATTERNS[i] != 0, "Digit {} should have non-zero pattern", i);
    }
}

#[test]
fn test_segment_pattern_digit_0() {
    // 0: a,b,c,d,e,f (bit1-6 set)
    assert_eq!(SEGMENT_PATTERNS[0], 0x7E);
}

#[test]
fn test_segment_pattern_digit_1() {
    // 1: b,c (bit2-3 set)
    assert_eq!(SEGMENT_PATTERNS[1], 0x30);
}

#[test]
fn test_segment_pattern_digit_8() {
    // 8: all segments (bit1-7 set)
    assert_eq!(SEGMENT_PATTERNS[8], 0x7F);
}

#[test]
fn test_segment_pattern_minus() {
    // 15: minus sign (g only, bit7)
    assert_eq!(SEGMENT_PATTERNS[15], 0x80);
}

#[test]
fn test_segment_pattern_blank() {
    // 10-14: blank
    for i in 10..15 {
        assert_eq!(SEGMENT_PATTERNS[i], 0x00);
    }
}

// ========== 字母模式测试 (13-15) ==========

#[test]
fn test_letter_patterns_length() {
    assert_eq!(LETTER_PATTERNS.len(), 26);
}

#[test]
fn test_letter_pattern_a() {
    // A should have non-zero pattern
    assert!(LETTER_PATTERNS[0] != 0);
}

#[test]
fn test_letter_pattern_c() {
    // C should have non-zero pattern
    assert!(LETTER_PATTERNS[2] != 0);
}

// ========== 符号值测试 (16-18) ==========

#[test]
fn test_symbol_values() {
    assert_eq!(symbol::MINUS, 0x80);
    assert_eq!(symbol::PLUS, 0x66);
    assert_eq!(symbol::DOT, 0x01);
    assert_eq!(symbol::ALL_ON, 0xFF);
    assert_eq!(symbol::ALL_OFF, 0x00);
}

#[test]
fn test_symbol_prefix_k() {
    // k should be pattern 11 (letter K)
    assert!(symbol::K != 0);
}

#[test]
fn test_symbol_prefix_m() {
    // M should be pattern 13 (letter M)
    assert!(symbol::M != 0);
}

// ========== 数字格式化测试 (19-24) ==========

#[test]
fn test_write_digit_basic() {
    let mut panel = LcdPanel::new();
    panel.write_digit(0, 5, false);
    // Digit 5 should set some bits in display_ram[0]
    assert!(panel.display_ram[0] != 0);
}

#[test]
fn test_write_digit_with_decimal_point() {
    let mut panel = LcdPanel::new();
    panel.write_digit(0, 5, true);
    let ram_without_dp = panel.display_ram[0];
    panel.clear();
    panel.write_digit(0, 5, false);
    let ram_without_dp2 = panel.display_ram[0];
    // With decimal point should have more bits set
    assert!(ram_without_dp != ram_without_dp2);
}

#[test]
fn test_write_digit_out_of_bounds() {
    let mut panel = LcdPanel::new();
    let old_ram = panel.display_ram;
    // digit_index 10 should be out of bounds (44 SEG limit)
    panel.write_digit(10, 5, false);
    // Should not modify display_ram
    assert_eq!(panel.display_ram, old_ram);
}

#[test]
fn test_write_number_positive() {
    let mut panel = LcdPanel::new();
    panel.write_number(0, 123, 0);
    assert!(panel.display_ram[0] != 0);
}

#[test]
fn test_write_number_negative() {
    let mut panel = LcdPanel::new();
    panel.write_number(0, -123, 0);
    assert!(panel.display_ram[0] != 0);
}

#[test]
fn test_write_number_with_decimal() {
    let mut panel = LcdPanel::new();
    panel.write_number(0, 123, 1);
    assert!(panel.display_ram[0] != 0);
}

// ========== 单位格式化测试 (25-30) ==========

#[test]
fn test_format_voltage_low() {
    let mut panel = LcdPanel::new();
    panel.format_voltage(22050); // 220.5V
    assert!(panel.display_ram[0] != 0);
}

#[test]
fn test_format_voltage_high() {
    let mut panel = LcdPanel::new();
    panel.format_voltage(380000); // 38000V
    assert!(panel.display_ram[0] != 0);
}

#[test]
fn test_format_current_low() {
    let mut panel = LcdPanel::new();
    panel.format_current(5000); // 5A
    assert!(panel.display_ram[0] != 0);
}

#[test]
fn test_format_current_high() {
    let mut panel = LcdPanel::new();
    panel.format_current(50000); // 50A
    assert!(panel.display_ram[0] != 0);
}

#[test]
fn test_format_power_watts() {
    let mut panel = LcdPanel::new();
    panel.format_power(1500, "W");
    assert!(panel.display_ram[0] != 0);
}

#[test]
fn test_format_power_kilowatts() {
    let mut panel = LcdPanel::new();
    panel.format_power(150000, "W"); // 150 kW
    assert!(panel.display_ram[0] != 0);
}

#[test]
fn test_format_power_negative() {
    let mut panel = LcdPanel::new();
    panel.format_power(-1500, "var");
    assert!(panel.display_ram[0] != 0);
}

#[test]
fn test_format_energy_kwh() {
    let mut panel = LcdPanel::new();
    panel.format_energy(123450, "kWh"); // 1234.50 kWh
    assert!(panel.display_ram[0] != 0);
}

#[test]
fn test_format_energy_kvarh() {
    let mut panel = LcdPanel::new();
    panel.format_energy(50000, "kvarh"); // 500.00 kvarh
    assert!(panel.display_ram[0] != 0);
}

#[test]
fn test_format_power_factor() {
    let mut panel = LcdPanel::new();
    panel.format_power_factor(985); // 0.985
    assert!(panel.display_ram[0] != 0);
}

#[test]
fn test_format_frequency() {
    let mut panel = LcdPanel::new();
    panel.format_frequency(5000); // 50.00 Hz
    assert!(panel.display_ram[0] != 0);
}

// ========== OBIS 代码测试 (31-32) ==========

#[test]
fn test_write_obis_code_valid() {
    let mut panel = LcdPanel::new();
    panel.write_obis_code("1.0.0.0.0");
    assert!(panel.display_ram[0] != 0);
}

#[test]
fn test_write_obis_code_invalid() {
    let mut panel = LcdPanel::new();
    let _old_ram = panel.display_ram;
    panel.write_obis_code("invalid");
    // Should not crash
    assert!(true);
}

// ========== 状态指示测试 (33-35) ==========

#[test]
fn test_show_status_open() {
    let mut panel = LcdPanel::new();
    panel.show_status("OPEN");
    assert!(panel.display_ram[0] != 0);
}

#[test]
fn test_show_status_close() {
    let mut panel = LcdPanel::new();
    panel.show_status("CLOSE");
    assert!(panel.display_ram[0] != 0);
}

#[test]
fn test_show_status_test() {
    let mut panel = LcdPanel::new();
    panel.show_status("TEST");
    assert!(panel.display_ram[0] != 0);
}

#[test]
fn test_clear_status() {
    let mut panel = LcdPanel::new();
    panel.show_status("OPEN");
    panel.clear_status();
    // Note: actual clearing depends on symbol implementation
    assert!(true);
}

// ========== 内容数据测试 (36-37) ==========

#[test]
fn test_lcd_content_default() {
    let content = LcdContent::default();
    assert_eq!(content.voltage_a, 0);
    assert_eq!(content.voltage_b, 0);
    assert_eq!(content.voltage_c, 0);
    assert_eq!(content.current_a, 0);
    assert_eq!(content.active_power, 0);
    assert_eq!(content.active_import_energy, 0);
}

#[test]
fn test_lcd_content_with_realistic_data() {
    let mut content = LcdContent::default();
    content.voltage_a = 22050; // 220.50V
    content.voltage_b = 22100;
    content.voltage_c = 21980;
    content.current_a = 5000; // 5A
    content.active_power = -1100; // negative = reverse
    content.power_factor = 985; // 0.985
    content.tariff = 2;
    content.comm_status = 0x05; // RS485 + LoRa
    content.demand_power = 5000;
    content.max_demand_power = 8000;
    content.active_import_energy = 12345600; // 123456.00 kWh
    content.date_year = 2026;
    content.date_month = 4;
    content.date_day = 5;
    content.time_hour = 15;
    content.time_min = 30;
    content.time_sec = 0;

    assert_eq!(content.voltage_a, 22050);
    assert_eq!(content.active_power, -1100);
    assert_eq!(content.tariff, 2);
    assert_eq!(content.comm_status, 0x05);
    assert_eq!(content.active_import_energy, 12345600);
    assert_eq!(content.date_year, 2026);
}

// ========== 显示模式测试 (38-40) ==========

#[test]
fn test_lcd_display_mode_variants() {
    // Verify different display modes can be created
    let off = LcdDisplayMode::Off;
    let test_all_on = LcdDisplayMode::TestAllOn;
    let auto = LcdDisplayMode::AutoRotate { interval_sec: 5 };
    let manual = LcdDisplayMode::Manual;
    let hold = LcdDisplayMode::PowerOffHold;
    
    // Just verify they're different variants
    match off {
        LcdDisplayMode::Off => {},
        _ => panic!("Should be Off"),
    }
    match test_all_on {
        LcdDisplayMode::TestAllOn => {},
        _ => panic!("Should be TestAllOn"),
    }
    match auto {
        LcdDisplayMode::AutoRotate { interval_sec: 5 } => {},
        _ => panic!("Should be AutoRotate with interval_sec: 5"),
    }
    match manual {
        LcdDisplayMode::Manual => {},
        _ => panic!("Should be Manual"),
    }
    match hold {
        LcdDisplayMode::PowerOffHold => {},
        _ => panic!("Should be PowerOffHold"),
    }
}

#[test]
fn test_lcd_panel_mode_setter() {
    let mut panel = LcdPanel::new();
    panel.set_mode(LcdDisplayMode::AutoRotate { interval_sec: 10 });
    assert!(matches!(panel.mode, LcdDisplayMode::AutoRotate { interval_sec: 10 }));
}

#[test]
fn test_lcd_panel_enable() {
    let mut panel = LcdPanel::new();
    assert!(!panel.enabled);
    panel.enable(true);
    assert!(panel.enabled);
    panel.enable(false);
    assert!(!panel.enabled);
}

// ========== 符号枚举测试 (41-43) ==========

#[test]
fn test_lcd_symbol_phase_symbols() {
    // Just verify the symbols can be created and compared
    let phase_a = LcdSymbol::PhaseA;
    let phase_b = LcdSymbol::PhaseB;
    let phase_c = LcdSymbol::PhaseC;
    assert_ne!(phase_a as u8, phase_b as u8);
    assert_ne!(phase_b as u8, phase_c as u8);
}

#[test]
fn test_lcd_symbol_unit_symbols() {
    // Just verify the symbols can be created and compared
    let unit_v = LcdSymbol::UnitV;
    let unit_a = LcdSymbol::UnitA;
    let unit_w = LcdSymbol::UnitW;
    let unit_kwh = LcdSymbol::UnitKWh;
    assert_ne!(unit_v as u8, unit_a as u8);
    assert_ne!(unit_w as u8, unit_kwh as u8);
}

#[test]
fn test_lcd_symbol_status_symbols() {
    // Just verify the symbols can be created and compared
    let alarm = LcdSymbol::Alarm;
    let tariff = LcdSymbol::Tariff;
    let battery = LcdSymbol::Battery;
    assert_ne!(alarm as u8, tariff as u8);
    assert_ne!(tariff as u8, battery as u8);
}

// ========== 轮显逻辑测试 (44-45) ==========

#[test]
fn test_auto_rotate_increment() {
    let mut panel = LcdPanel::new();
    let content = LcdContent::default();
    assert_eq!(panel.current_page(), 0);
    panel.auto_rotate(&content);
    assert_eq!(panel.current_page(), 1);
}

#[test]
fn test_auto_rotate_wrap_around() {
    let mut panel = LcdPanel::new();
    panel.rotate_page = 11;
    let content = LcdContent::default();
    panel.auto_rotate(&content);
    assert_eq!(panel.current_page(), 0);
}

// ========== 综合格式化测试 (46-47) ==========

#[test]
fn test_voltage_current_display_integration() {
    let mut panel = LcdPanel::new();
    panel.format_voltage(22050);
    let voltage_ram = panel.display_ram[0];
    panel.clear();
    panel.format_current(5000);
    let current_ram = panel.display_ram[0];
    // Both should set display RAM
    assert!(voltage_ram != 0);
    assert!(current_ram != 0);
}

#[test]
fn test_power_energy_display_integration() {
    let mut panel = LcdPanel::new();
    panel.format_power(1500, "W");
    let power_ram = panel.display_ram[0];
    panel.clear();
    panel.format_energy(123450, "kWh");
    let energy_ram = panel.display_ram[0];
    // Both should set display RAM
    assert!(power_ram != 0);
    assert!(energy_ram != 0);
}

// ========== 边界条件测试 (48-50) ==========

#[test]
fn test_write_number_zero() {
    let mut panel = LcdPanel::new();
    panel.write_number(0, 0, 0);
    assert!(panel.display_ram[0] != 0);
}

#[test]
fn test_write_number_max_32bit() {
    let mut panel = LcdPanel::new();
    panel.write_number(0, i32::MAX, 0);
    assert!(panel.display_ram[0] != 0);
}

#[test]
fn test_write_number_min_32bit() {
    let mut panel = LcdPanel::new();
    panel.write_number(0, i32::MIN, 0);
    assert!(panel.display_ram[0] != 0);
}

// ========== 特殊场景测试 (51-53) ==========

#[test]
fn test_multiple_clears() {
    let mut panel = LcdPanel::new();
    panel.clear();
    panel.clear();
    panel.clear();
    assert_eq!(panel.display_ram, [0; 4]);
}

#[test]
fn test_multiple_all_on() {
    let mut panel = LcdPanel::new();
    panel.all_on();
    panel.all_on();
    assert!(panel.display_ram.iter().all(|&ram| ram == 0xFFF_FFFF_FFFF_u64));
}

#[test]
fn test_clear_after_all_on() {
    let mut panel = LcdPanel::new();
    panel.all_on();
    panel.clear();
    assert_eq!(panel.display_ram, [0; 4]);
}

// ---- further cases ----

#[test]
fn display_write_digit_exact_bits() {
    let mut panel = LcdPanel::new();
    panel.write_digit(1, 8, true);
    // digit 1 occupies segment lines 8..15; pattern 0x7F plus the point bit
    assert_eq!(panel.display_ram[0], 0x7F00);
    assert_eq!(panel.display_ram[1], 0);
}

#[test]
fn display_write_number_digits() {
    let mut panel = LcdPanel::new();
    panel.write_number(0, 42, 0);
    // most significant digit first: positions 0 and 1 hold 4 and 2
    assert_eq!(panel.display_ram[0], 0xCCu64 | (0xB6u64 << 8));
}

#[test]
fn display_next_page_cycle() {
    let mut panel = LcdPanel::new();
    for _ in 0..12 {
        panel.next_page();
    }
    assert_eq!(panel.current_page(), 0);
}

#[test]
fn display_symbol_on_off() {
    let mut panel = LcdPanel::new();
    panel.write_symbol(LcdSymbol::UnitV, true);
    assert_eq!(panel.display_ram[0], 1u64 << 32);
    // switching off leaves the frame as it is; clearing removes it
    panel.write_symbol(LcdSymbol::UnitV, false);
    assert_eq!(panel.display_ram[0], 1u64 << 32);
    panel.clear();
    assert_eq!(panel.display_ram[0], 0);
}

#[test]
fn display_clear_status_switches_symbols_off() {
    let mut p = LcdPanel::new();
    p.show_status("OPEN");
    p.show_status("CLOSE");
    p.show_status("TEST");
    assert_ne!(p.display_ram, [0; 4]);
    p.clear_status();
    assert_eq!(p.display_ram, [0; 4]);
}

#[test]
fn display_negative_number_draws_minus() {
    let mut panel = LcdPanel::new();
    panel.write_number(0, -123, 0);
    let expected: u64 = 0x80 | (0x30u64 << 8) | (0xB6u64 << 16) | (0x9Eu64 << 24);
    assert_eq!(panel.display_ram[0], expected);
}
