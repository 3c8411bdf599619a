use femeter::lcd::{DisplayPage, LcdDriver, DIGIT_PATTERNS};

#[test]
fn lcd_digit_patterns() {
    assert_eq!(DIGIT_PATTERNS[0], 0x3F);
    assert_eq!(DIGIT_PATTERNS[8], 0x7F);
    assert_eq!(DIGIT_PATTERNS[15], 0x71);
}

#[test]
fn lcd_driver_refresh_voltage_page() {
    let mut lcd = LcdDriver::new();
    lcd.init_hw();
    // tariff 8 has no icon; the voltage page is shown first
    for _ in 0..10 {
        lcd.update(22050, 5230, 1000, 123456, 8, 5000, 998);
    }
}

#[test]
fn lcd_display_page_values() {
    let p = DisplayPage::EnergyTariff(2);
    assert_eq!(p, DisplayPage::EnergyTariff(2));
    assert_ne!(p, DisplayPage::Error(2));
}
