use femeter::key_scan::{DisplayPage, KeyDriver, KeyEvent, KeyId, KeyScanner};

struct Keys;

impl KeyDriver for Keys {
    fn read_key(&self, _key: KeyId) -> bool {
        true
    }
    fn get_tick_ms(&self) -> u32 {
        0
    }
}

#[test]
fn key_short_press_turns_page() {
    let mut ks = KeyScanner::new(Keys);
    assert_eq!(ks.current_page(), DisplayPage::Realtime);
    let mut ev = None;
    for _ in 0..21 {
        ev = ks.tick_levels(false, true);
    }
    assert_eq!(ev, Some(KeyEvent::Press(KeyId::Page)));
    assert_eq!(ks.tick_levels(true, true), Some(KeyEvent::Release(KeyId::Page)));
    assert_eq!(ks.current_page(), DisplayPage::Energy);
}

#[test]
fn key_bounce_is_ignored() {
    let mut ks = KeyScanner::new(Keys);
    for _ in 0..5 {
        assert_eq!(ks.tick_levels(false, true), None);
    }
    assert_eq!(ks.tick_levels(true, true), None);
    assert_eq!(ks.current_page(), DisplayPage::Realtime);
}

#[test]
fn key_long_press_enters_programming() {
    let mut ks = KeyScanner::new(Keys);
    let mut last = None;
    for _ in 0..(21 + 3000) {
        if let Some(e) = ks.tick_levels(false, true) {
            last = Some(e);
        }
    }
    assert_eq!(last, Some(KeyEvent::LongPress(KeyId::Page)));
    assert!(ks.is_programming());
    for _ in 0..10 {
        ks.tick_minute();
    }
    assert!(!ks.is_programming());
}

#[test]
fn key_page_cycle() {
    let mut p = DisplayPage::Realtime;
    for _ in 0..4 {
        p = p.next();
    }
    assert_eq!(p, DisplayPage::Realtime);
    assert_eq!(DisplayPage::Info.next(), DisplayPage::Realtime);
}
