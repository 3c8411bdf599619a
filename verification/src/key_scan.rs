//! Two-key scanner: debounce and long-press detection per key, page
//! switching and programming mode. The page key (PB0) turns the page on a
//! short press and enters programming mode after 3 s; the programming key
//! (PB1) toggles programming mode.
use vstd::prelude::*;

use crate::board::pins;
use crate::hal::GpioPin;

verus! {

/// Key identifier.
#[derive(Clone, Copy, PartialEq, Eq, Debug, Structural)]
pub enum KeyId {
    /// Page key (PB0)
    Page,
    /// Programming key (PB1)
    Prog,
}

/// Key event.
#[derive(Clone, Copy, PartialEq, Eq, Debug, Structural)]
pub enum KeyEvent {
    /// Key pressed (after debouncing)
    Press(KeyId),
    /// Key released
    Release(KeyId),
    /// Long press (page key, 3 s)
    LongPress(KeyId),
}

/// LCD page selected by the keys.
#[derive(Clone, Copy, PartialEq, Eq, Debug, Structural)]
pub enum DisplayPage {
    /// Real-time values
    Realtime,
    /// Energy registers
    Energy,
    /// Event records
    Events,
    /// Meter information
    Info,
}

/// The page after `p`, cycling.
pub open spec fn page_after(p: DisplayPage) -> DisplayPage {
    match p {
        DisplayPage::Realtime => DisplayPage::Energy,
        DisplayPage::Energy => DisplayPage::Events,
        DisplayPage::Events => DisplayPage::Info,
        DisplayPage::Info => DisplayPage::Realtime,
    }
}

impl DisplayPage {
    /// Number of pages.
    pub const COUNT: u8 = 4;

    /// The next page, cycling.
    pub fn next(self) -> (r: Self)
        ensures
            r == page_after(self),
    {
        match self {
            DisplayPage::Realtime => DisplayPage::Energy,
            DisplayPage::Energy => DisplayPage::Events,
            DisplayPage::Events => DisplayPage::Info,
            DisplayPage::Info => DisplayPage::Realtime,
        }
    }
}

/// Turning the page `COUNT` times comes back to the same page.
pub proof fn lemma_page_cycle(p: DisplayPage)
    ensures
        page_after(page_after(page_after(page_after(p)))) == p,
        page_after(p) != p,
{
}

/// Scan state of one key.
#[derive(Clone, Copy, PartialEq, Eq, Debug, Structural)]
pub enum KeyState {
    /// Waiting for a press
    Idle,
    /// Low level seen, waiting for it to be stable
    Debounce,
    /// Pressed, waiting for release or long press
    Pressed,
}

/// Run-time state of one key.
#[derive(Clone, Copy)]
pub struct KeyChannel {
    pub state: KeyState,
    pub id: KeyId,
    pub pin: GpioPin,
    /// Debounce counter (ticks)
    pub debounce_ms: u16,
    /// Time held (ticks), for long-press detection
    pub press_duration_ms: u32,
    /// Last level read (true = high = released)
    pub last_level: bool,
}

/// Debounce time (ticks).
pub const DEBOUNCE_MS: u16 = 20;
/// Long-press time (ticks).
pub const LONG_PRESS_MS: u32 = 3000;
/// Programming mode timeout (minutes).
pub const PROG_TIMEOUT_MIN: u16 = 10;

/// One scan tick of a key at `level` (true = released): a low level starts
/// debouncing; a level held low for `DEBOUNCE_MS` ticks is a press; a high
/// level while pressed is a release; the page key held for
/// `LONG_PRESS_MS` ticks is a long press.
pub open spec fn key_step(ch: KeyChannel, level: bool) -> (KeyChannel, Option<KeyEvent>) {
    match ch.state {
        KeyState::Idle => {
            if !level {
                (KeyChannel { state: KeyState::Debounce, debounce_ms: 0, last_level: level, ..ch }, None)
            } else {
                (ch, None)
            }
        },
        KeyState::Debounce => {
            let d = (ch.debounce_ms + 1) as u16;
            if !level {
                if d >= DEBOUNCE_MS {
                    (KeyChannel { state: KeyState::Pressed, debounce_ms: d, press_duration_ms: 0, ..ch },
                        Some(KeyEvent::Press(ch.id)))
                } else {
                    (KeyChannel { debounce_ms: d, last_level: level, ..ch }, None)
                }
            } else {
                (KeyChannel { state: KeyState::Idle, debounce_ms: d, last_level: level, ..ch }, None)
            }
        },
        KeyState::Pressed => {
            let t = (ch.press_duration_ms + 1) as u32;
            if level {
                (KeyChannel { state: KeyState::Idle, press_duration_ms: t, ..ch }, Some(KeyEvent::Release(ch.id)))
            } else if ch.id == KeyId::Page && t >= LONG_PRESS_MS {
                (KeyChannel { state: KeyState::Idle, press_duration_ms: t, ..ch }, Some(KeyEvent::LongPress(ch.id)))
            } else {
                (KeyChannel { press_duration_ms: t, last_level: level, ..ch }, None)
            }
        },
    }
}

/// A key channel's counters are in range: the debounce counter never
/// passes `DEBOUNCE_MS` (and is below it while debouncing), and the page key's press time stays below
/// `LONG_PRESS_MS` while pressed.
pub open spec fn channel_ok(ch: KeyChannel) -> bool {
    &&& ch.debounce_ms <= DEBOUNCE_MS
    &&& (ch.state == KeyState::Debounce ==> ch.debounce_ms < DEBOUNCE_MS)
    &&& (ch.id == KeyId::Page && ch.state == KeyState::Pressed ==> ch.press_duration_ms < LONG_PRESS_MS)
}

/// One tick of a key channel.
fn tick_channel_inner(ch: &mut KeyChannel, level: bool) -> (r: Option<KeyEvent>)
    requires
        channel_ok(*old(ch)),
        old(ch).state == KeyState::Pressed ==> old(ch).press_duration_ms < u32::MAX,
    ensures
        (*final(ch), r) == key_step(*old(ch), level),
        channel_ok(*final(ch)),
{
    match ch.state {
        KeyState::Idle => {
            if !level {
                ch.state = KeyState::Debounce;
                ch.debounce_ms = 0;
                ch.last_level = level;
            }
            None
        },
        KeyState::Debounce => {
            ch.debounce_ms = ch.debounce_ms + 1;
            if !level {
                if ch.debounce_ms >= DEBOUNCE_MS {
                    ch.state = KeyState::Pressed;
                    ch.press_duration_ms = 0;
                    return Some(KeyEvent::Press(ch.id));
                }
            } else {
                ch.state = KeyState::Idle;
            }
            ch.last_level = level;
            None
        },
        KeyState::Pressed => {
            ch.press_duration_ms = ch.press_duration_ms + 1;
            if level {
                ch.state = KeyState::Idle;
                return Some(KeyEvent::Release(ch.id));
            }
            if ch.id == KeyId::Page && ch.press_duration_ms >= LONG_PRESS_MS {
                ch.state = KeyState::Idle;
                return Some(KeyEvent::LongPress(ch.id));
            }
            ch.last_level = level;
            None
        },
    }
}

/// Key hardware: key levels and a millisecond tick.
pub trait KeyDriver {
    /// Level of a key (true = released, false = pressed).
    fn read_key(&self, key: KeyId) -> bool;
    /// Current tick (ms).
    fn get_tick_ms(&self) -> u32;
}

/// Key event callback.
pub trait KeyHandler {
    fn on_key_event(&mut self, event: KeyEvent);
}

/// Key scanner, called periodically from a task.
pub struct KeyScanner<D: KeyDriver> {
    driver: D,
    page_key: KeyChannel,
    prog_key: KeyChannel,
    current_page: DisplayPage,
    programming_mode: bool,
    /// Minutes spent in programming mode
    prog_timeout_min: u16,
    /// Key levels read from the hardware so far, oldest first
    levels: Ghost<Seq<(KeyId, bool)>>,
}

/// Page and programming mode after an event: a page-key release turns the
/// page (outside programming mode), a page-key long press enters
/// programming mode, a programming-key release toggles it; entering or
/// leaving restarts the timeout.
pub open spec fn mode_after(page: DisplayPage, prog: bool, timeout: u16, e: KeyEvent) -> (DisplayPage, bool, u16) {
    match e {
        KeyEvent::Release(KeyId::Page) => (if !prog { page_after(page) } else { page }, prog, timeout),
        KeyEvent::LongPress(KeyId::Page) => (page, true, 0),
        KeyEvent::Release(KeyId::Prog) => (page, !prog, 0),
        _ => (page, prog, timeout),
    }
}

/// Programming-key law: a release of the programming key flips the
/// programming mode (entering it when outside, leaving it when inside),
/// restarts the mode's timeout and keeps the page; so two releases in a
/// row give back the mode there was before them.
pub proof fn lemma_prog_release_toggles(page: DisplayPage, prog: bool, timeout: u16, timeout2: u16)
    ensures
        mode_after(page, prog, timeout, KeyEvent::Release(KeyId::Prog)) == (page, !prog, 0u16),
        ({
            let once = mode_after(page, prog, timeout, KeyEvent::Release(KeyId::Prog));
            mode_after(once.0, once.1, timeout2, KeyEvent::Release(KeyId::Prog)).1 == prog
        }),
{
}

impl<D: KeyDriver> KeyScanner<D> {
    /// The page key's channel.
    pub closed spec fn page_channel(&self) -> KeyChannel {
        self.page_key
    }

    /// The programming key's channel.
    pub closed spec fn prog_channel(&self) -> KeyChannel {
        self.prog_key
    }

    /// The page shown.
    pub closed spec fn page(&self) -> DisplayPage {
        self.current_page
    }

    /// In programming mode.
    pub closed spec fn programming(&self) -> bool {
        self.programming_mode
    }

    /// Minutes spent in programming mode.
    pub closed spec fn timeout_minutes(&self) -> u16 {
        self.prog_timeout_min
    }

    /// The key hardware.
    pub closed spec fn keys(&self) -> D {
        self.driver
    }

    /// Key levels read from the hardware so far, oldest first.
    pub closed spec fn levels_read(&self) -> Seq<(KeyId, bool)> {
        self.levels@
    }

    /// Counters in range.
    pub open spec fn wf(&self) -> bool {
        &&& channel_ok(self.page_channel())
        &&& channel_ok(self.prog_channel())
        &&& self.page_channel().id == KeyId::Page
        &&& self.prog_channel().id == KeyId::Prog
        &&& self.timeout_minutes() < PROG_TIMEOUT_MIN
    }

    /// A scanner with both keys released, on the real-time page, not in
    /// programming mode.
    pub fn new(driver: D) -> (r: Self)
        ensures
            r.wf(),
            r.keys() == driver,
            r.page() == DisplayPage::Realtime,
            !r.programming(),
            r.timeout_minutes() == 0,
            r.page_channel().state == KeyState::Idle,
            r.prog_channel().state == KeyState::Idle,
    {
        KeyScanner {
            driver,
            page_key: KeyChannel {
                state: KeyState::Idle,
                id: KeyId::Page,
                pin: pins::key_page(),
                debounce_ms: 0,
                press_duration_ms: 0,
                last_level: true,
            },
            prog_key: KeyChannel {
                state: KeyState::Idle,
                id: KeyId::Prog,
                pin: pins::key_prog(),
                debounce_ms: 0,
                press_duration_ms: 0,
                last_level: true,
            },
            current_page: DisplayPage::Realtime,
            programming_mode: false,
            prog_timeout_min: 0,
            levels: Ghost(Seq::empty()),
        }
    }

    /// Periodic scan: read the page key's level, then the programming
    /// key's, and run `tick_levels` on them.
    pub fn tick(&mut self) -> (r: Option<KeyEvent>)
        requires
            old(self).wf(),
            old(self).prog_channel().state == KeyState::Pressed ==> old(self).prog_channel().press_duration_ms < u32::MAX,
        ensures
            final(self).wf(),
            ({
                let n = old(self).levels_read().len() as int;
                let l = final(self).levels_read();
                &&& l.len() == n + 2
                &&& l.subrange(0, n) == old(self).levels_read()
                &&& l[n].0 == KeyId::Page
                &&& l[n + 1].0 == KeyId::Prog
                &&& scan_outcome(old(self).page_channel(), old(self).prog_channel(), l[n].1, l[n + 1].1)
                    == (final(self).page_channel(), final(self).prog_channel(), r)
            }),
            r is Some ==> (final(self).page(), final(self).programming(), final(self).timeout_minutes()) == mode_after(
                old(self).page(), old(self).programming(), old(self).timeout_minutes(), r->0),
            r is None ==> final(self).page() == old(self).page() && final(self).programming() == old(self).programming()
                && final(self).timeout_minutes() == old(self).timeout_minutes(),
    {
        let page_level = self.driver.read_key(KeyId::Page);
        let prog_level = self.driver.read_key(KeyId::Prog);
        let _tick = self.driver.get_tick_ms();
        self.levels = Ghost(self.levels@.push((KeyId::Page, page_level)).push((KeyId::Prog, prog_level)));
        let r = self.tick_levels(page_level, prog_level);
        proof {
            assert(self.levels@.subrange(0, old(self).levels@.len() as int) =~= old(self).levels@);
        }
        r
    }

    /// One scan with the key levels read (true = released): the page key
    /// is scanned first; the programming key only when the page key gave
    /// no event. The event, if any, switches the page or the programming
    /// mode (`mode_after`) and is returned.
    pub fn tick_levels(&mut self, page_level: bool, prog_level: bool) -> (r: Option<KeyEvent>)
        requires
            old(self).wf(),
            old(self).prog_channel().state == KeyState::Pressed ==> old(self).prog_channel().press_duration_ms < u32::MAX,
        ensures
            final(self).wf(),
            scan_outcome(old(self).page_channel(), old(self).prog_channel(), page_level, prog_level)
                == (final(self).page_channel(), final(self).prog_channel(), r),
            r is Some ==> (final(self).page(), final(self).programming(), final(self).timeout_minutes()) == mode_after(
                old(self).page(), old(self).programming(), old(self).timeout_minutes(), r->0),
            r is None ==> final(self).page() == old(self).page() && final(self).programming() == old(self).programming()
                && final(self).timeout_minutes() == old(self).timeout_minutes(),
            final(self).keys() == old(self).keys(),
            final(self).levels_read() == old(self).levels_read(),
    {
        let mut event = tick_channel_inner(&mut self.page_key, page_level);
        if event.is_none() {
            event = tick_channel_inner(&mut self.prog_key, prog_level);
        }
        match event {
            Some(e) => {
                self.handle_event(e);
            },
            None => {},
        }
        event
    }

    fn handle_event(&mut self, event: KeyEvent)
        requires
            old(self).wf(),
        ensures
            final(self).wf(),
            (final(self).page(), final(self).programming(), final(self).timeout_minutes()) == mode_after(
                old(self).page(), old(self).programming(), old(self).timeout_minutes(), event),
            final(self).page_channel() == old(self).page_channel(),
            final(self).prog_channel() == old(self).prog_channel(),
            final(self).keys() == old(self).keys(),
            final(self).levels_read() == old(self).levels_read(),
    {
        match event {
            KeyEvent::Release(KeyId::Page) => {
                if !self.programming_mode {
                    self.current_page = self.current_page.next();
                }
            },
            KeyEvent::LongPress(KeyId::Page) => {
                self.enter_programming_mode();
            },
            KeyEvent::Release(KeyId::Prog) => {
                if self.programming_mode {
                    self.exit_programming_mode();
                } else {
                    self.enter_programming_mode();
                }
            },
            _ => {},
        }
    }

    /// Enter programming mode (no password check is made).
    fn enter_programming_mode(&mut self)
        ensures
            final(self).programming(),
            final(self).timeout_minutes() == 0,
            final(self).page() == old(self).page(),
            final(self).page_channel() == old(self).page_channel(),
            final(self).prog_channel() == old(self).prog_channel(),
            final(self).keys() == old(self).keys(),
            final(self).levels_read() == old(self).levels_read(),
    {
        self.programming_mode = true;
        self.prog_timeout_min = 0;
    }

    fn exit_programming_mode(&mut self)
        ensures
            !final(self).programming(),
            final(self).timeout_minutes() == 0,
            final(self).page() == old(self).page(),
            final(self).page_channel() == old(self).page_channel(),
            final(self).prog_channel() == old(self).prog_channel(),
            final(self).keys() == old(self).keys(),
            final(self).levels_read() == old(self).levels_read(),
    {
        self.programming_mode = false;
        self.prog_timeout_min = 0;
    }

    /// Called every minute: programming mode ends after `PROG_TIMEOUT_MIN`
    /// minutes.
    pub fn tick_minute(&mut self)
        requires
            old(self).wf(),
        ensures
            final(self).wf(),
            !old(self).programming() ==> final(self).programming() == old(self).programming()
                && final(self).timeout_minutes() == old(self).timeout_minutes(),
            old(self).programming() && old(self).timeout_minutes() + 1 < PROG_TIMEOUT_MIN ==> final(self).programming()
                && final(self).timeout_minutes() == old(self).timeout_minutes() + 1,
            old(self).programming() && old(self).timeout_minutes() + 1 >= PROG_TIMEOUT_MIN ==> !final(self).programming()
                && final(self).timeout_minutes() == 0,
            final(self).page() == old(self).page(),
            final(self).page_channel() == old(self).page_channel(),
            final(self).prog_channel() == old(self).prog_channel(),
            final(self).keys() == old(self).keys(),
            final(self).levels_read() == old(self).levels_read(),
    {
        if self.programming_mode {
            self.prog_timeout_min = self.prog_timeout_min + 1;
            if self.prog_timeout_min >= PROG_TIMEOUT_MIN {
                self.exit_programming_mode();
            }
        }
    }

    /// The page shown.
    pub fn current_page(&self) -> (r: DisplayPage)
        ensures
            r == self.page(),
    {
        self.current_page
    }

    /// Show `page`.
    pub fn set_page(&mut self, page: DisplayPage)
        requires
            old(self).wf(),
        ensures
            final(self).wf(),
            final(self).page() == page,
            final(self).programming() == old(self).programming(),
            final(self).timeout_minutes() == old(self).timeout_minutes(),
            final(self).page_channel() == old(self).page_channel(),
            final(self).prog_channel() == old(self).prog_channel(),
            final(self).keys() == old(self).keys(),
            final(self).levels_read() == old(self).levels_read(),
    {
        self.current_page = page;
    }

    /// In programming mode.
    pub fn is_programming(&self) -> (r: bool)
        ensures
            r == self.programming(),
    {
        self.programming_mode
    }

    /// Reset both keys to released (after wake-up).
    pub fn reset(&mut self)
        requires
            old(self).wf(),
        ensures
            final(self).wf(),
            final(self).page_channel() == (KeyChannel {
                state: KeyState::Idle,
                debounce_ms: 0,
                press_duration_ms: 0,
                ..old(self).page_channel()
            }),
            final(self).prog_channel() == (KeyChannel {
                state: KeyState::Idle,
                debounce_ms: 0,
                press_duration_ms: 0,
                ..old(self).prog_channel()
            }),
            final(self).page() == old(self).page(),
            final(self).programming() == old(self).programming(),
            final(self).timeout_minutes() == old(self).timeout_minutes(),
            final(self).keys() == old(self).keys(),
    {
        self.page_key.state = KeyState::Idle;
        self.prog_key.state = KeyState::Idle;
        self.page_key.debounce_ms = 0;
        self.prog_key.debounce_ms = 0;
        self.page_key.press_duration_ms = 0;
        self.prog_key.press_duration_ms = 0;
    }
}

/// Key channels and event after one scan at the given levels: the page key
/// first, the programming key only when the page key gave no event.
pub open spec fn scan_outcome(page: KeyChannel, prog: KeyChannel, page_level: bool, prog_level: bool) -> (
    KeyChannel,
    KeyChannel,
    Option<KeyEvent>,
) {
    let (p2, e1) = key_step(page, page_level);
    if e1 is Some {
        (p2, prog, e1)
    } else {
        let (q2, e2) = key_step(prog, prog_level);
        (p2, q2, e2)
    }
}

} // verus!
