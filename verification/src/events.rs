use vstd::prelude::*;

verus! {

/// The options that the command line sets and the keyboard toggles.
pub struct Config {
    /// Report PSS instead of RSS.
    pub smaps: bool,
    /// Report CPU use the way `top` does (per core).
    pub topmode: bool,
    /// Show every process, kernel threads included.
    pub all: bool,
    /// Milliseconds between samples.
    pub frequency: u64,
    /// The `strftime` format of the clock.
    pub strftime_format: String,
}

/// What one input event asks of the event thread: a message to send to the
/// main loop, if any, and whether the thread ends.
#[derive(PartialEq, Eq, Structural, Debug, Clone, Copy)]
pub struct KeyAction {
    pub send: Option<u8>,
    pub stop: bool,
}

/// The state of the keyboard reader: whether a filter is being typed, and
/// what has been typed.
pub struct InputState {
    pub search: bool,
    pub input: Vec<char>,
}

/// The three toggles of a configuration.
pub open spec fn toggles(c: &Config) -> (bool, bool, bool) {
    (c.smaps, c.topmode, c.all)
}

/// What a key does: (filter mode after, typed text after, toggles after
/// (smaps, topmode, all), the action).
pub open spec fn spec_key(search: bool, input: Seq<char>, t: (bool, bool, bool), key: u8)
    -> (bool, Seq<char>, (bool, bool, bool), KeyAction)
{
    if search {
        if key == 13 || key == 27 {
            (false, Seq::empty(), t, KeyAction { send: Some(102), stop: false })
        } else if key == 127 {
            (true, if input.len() > 0 { input.drop_last() } else { input }, t, KeyAction { send: Some(103), stop: false })
        } else {
            (true, input.push(key as char), t, KeyAction { send: Some(103), stop: false })
        }
    } else if key == 102 {
        (true, input, t, KeyAction { send: Some(102), stop: false })
    } else if key == 113 {
        (false, input, t, KeyAction { send: Some(255), stop: true })
    } else if key == 32 {
        (false, input, t, KeyAction { send: Some(101), stop: false })
    } else if key == 116 {
        (false, input, (t.0, !t.1, t.2), KeyAction { send: Some(10), stop: false })
    } else if key == 115 {
        (false, input, (!t.0, t.1, t.2), KeyAction { send: Some(11), stop: false })
    } else if key == 97 {
        (false, input, (t.0, t.1, !t.2), KeyAction { send: Some(12), stop: false })
    } else if key == 114 {
        (false, input, t, KeyAction { send: Some(106), stop: false })
    } else {
        (false, input, t, KeyAction { send: None, stop: false })
    }
}

/// What a signal does: a resize (28) is passed on as 105, an interrupt (2) as
/// 255, a user signal 1 (10) ends the thread; others are ignored.
pub open spec fn spec_signal(signo: u32) -> KeyAction {
    if signo == 28 {
        KeyAction { send: Some(105), stop: false }
    } else if signo == 2 {
        KeyAction { send: Some(255), stop: false }
    } else if signo == 10 {
        KeyAction { send: None, stop: true }
    } else {
        KeyAction { send: None, stop: false }
    }
}

impl InputState {
    /// Not typing a filter, nothing typed.
    pub fn new() -> (r: Self)
        ensures
            !r.search,
            r.input@.len() == 0,
    {
        InputState { search: false, input: Vec::new() }
    }

    /// Takes in the first byte of what was read from the terminal. While a
    /// filter is typed, return or escape ends it and clears it (102),
    /// backspace removes the last character and anything else is appended
    /// (103). Otherwise `f` starts a filter (102), `q` quits (255), space
    /// pauses (101), `t`, `s` and `a` flip top mode, PSS and all processes
    /// (10, 11, 12), `r` rebuilds the screen (106); other keys do nothing.
    pub fn handle_key(&mut self, key: u8, cfg: &mut Config) -> (r: KeyAction)
        ensures
            ({
                let (search, input, t, action) = spec_key(old(self).search, old(self).input@, toggles(old(cfg)), key);
                &&& final(self).search == search
                &&& final(self).input@ == input
                &&& toggles(final(cfg)) == t
                &&& r == action
            }),
            final(cfg).frequency == old(cfg).frequency,
            final(cfg).strftime_format@ == old(cfg).strftime_format@,
    {
        if self.search {
            if key == 13 || key == 27 {
                self.search = false;
                self.input.clear();
                KeyAction { send: Some(102), stop: false }
            } else {
                if key == 127 {
                    let _ = self.input.pop();
                } else {
                    self.input.push(key as char);
                }
                KeyAction { send: Some(103), stop: false }
            }
        } else if key == 102 {
            self.search = true;
            KeyAction { send: Some(102), stop: false }
        } else if key == 113 {
            KeyAction { send: Some(255), stop: true }
        } else if key == 32 {
            KeyAction { send: Some(101), stop: false }
        } else if key == 116 {
            cfg.topmode = !cfg.topmode;
            KeyAction { send: Some(10), stop: false }
        } else if key == 115 {
            cfg.smaps = !cfg.smaps;
            KeyAction { send: Some(11), stop: false }
        } else if key == 97 {
            cfg.all = !cfg.all;
            KeyAction { send: Some(12), stop: false }
        } else if key == 114 {
            KeyAction { send: Some(106), stop: false }
        } else {
            KeyAction { send: None, stop: false }
        }
    }
}

/// Takes in a signal number read from the signal descriptor.
pub fn handle_signal(signo: u32) -> (r: KeyAction)
    ensures
        r == spec_signal(signo),
{
    if signo == 28 {
        KeyAction { send: Some(105), stop: false }
    } else if signo == 2 {
        KeyAction { send: Some(255), stop: false }
    } else if signo == 10 {
        KeyAction { send: None, stop: true }
    } else {
        KeyAction { send: None, stop: false }
    }
}

/// Where an event came from: the terminal (descriptor 0), the signal
/// descriptor, or somewhere unexpected.
#[derive(PartialEq, Eq, Structural, Debug, Clone, Copy)]
pub enum EventSource {
    Terminal,
    Signal,
    Unknown,
}

/// Tells the source of an event by its descriptor.
pub fn event_source(fd: i32, signal_fd: i32) -> (r: EventSource)
    ensures
        fd == 0 ==> r == EventSource::Terminal,
        fd != 0 && fd == signal_fd ==> r == EventSource::Signal,
        fd != 0 && fd != signal_fd ==> r == EventSource::Unknown,
{
    if fd == 0 {
        EventSource::Terminal
    } else if fd == signal_fd {
        EventSource::Signal
    } else {
        EventSource::Unknown
    }
}

/// An event from an unexpected descriptor: the error message (99), and the
/// thread ends.
pub fn unknown_event() -> (r: KeyAction)
    ensures
        r == (KeyAction { send: Some(99), stop: true }),
{
    KeyAction { send: Some(99), stop: true }
}

/// What a monitoring thread does after one round of reading: after a good
/// round it sends its widget's number `item` and goes on; after a failed one
/// it sends the error message (99) and ends.
pub fn round_action(ok: bool, item: u8) -> (r: KeyAction)
    ensures
        ok ==> r == (KeyAction { send: Some(item), stop: false }),
        !ok ==> r == (KeyAction { send: Some(99), stop: true }),
{
    if ok {
        KeyAction { send: Some(item), stop: false }
    } else {
        KeyAction { send: Some(99), stop: true }
    }
}

/// What the main loop does with a message.
#[derive(PartialEq, Eq, Structural, Debug, Clone, Copy)]
pub enum MainAction {
    /// Redraw the widget of this number.
    Update(u8),
    /// A thread failed: show its error and end.
    Error,
    /// Pause or resume drawing.
    TogglePause,
    /// The terminal was resized: read its size and rebuild.
    Resize,
    /// Rebuild the screen.
    Rebuild,
    /// The process filter was started, typed into or ended: the program
    /// goes on.
    Filter,
    /// End.
    Exit,
}

/// The main loop's answer to a message: 1 to 13 redraw, 99 is a failure,
/// 101 pauses, 102 and 103 (the filter keys) go on, 105 resizes, 106
/// rebuilds; 255, and anything else, ends.
pub fn main_action(event: u8) -> (r: MainAction)
    ensures
        1 <= event <= 13 ==> r == MainAction::Update(event),
        event == 99 ==> r == MainAction::Error,
        event == 101 ==> r == MainAction::TogglePause,
        event == 105 ==> r == MainAction::Resize,
        event == 106 ==> r == MainAction::Rebuild,
        event == 102 || event == 103 ==> r == MainAction::Filter,
        !(1 <= event <= 13 || event == 99 || event == 101 || event == 102 || event == 103 || event == 105 || event == 106)
            ==> r == MainAction::Exit,
{
    if 1 <= event && event <= 13 {
        MainAction::Update(event)
    } else if event == 99 {
        MainAction::Error
    } else if event == 101 {
        MainAction::TogglePause
    } else if event == 105 {
        MainAction::Resize
    } else if event == 106 {
        MainAction::Rebuild
    } else if event == 102 || event == 103 {
        MainAction::Filter
    } else {
        MainAction::Exit
    }
}

/// Pressing a toggle key twice, outside a filter, leaves the toggles as they
/// were.
pub proof fn law_toggle_twice(input: Seq<char>, t: (bool, bool, bool), key: u8)
    requires
        key == 116 || key == 115 || key == 97,
    ensures
        ({
            let (s1, i1, t1, _) = spec_key(false, input, t, key);
            let (s2, i2, t2, _) = spec_key(s1, i1, t1, key);
            &&& t2 == t
            &&& !s2
            &&& i2 == input
        }),
{
}

/// Starting a filter, typing any keys but return, escape and backspace, then
/// return, leaves the toggles alone, ends the filter and clears the text.
pub proof fn law_filter_round_trip(input: Seq<char>, t: (bool, bool, bool), typed: Seq<u8>, end: u8)
    requires
        end == 13 || end == 27,
        forall|k: int| 0 <= k < typed.len() ==> typed[k] != 13 && typed[k] != 27 && typed[k] != 127,
    ensures
        ({
            let (s1, i1, t1, a1) = spec_key(false, input, t, 102);
            let (s2, i2, t2) = type_all(s1, i1, t1, typed);
            let (s3, i3, t3, a3) = spec_key(s2, i2, t2, end);
            &&& a1.send == Some(102u8)
            &&& s2 && i2 == i1 + typed.map_values(|b: u8| b as char)
            &&& !s3 && i3.len() == 0 && t3 == t
            &&& a3.send == Some(102u8)
        }),
    decreases typed.len(),
{
    lemma_type_all(true, input, t, typed);
}

/// The state after each key of `keys` in turn.
pub open spec fn type_all(search: bool, input: Seq<char>, t: (bool, bool, bool), keys: Seq<u8>)
    -> (bool, Seq<char>, (bool, bool, bool))
    decreases keys.len(),
{
    if keys.len() == 0 {
        (search, input, t)
    } else {
        let (s, i, t2) = type_all(search, input, t, keys.drop_last());
        let (s2, i2, t3, _) = spec_key(s, i, t2, keys.last());
        (s2, i2, t3)
    }
}

proof fn lemma_type_all(search: bool, input: Seq<char>, t: (bool, bool, bool), keys: Seq<u8>)
    requires
        search,
        forall|k: int| 0 <= k < keys.len() ==> keys[k] != 13 && keys[k] != 27 && keys[k] != 127,
    ensures
        type_all(search, input, t, keys) == (true, input + keys.map_values(|b: u8| b as char), t),
    decreases keys.len(),
{
    if keys.len() > 0 {
        lemma_type_all(search, input, t, keys.drop_last());
        assert(keys.drop_last().map_values(|b: u8| b as char).push(keys.last() as char)
            == keys.map_values(|b: u8| b as char));
        assert(input + keys.drop_last().map_values(|b: u8| b as char) + seq![keys.last() as char]
            == input + keys.map_values(|b: u8| b as char));
    } else {
        assert(input + keys.map_values(|b: u8| b as char) == input);
    }
}

} // verus!
