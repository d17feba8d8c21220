use vstd::prelude::*;
use crate::color::ColorScheme;

verus! {

/// The largest drop length any setting can reach; keeps row arithmetic and
/// the color fixed-point math inside machine bounds.
pub const MAX_DROP_LEN: usize = 1000;

/// The live tunable settings owned by the field for the run's duration.
/// The spawn density is carried as an integer percentage in [1, 100].
#[derive(Clone, Copy, PartialEq, Eq, Structural, Debug)]
pub struct Settings {
    /// Frame delay in milliseconds; lower is faster.
    pub frame_delay_ms: u64,
    /// Spawn probability as a percentage.
    pub density_pct: u8,
    /// Most spawns attempted in one frame.
    pub spawns_per_frame: u32,
    /// Shortest drop length sampled.
    pub min_length: usize,
    /// Longest drop length sampled.
    pub max_length: usize,
    /// Fewest ticks per one-row advance; lower is faster.
    pub min_speed: u8,
    /// Most ticks per one-row advance.
    pub max_speed: u8,
    /// The active color scheme.
    pub color_scheme: ColorScheme,
}

/// One key event, already stripped of terminal encoding: the character or
/// arrow pressed, with the control modifier passed alongside.
#[derive(Clone, Copy, PartialEq, Eq, Structural, Debug)]
pub enum Key {
    Char(char),
    Up,
    Down,
    Left,
    Right,
    Enter,
    Esc,
    Other,
}

impl Settings {
    /// The invariant every mutation preserves: density in [1, 100]%, length
    /// and speed ranges non-empty, at least one spawn attempt per frame.
    pub open spec fn wf(self) -> bool {
        &&& 1 <= self.density_pct <= 100
        &&& 1 <= self.min_length <= self.max_length <= MAX_DROP_LEN
        &&& 1 <= self.min_speed <= self.max_speed
        &&& 1 <= self.spawns_per_frame
    }

    /// Executable check of the invariant, for unverified callers.
    pub fn is_wf(&self) -> (r: bool)
        ensures
            r == self.wf(),
    {
        1 <= self.density_pct && self.density_pct <= 100
            && 1 <= self.min_length && self.min_length <= self.max_length
            && self.max_length <= MAX_DROP_LEN
            && 1 <= self.min_speed && self.min_speed <= self.max_speed
            && 1 <= self.spawns_per_frame
    }
}

pub open spec fn spec_default_settings() -> Settings {
    Settings {
        frame_delay_ms: 50,
        density_pct: 40,
        spawns_per_frame: 4,
        min_length: 10,
        max_length: 30,
        min_speed: 2,
        max_speed: 4,
        color_scheme: ColorScheme::Green,
    }
}

impl Default for Settings {
    /// A relaxed medium-density green rain.
    fn default() -> (s: Settings)
        ensures
            s == spec_default_settings(),
            s.wf(),
    {
        Settings {
            frame_delay_ms: 50,
            density_pct: 40,
            spawns_per_frame: 4,
            min_length: 10,
            max_length: 30,
            min_speed: 2,
            max_speed: 4,
            color_scheme: ColorScheme::Green,
        }
    }
}

/// Whether the key requests loop termination: q, Esc, Enter, Space, or
/// Ctrl with c, d or z.
pub open spec fn spec_is_quit(key: Key, ctrl: bool) -> bool {
    ||| key == Key::Char('q')
    ||| key == Key::Esc
    ||| key == Key::Enter
    ||| key == Key::Char(' ')
    ||| (ctrl && (key == Key::Char('c') || key == Key::Char('d') || key == Key::Char('z')))
}

/// The settings after one key event: every adjustment saturates at its
/// documented bound, and the length range is never left inverted.
pub open spec fn spec_apply_key(s: Settings, key: Key, ctrl: bool) -> Settings {
    if spec_is_quit(key, ctrl) {
        s
    } else if key == Key::Up {
        Settings { frame_delay_ms: if s.frame_delay_ms >= 10 { (s.frame_delay_ms - 5) as u64 } else { 5 }, ..s }
    } else if key == Key::Down {
        Settings { frame_delay_ms: if s.frame_delay_ms >= 95 { 100 } else { (s.frame_delay_ms + 5) as u64 }, ..s }
    } else if key == Key::Right {
        Settings {
            density_pct: if s.density_pct >= 95 { 100 } else { (s.density_pct + 5) as u8 },
            spawns_per_frame: if s.spawns_per_frame >= 20 { 20 } else { (s.spawns_per_frame + 1) as u32 },
            ..s
        }
    } else if key == Key::Left {
        Settings {
            density_pct: if s.density_pct >= 10 { (s.density_pct - 5) as u8 } else { 5 },
            spawns_per_frame: if s.spawns_per_frame >= 2 { (s.spawns_per_frame - 1) as u32 } else { 1 },
            ..s
        }
    } else if key == Key::Char('+') || key == Key::Char('=') {
        let new_max = if s.max_length >= 45 { 50 } else { (s.max_length + 5) as usize };
        Settings {
            max_length: new_max,
            min_length: if s.min_length <= new_max { s.min_length } else { new_max },
            ..s
        }
    } else if key == Key::Char('-') {
        let new_max = if s.max_length >= 10 { (s.max_length - 5) as usize } else { 5 };
        Settings {
            max_length: new_max,
            min_length: if s.min_length <= new_max { s.min_length } else { new_max },
            ..s
        }
    } else if key == Key::Char('1') {
        Settings { color_scheme: ColorScheme::Green, ..s }
    } else if key == Key::Char('2') {
        Settings { color_scheme: ColorScheme::Blue, ..s }
    } else if key == Key::Char('3') {
        Settings { color_scheme: ColorScheme::Red, ..s }
    } else if key == Key::Char('4') {
        Settings { color_scheme: ColorScheme::Purple, ..s }
    } else if key == Key::Char('5') {
        Settings { color_scheme: ColorScheme::Cyan, ..s }
    } else if key == Key::Char('6') {
        Settings { color_scheme: ColorScheme::Rainbow, ..s }
    } else {
        s
    }
}

impl Settings {
    /// Apply one key event. Returns whether the key requests termination;
    /// otherwise the settings move to exactly `spec_apply_key` of the old
    /// value.
    pub fn apply_key(&mut self, key: Key, ctrl: bool) -> (quit: bool)
        requires
            old(self).wf(),
        ensures
            quit == spec_is_quit(key, ctrl),
            *final(self) == spec_apply_key(*old(self), key, ctrl),
            final(self).wf(),
    {
        proof {
            lemma_apply_key_clamps(*self, key, ctrl);
        }
        if matches!(key, Key::Char('q')) || matches!(key, Key::Esc) || matches!(key, Key::Enter)
            || matches!(key, Key::Char(' '))
            || (ctrl && (matches!(key, Key::Char('c')) || matches!(key, Key::Char('d'))
                || matches!(key, Key::Char('z'))))
        {
            return true;
        }
        match key {
            Key::Up => {
                self.frame_delay_ms = if self.frame_delay_ms >= 10 { self.frame_delay_ms - 5 } else { 5 };
            },
            Key::Down => {
                self.frame_delay_ms = if self.frame_delay_ms >= 95 { 100 } else { self.frame_delay_ms + 5 };
            },
            Key::Right => {
                self.density_pct = if self.density_pct >= 95 { 100 } else { self.density_pct + 5 };
                self.spawns_per_frame = if self.spawns_per_frame >= 20 { 20 } else { self.spawns_per_frame + 1 };
            },
            Key::Left => {
                self.density_pct = if self.density_pct >= 10 { self.density_pct - 5 } else { 5 };
                self.spawns_per_frame = if self.spawns_per_frame >= 2 { self.spawns_per_frame - 1 } else { 1 };
            },
            Key::Char('+') | Key::Char('=') => {
                let new_max: usize = if self.max_length >= 45 { 50 } else { self.max_length + 5 };
                self.max_length = new_max;
                if self.min_length > new_max {
                    self.min_length = new_max;
                }
            },
            Key::Char('-') => {
                let new_max: usize = if self.max_length >= 10 { self.max_length - 5 } else { 5 };
                self.max_length = new_max;
                if self.min_length > new_max {
                    self.min_length = new_max;
                }
            },
            Key::Char('1') => { self.color_scheme = ColorScheme::Green; },
            Key::Char('2') => { self.color_scheme = ColorScheme::Blue; },
            Key::Char('3') => { self.color_scheme = ColorScheme::Red; },
            Key::Char('4') => { self.color_scheme = ColorScheme::Purple; },
            Key::Char('5') => { self.color_scheme = ColorScheme::Cyan; },
            Key::Char('6') => { self.color_scheme = ColorScheme::Rainbow; },
            _ => {},
        }
        false
    }
}

/// The clamping law: from any well-formed settings value, one key event
/// yields well-formed settings again, with the density still in [5, 100]%
/// after a density key, the frame delay still in [5, 100] ms after a speed
/// key, and the length range never inverted. Applied repeatedly, no
/// adjustment can therefore ever escape its bounds.
pub proof fn lemma_apply_key_clamps(s: Settings, key: Key, ctrl: bool)
    requires
        s.wf(),
    ensures
        spec_apply_key(s, key, ctrl).wf(),
        spec_apply_key(s, key, ctrl).density_pct <= 100,
        key == Key::Left ==> spec_apply_key(s, key, ctrl).density_pct >= 5,
        key == Key::Up ==> spec_apply_key(s, key, ctrl).frame_delay_ms >= 5,
        key == Key::Down ==> spec_apply_key(s, key, ctrl).frame_delay_ms <= 100,
        spec_apply_key(s, key, ctrl).min_length <= spec_apply_key(s, key, ctrl).max_length,
{
}

} // verus!
