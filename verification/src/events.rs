//! Commands on the view state, the keys that give them, and what the event
//! loop is to do after each event.

use vstd::prelude::*;

use crate::display::DisplayInfo;
use crate::geometry::{MIN_MAGNIFY, UNIT};

verus! {

/// The steps by which commands change the view, in fixed point.
#[derive(Clone, Copy, Debug, PartialEq, Eq, Structural)]
pub struct Config {
    /// What one zoom command adds to or takes from the magnification.
    pub magnify_step: u32,
    /// The part of the clip size by which one pan command moves the centre.
    pub move_step_ratio: u32,
}

impl Default for Config {
    /// A tenth of magnification per zoom, a twentieth of the clip per pan.
    fn default() -> (config: Config)
        ensures
            config == (Config { magnify_step: 100, move_step_ratio: 50 }),
    {
        Config { magnify_step: 100, move_step_ratio: 50 }
    }
}

/// What the user can ask for.
#[derive(Debug, PartialEq, Eq)]
pub enum Command {
    ZoomIn,
    ZoomOut,
    PanLeft,
    PanRight,
    PanUp,
    PanDown,
    OpenFile(String),
    ToggleHelp,
    Quit,
}

/// How far one pan command moves the centre along an axis whose clip has
/// extent `clip`: the ratio's share of it, rounded down.
pub open spec fn pan_step(clip: i64, ratio: u32) -> int {
    (clip * ratio) / (UNIT as int)
}

/// Whether the view can move towards the origin: the clip, moved by one
/// step, must still begin strictly inside the image.
pub open spec fn can_pan_back(center: i64, clip: i64, ratio: u32) -> bool {
    clip > 0 && 2 * center - 2 * pan_step(clip, ratio) - clip > 0
}

/// Whether the view can move away from the origin along an axis of `size`
/// pixels: the clip, moved by one step, must still end strictly inside the
/// image.
pub open spec fn can_pan_forth(center: i64, clip: i64, ratio: u32, size: u32) -> bool {
    clip > 0 && 2 * center + 2 * pan_step(clip, ratio) + clip < 2 * size * UNIT
}

/// The centre after a pan towards the origin; unchanged at the boundary.
pub open spec fn panned_back(center: i64, clip: i64, ratio: u32) -> i64 {
    if can_pan_back(center, clip, ratio) {
        (center - pan_step(clip, ratio)) as i64
    } else {
        center
    }
}

/// The centre after a pan away from the origin; unchanged at the boundary.
pub open spec fn panned_forth(center: i64, clip: i64, ratio: u32, size: u32) -> i64 {
    if can_pan_forth(center, clip, ratio, size) {
        (center + pan_step(clip, ratio)) as i64
    } else {
        center
    }
}

/// The magnification after zooming in; unchanged where the sum would not
/// fit the field.
pub open spec fn zoomed_in(magnify: u32, step: u32) -> u32 {
    if magnify + step <= u32::MAX { (magnify + step) as u32 } else { magnify }
}

/// The magnification after zooming out; unchanged where the result would
/// fall below the minimum.
pub open spec fn zoomed_out(magnify: u32, step: u32) -> u32 {
    if magnify >= MIN_MAGNIFY + step { (magnify - step) as u32 } else { magnify }
}

/// The view state that `command` makes of `info`.
pub open spec fn apply_spec(info: DisplayInfo, command: Command, config: Config) -> DisplayInfo {
    match command {
        Command::ZoomIn => DisplayInfo {
            magnify: zoomed_in(info.magnify, config.magnify_step),
            ..info
        },
        Command::ZoomOut => DisplayInfo {
            magnify: zoomed_out(info.magnify, config.magnify_step),
            ..info
        },
        Command::PanLeft => DisplayInfo {
            center: (
                panned_back(info.center.0, info.clip_size.0, config.move_step_ratio),
                info.center.1,
            ),
            ..info
        },
        Command::PanRight => DisplayInfo {
            center: (
                panned_forth(
                    info.center.0,
                    info.clip_size.0,
                    config.move_step_ratio,
                    info.img_size.0,
                ),
                info.center.1,
            ),
            ..info
        },
        Command::PanUp => DisplayInfo {
            center: (
                info.center.0,
                panned_back(info.center.1, info.clip_size.1, config.move_step_ratio),
            ),
            ..info
        },
        Command::PanDown => DisplayInfo {
            center: (
                info.center.0,
                panned_forth(
                    info.center.1,
                    info.clip_size.1,
                    config.move_step_ratio,
                    info.img_size.1,
                ),
            ),
            ..info
        },
        Command::OpenFile(path) => DisplayInfo {
            image_file_path: path,
            magnify: UNIT,
            center: (-1000i64, -1000i64),
            clip_size: (-1000i64, -1000i64),
            img_size: (0u32, 0u32),
            show_help: info.show_help,
        },
        Command::ToggleHelp => DisplayInfo { show_help: !info.show_help, ..info },
        Command::Quit => info,
    }
}

/// Panning stops at the boundary: where one more step to the left would
/// bring the clip's left edge to the image's edge or past it,
/// `center - step - clip / 2 <= 0`, the command leaves the view state as it
/// is. The same holds upwards.
pub proof fn lemma_pan_stops_at_boundary(info: DisplayInfo, config: Config)
    ensures
        2 * info.center.0 - 2 * pan_step(info.clip_size.0, config.move_step_ratio)
            - info.clip_size.0 <= 0 ==> apply_spec(info, Command::PanLeft, config) == info,
        2 * info.center.1 - 2 * pan_step(info.clip_size.1, config.move_step_ratio)
            - info.clip_size.1 <= 0 ==> apply_spec(info, Command::PanUp, config) == info,
{
}

/// A pan that is carried out keeps the clip strictly inside the image along
/// the axis of the move: after it the clip begins past the image's first
/// edge, or ends before its last.
pub proof fn lemma_pan_keeps_clip_inside(center: i64, clip: i64, ratio: u32, size: u32)
    ensures
        can_pan_back(center, clip, ratio) ==> 2 * panned_back(center, clip, ratio) - clip > 0,
        can_pan_forth(center, clip, ratio, size) ==> 2 * panned_forth(center, clip, ratio, size)
            + clip < 2 * size * UNIT,
{
    if clip > 0 {
        assert(0 <= clip * ratio <= clip * 0xffff_ffff) by (nonlinear_arith)
            requires clip > 0, 0 <= ratio <= 0xffff_ffff;
    }
}

/// One pan step along an axis.
fn step_of(clip: i64, ratio: u32) -> (step: i128)
    requires
        clip > 0,
    ensures
        step == pan_step(clip, ratio),
        0 <= step <= clip * 0xffff_ffff,
{
    assert(0 <= clip * ratio <= clip * 0xffff_ffff) by (nonlinear_arith)
        requires clip > 0, 0 <= ratio <= 0xffff_ffff;
    assert(clip * 0xffff_ffff <= 0x7fff_ffff_ffff_ffff * 0xffff_ffff) by (nonlinear_arith)
        requires clip <= 0x7fff_ffff_ffff_ffff;
    let product: i128 = (clip as i128) * (ratio as i128);
    product / 1000
}

/// Moves `center` one step towards the origin, if the clip stays inside.
fn pan_back(center: i64, clip: i64, ratio: u32) -> (out: i64)
    ensures
        out == panned_back(center, clip, ratio),
        out <= center,
        center > 0 ==> out > 0,
{
    if clip <= 0 {
        return center;
    }
    let step: i128 = step_of(clip, ratio);
    if 2 * (center as i128) - 2 * step - (clip as i128) > 0 {
        (center as i128 - step) as i64
    } else {
        center
    }
}

/// Moves `center` one step away from the origin, if the clip stays inside.
fn pan_forth(center: i64, clip: i64, ratio: u32, size: u32) -> (out: i64)
    ensures
        out == panned_forth(center, clip, ratio, size),
        out >= center,
        center < size * UNIT ==> out < size * UNIT,
{
    if clip <= 0 {
        return center;
    }
    let step: i128 = step_of(clip, ratio);
    if 2 * (center as i128) + 2 * step + (clip as i128) < 2 * (size as i128) * 1000 {
        (center as i128 + step) as i64
    } else {
        center
    }
}

/// Carries out `command` on `info`. Zooming moves the magnification by the
/// configured step and never below the minimum; panning moves the centre by
/// the configured share of the clip and never so far that the clip would
/// reach the image's edge; opening a file starts a fresh view of it.
pub fn apply(info: &mut DisplayInfo, command: Command, config: &Config)
    ensures
        *final(info) == apply_spec(*old(info), command, *config),
        old(info).wf() ==> final(info).wf(),
{
    match command {
        Command::ZoomIn => {
            if info.magnify <= u32::MAX - config.magnify_step {
                info.magnify = info.magnify + config.magnify_step;
            }
        },
        Command::ZoomOut => {
            if info.magnify as u64 >= MIN_MAGNIFY as u64 + config.magnify_step as u64 {
                info.magnify = info.magnify - config.magnify_step;
            }
        },
        Command::PanLeft => {
            info.center.0 = pan_back(info.center.0, info.clip_size.0, config.move_step_ratio);
        },
        Command::PanRight => {
            info.center.0 = pan_forth(
                info.center.0,
                info.clip_size.0,
                config.move_step_ratio,
                info.img_size.0,
            );
        },
        Command::PanUp => {
            info.center.1 = pan_back(info.center.1, info.clip_size.1, config.move_step_ratio);
        },
        Command::PanDown => {
            info.center.1 = pan_forth(
                info.center.1,
                info.clip_size.1,
                config.move_step_ratio,
                info.img_size.1,
            );
        },
        Command::OpenFile(path) => {
            info.image_file_path = path;
            info.magnify = UNIT;
            info.center = (-1000, -1000);
            info.clip_size = (-1000, -1000);
            info.img_size = (0, 0);
        },
        Command::ToggleHelp => {
            info.show_help = !info.show_help;
        },
        Command::Quit => {},
    }
}

/// The key of a key event, as far as the viewer tells keys apart.
#[derive(Clone, Copy, Debug, PartialEq, Eq, Structural)]
pub enum KeyCode {
    Char(char),
    Backspace,
    Delete,
    Enter,
    Left,
    Right,
    Home,
    End,
    Esc,
    Other,
}

/// The modifier keys held with a key: none, Control alone, Shift alone, or
/// anything else.
#[derive(Clone, Copy, Debug, PartialEq, Eq, Structural)]
pub enum KeyModifiers {
    Plain,
    Control,
    Shift,
    Other,
}

/// A key event; `pressed` tells a press from a repeat or a release.
#[derive(Clone, Copy, Debug, PartialEq, Eq, Structural)]
pub struct KeyEvent {
    pub code: KeyCode,
    pub modifiers: KeyModifiers,
    pub pressed: bool,
}

/// A terminal event: a key, or anything else (a resize, the mouse).
#[derive(Clone, Copy, Debug, PartialEq, Eq, Structural)]
pub enum Event {
    Key(KeyEvent),
    Other,
}

/// What the event loop does after an event.
#[derive(Clone, Copy, Debug, PartialEq, Eq, Structural)]
pub enum Reaction {
    /// Go on, and render again if the view state changed.
    Continue,
    /// Leave the viewer.
    Quit,
    /// Prompt for a file path, then apply `Command::OpenFile` with it.
    AskPath,
}

/// Whether `key` asks for the prompt for a file path: a pressed plain `o`.
pub open spec fn asks_path(key: KeyEvent) -> bool {
    key.pressed && key.modifiers == KeyModifiers::Plain && key.code == KeyCode::Char('o')
}

/// The command that the character `c` gives with no modifier held.
pub open spec fn plain_command(c: char) -> Option<Command> {
    if c == 'q' {
        Some(Command::Quit)
    } else if c == '+' {
        Some(Command::ZoomIn)
    } else if c == '-' {
        Some(Command::ZoomOut)
    } else if c == 'h' {
        Some(Command::PanLeft)
    } else if c == 'l' {
        Some(Command::PanRight)
    } else if c == 'k' {
        Some(Command::PanUp)
    } else if c == 'j' {
        Some(Command::PanDown)
    } else if c == 'y' {
        Some(Command::ToggleHelp)
    } else {
        None
    }
}

/// The command that `key` gives at once, if any. Only presses count. With
/// Control held `c` quits, with Shift held `+` zooms in; `o`, which needs a
/// path first, gives none here.
pub open spec fn key_command(key: KeyEvent) -> Option<Command> {
    if !key.pressed {
        None
    } else {
        match (key.modifiers, key.code) {
            (KeyModifiers::Plain, KeyCode::Char(c)) => plain_command(c),
            (KeyModifiers::Control, KeyCode::Char(c)) => if c == 'c' {
                Some(Command::Quit)
            } else {
                None
            },
            (KeyModifiers::Shift, KeyCode::Char(c)) => if c == '+' {
                Some(Command::ZoomIn)
            } else {
                None
            },
            _ => None,
        }
    }
}

/// The reaction to `key` and the view state it leaves.
pub open spec fn key_outcome(key: KeyEvent, info: DisplayInfo, config: Config) -> (Reaction, DisplayInfo) {
    if asks_path(key) {
        (Reaction::AskPath, info)
    } else {
        match key_command(key) {
            Some(Command::Quit) => (Reaction::Quit, info),
            Some(command) => (Reaction::Continue, apply_spec(info, command, config)),
            None => (Reaction::Continue, info),
        }
    }
}

/// The reaction to `event` and the view state it leaves: keys act as
/// [`key_outcome`] says, every other event changes nothing.
pub open spec fn event_outcome(event: Event, info: DisplayInfo, config: Config) -> (Reaction, DisplayInfo) {
    match event {
        Event::Key(key) => key_outcome(key, info, config),
        Event::Other => (Reaction::Continue, info),
    }
}

/// Reads a key as a command.
pub fn decode(key: KeyEvent) -> (command: Option<Command>)
    ensures
        command == key_command(key),
{
    if !key.pressed {
        return None;
    }
    match key.code {
        KeyCode::Char(c) => match key.modifiers {
            KeyModifiers::Plain => {
                if c == 'q' {
                    Some(Command::Quit)
                } else if c == '+' {
                    Some(Command::ZoomIn)
                } else if c == '-' {
                    Some(Command::ZoomOut)
                } else if c == 'h' {
                    Some(Command::PanLeft)
                } else if c == 'l' {
                    Some(Command::PanRight)
                } else if c == 'k' {
                    Some(Command::PanUp)
                } else if c == 'j' {
                    Some(Command::PanDown)
                } else if c == 'y' {
                    Some(Command::ToggleHelp)
                } else {
                    None
                }
            },
            KeyModifiers::Control => if c == 'c' {
                Some(Command::Quit)
            } else {
                None
            },
            KeyModifiers::Shift => if c == '+' {
                Some(Command::ZoomIn)
            } else {
                None
            },
            KeyModifiers::Other => None,
        },
        _ => None,
    }
}

/// Acts on a key: carries out the command it gives, or asks the event loop
/// to quit or to prompt for a path.
pub fn handle_key_events(key: KeyEvent, info: &mut DisplayInfo, config: &Config) -> (reaction: Reaction)
    ensures
        (reaction, *final(info)) == key_outcome(key, *old(info), *config),
        old(info).wf() ==> final(info).wf(),
{
    if key.pressed {
        match (key.modifiers, key.code) {
            (KeyModifiers::Plain, KeyCode::Char(c)) => {
                if c == 'o' {
                    return Reaction::AskPath;
                }
            },
            _ => {},
        }
    }
    match decode(key) {
        Some(Command::Quit) => Reaction::Quit,
        Some(command) => {
            apply(info, command, config);
            Reaction::Continue
        },
        None => Reaction::Continue,
    }
}

/// Acts on a terminal event: on a key as [`handle_key_events`] does, on
/// nothing else.
pub fn handle_events(event: Event, info: &mut DisplayInfo, config: &Config) -> (reaction: Reaction)
    ensures
        (reaction, *final(info)) == event_outcome(event, *old(info), *config),
        old(info).wf() ==> final(info).wf(),
{
    match event {
        Event::Key(key) => handle_key_events(key, info, config),
        Event::Other => Reaction::Continue,
    }
}

} // verus!
