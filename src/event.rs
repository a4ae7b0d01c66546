//! Input events and the command each one means in the current mode.
use vstd::prelude::*;

verus! {

/// A key of the keyboard, as far as the launcher tells keys apart.
#[derive(Clone, Copy, Debug, PartialEq, Eq, Structural)]
pub enum KeyCode {
    Char(char),
    UpArrow,
    DownArrow,
    Backspace,
    Escape,
    Enter,
    Other,
}

/// The buttons and wheel state of a mouse event.
#[derive(Clone, Copy, Debug, PartialEq, Eq, Structural)]
pub struct MouseButtons {
    pub left: bool,
    pub middle: bool,
    pub right: bool,
    pub vert_wheel: bool,
    pub horz_wheel: bool,
    pub wheel_positive: bool,
}

impl MouseButtons {
    /// Exactly the left button, nothing else.
    pub open spec fn spec_is_left_only(&self) -> bool {
        self.left && !self.middle && !self.right && !self.vert_wheel && !self.horz_wheel && !self.wheel_positive
    }

    /// No button at all.
    pub open spec fn spec_is_none(&self) -> bool {
        !self.left && !self.middle && !self.right && !self.vert_wheel && !self.horz_wheel && !self.wheel_positive
    }

    /// Exactly the left button, nothing else.
    pub fn is_left_only(&self) -> (r: bool)
        ensures
            r == self.spec_is_left_only(),
    {
        self.left && !self.middle && !self.right && !self.vert_wheel && !self.horz_wheel && !self.wheel_positive
    }

    /// No button at all.
    pub fn is_none(&self) -> (r: bool)
        ensures
            r == self.spec_is_none(),
    {
        !self.left && !self.middle && !self.right && !self.vert_wheel && !self.horz_wheel && !self.wheel_positive
    }
}

/// An input event. `ctrl_only` holds when the modifiers are exactly Ctrl;
/// `y` is the screen row of the pointer, the header being row 0.
#[derive(Clone, Copy, Debug, PartialEq, Eq, Structural)]
pub enum InputEvent {
    Key { key: KeyCode, ctrl_only: bool },
    Mouse { y: u16, buttons: MouseButtons },
    Resized { rows: usize },
    Other,
}

/// What an event asks the launcher to do.
#[derive(Clone, Copy, Debug, PartialEq, Eq, Structural)]
pub enum Command {
    /// Launch the visible row at this offset from the top row.
    QuickSelect(usize),
    MoveDown,
    MoveUp,
    StartFilter,
    DeleteChar,
    Cancel,
    AppendChar(char),
    /// A wheel turn; `up` for a positive turn.
    Wheel { y: u16, up: bool },
    /// A pointer event that is no wheel turn.
    Pointer { y: u16, buttons: MouseButtons },
    Launch,
    Resize(usize),
    Ignore,
}

/// The offset of the quick-select digit `c`, for `'1'..='9'`.
pub open spec fn digit_offset(c: char) -> Option<usize> {
    if '1' <= c && c <= '9' {
        Some((c as u32 - '1' as u32) as usize)
    } else {
        None
    }
}

fn quick_select_offset(c: char) -> (r: Option<usize>)
    ensures
        r == digit_offset(c),
{
    if '1' <= c && c <= '9' {
        Some((c as u32 - '1' as u32) as usize)
    } else {
        None
    }
}

/// The command that `ev` means; `filtering` tells whether the filter text is
/// being typed. The first rule that applies decides.
pub open spec fn command_of(ev: InputEvent, filtering: bool) -> Command {
    match ev {
        InputEvent::Key { key, ctrl_only } => match key {
            KeyCode::Char(c) => {
                if !filtering && digit_offset(c) is Some {
                    Command::QuickSelect(digit_offset(c)->0)
                } else if !filtering && c == 'j' {
                    Command::MoveDown
                } else if !filtering && c == 'k' {
                    Command::MoveUp
                } else if ctrl_only && c == 'P' {
                    Command::MoveUp
                } else if ctrl_only && c == 'N' {
                    Command::MoveDown
                } else if !filtering && c == '/' {
                    Command::StartFilter
                } else if ctrl_only && c == 'G' {
                    Command::Cancel
                } else if filtering {
                    Command::AppendChar(c)
                } else {
                    Command::Ignore
                }
            },
            KeyCode::Backspace => Command::DeleteChar,
            KeyCode::Escape => Command::Cancel,
            KeyCode::UpArrow => Command::MoveUp,
            KeyCode::DownArrow => Command::MoveDown,
            KeyCode::Enter => Command::Launch,
            KeyCode::Other => Command::Ignore,
        },
        InputEvent::Mouse { y, buttons } => {
            if buttons.vert_wheel {
                Command::Wheel { y, up: buttons.wheel_positive }
            } else {
                Command::Pointer { y, buttons }
            }
        },
        InputEvent::Resized { rows } => Command::Resize(rows),
        InputEvent::Other => Command::Ignore,
    }
}

/// The command that `ev` means; `filtering` tells whether the filter text is
/// being typed.
pub fn decode(ev: &InputEvent, filtering: bool) -> (r: Command)
    ensures
        r == command_of(*ev, filtering),
{
    match *ev {
        InputEvent::Key { key, ctrl_only } => match key {
            KeyCode::Char(c) => {
                let offset = quick_select_offset(c);
                if !filtering && offset.is_some() {
                    Command::QuickSelect(offset.unwrap())
                } else if !filtering && c == 'j' {
                    Command::MoveDown
                } else if !filtering && c == 'k' {
                    Command::MoveUp
                } else if ctrl_only && c == 'P' {
                    Command::MoveUp
                } else if ctrl_only && c == 'N' {
                    Command::MoveDown
                } else if !filtering && c == '/' {
                    Command::StartFilter
                } else if ctrl_only && c == 'G' {
                    Command::Cancel
                } else if filtering {
                    Command::AppendChar(c)
                } else {
                    Command::Ignore
                }
            },
            KeyCode::Backspace => Command::DeleteChar,
            KeyCode::Escape => Command::Cancel,
            KeyCode::UpArrow => Command::MoveUp,
            KeyCode::DownArrow => Command::MoveDown,
            KeyCode::Enter => Command::Launch,
            KeyCode::Other => Command::Ignore,
        },
        InputEvent::Mouse { y, buttons } => {
            if buttons.vert_wheel {
                Command::Wheel { y, up: buttons.wheel_positive }
            } else {
                Command::Pointer { y, buttons }
            }
        },
        InputEvent::Resized { rows } => Command::Resize(rows),
        InputEvent::Other => Command::Ignore,
    }
}

} // verus!
