//! Choosing who plays: the start menu's modes and its cursor.
use vstd::prelude::*;
use crate::interaction::PressKind;
use crate::types::Color;

verus! {

/// Who plays White and who plays Black.
#[derive(Clone, Copy, Debug, PartialEq, Eq, Structural)]
pub enum Mode {
    HumanVsHuman,
    HumanVsComputer,
    ComputerVsHuman,
    ComputerVsComputer,
}

/// The number of entries of the menu.
pub const MODES: usize = 4;

/// The mode in the `i`-th place of the menu; the last one for any place
/// beyond it.
pub open spec fn spec_mode_at(i: usize) -> Mode {
    if i == 0 {
        Mode::HumanVsHuman
    } else if i == 1 {
        Mode::HumanVsComputer
    } else if i == 2 {
        Mode::ComputerVsHuman
    } else {
        Mode::ComputerVsComputer
    }
}

/// The mode in the `i`-th place of the menu.
#[verifier::when_used_as_spec(spec_mode_at)]
pub fn mode_at(i: usize) -> (mode: Mode)
    ensures
        mode == spec_mode_at(i),
{
    if i == 0 {
        Mode::HumanVsHuman
    } else if i == 1 {
        Mode::HumanVsComputer
    } else if i == 2 {
        Mode::ComputerVsHuman
    } else {
        Mode::ComputerVsComputer
    }
}

impl Mode {
    /// What `players` gives, for use in contracts.
    pub open spec fn spec_players(self) -> ([bool; 2], Option<Color>) {
        match self {
            Mode::HumanVsHuman => ([false, false], Some(Color::White)),
            Mode::HumanVsComputer => ([false, true], Some(Color::White)),
            Mode::ComputerVsHuman => ([true, false], Some(Color::Black)),
            Mode::ComputerVsComputer => ([true, true], None),
        }
    }

    /// Whether White and whether Black is played by the search, and the
    /// colour from whose side the game is shown: that of the person, White's
    /// with two persons, none with none.
    pub fn players(self) -> (r: ([bool; 2], Option<Color>))
        ensures
            r.0@ == self.spec_players().0@,
            r.1 == self.spec_players().1,
    {
        match self {
            Mode::HumanVsHuman => ([false, false], Some(Color::White)),
            Mode::HumanVsComputer => ([false, true], Some(Color::White)),
            Mode::ComputerVsHuman => ([true, false], Some(Color::Black)),
            Mode::ComputerVsComputer => ([true, true], None),
        }
    }
}

/// What a key press does to the menu.
#[derive(Clone, Copy, Debug, PartialEq, Eq, Structural)]
pub enum MenuStep {
    /// The cursor stays where it is.
    Stay,
    /// The cursor moves to this entry.
    Moved { selected: usize },
    /// The game starts in this mode.
    Start { mode: Mode },
}

/// What `menu_step` gives, for use in contracts.
pub open spec fn spec_menu_step(selected: usize, key: u8, press: PressKind) -> MenuStep {
    if press == PressKind::Long {
        MenuStep::Stay
    } else if key == 2 {
        if selected < 3 {
            MenuStep::Moved { selected: (selected + 1) as usize }
        } else if selected > 3 {
            MenuStep::Moved { selected: 3 }
        } else {
            MenuStep::Stay
        }
    } else if key == 3 {
        if 0 < selected {
            MenuStep::Moved { selected: (selected - 1) as usize }
        } else {
            MenuStep::Stay
        }
    } else if key == 1 {
        MenuStep::Start { mode: mode_at(selected) }
    } else {
        MenuStep::Stay
    }
}

/// What a press of a key does while the menu shows, the cursor standing on
/// entry `selected`: a short press of the second key moves the cursor down, to
/// the last entry at most, and one of the third moves it up, to the first at
/// most; a short press of the first key starts the game. Long presses do
/// nothing.
#[verifier::when_used_as_spec(spec_menu_step)]
pub fn menu_step(selected: usize, key: u8, press: PressKind) -> (step: MenuStep)
    ensures
        step == spec_menu_step(selected, key, press),
{
    match press {
        PressKind::Long => MenuStep::Stay,
        PressKind::Short => {
            if key == 2 {
                if selected < 3 {
                    MenuStep::Moved { selected: selected + 1 }
                } else if selected > 3 {
                    MenuStep::Moved { selected: 3 }
                } else {
                    MenuStep::Stay
                }
            } else if key == 3 {
                if 0 < selected {
                    MenuStep::Moved { selected: selected - 1 }
                } else {
                    MenuStep::Stay
                }
            } else if key == 1 {
                MenuStep::Start { mode: mode_at(selected) }
            } else {
                MenuStep::Stay
            }
        },
    }
}

/// What `left_pane_width` gives, for use in contracts.
pub open spec fn spec_left_pane_width(total: u16, picture: u16) -> u16 {
    let share = (total * 48 / 100) as u16;
    let least = if picture + 16 > u16::MAX {
        u16::MAX
    } else {
        (picture + 16) as u16
    };
    if share < least {
        least
    } else {
        share
    }
}

/// The width of the left pane of the menu on a display `total` pixels wide:
/// 48 hundredths of the display, but at least the width of the picture and a
/// margin of 16.
#[verifier::when_used_as_spec(spec_left_pane_width)]
pub fn left_pane_width(total: u16, picture: u16) -> (width: u16)
    ensures
        width == spec_left_pane_width(total, picture),
{
    let share: u16 = ((total as u32 * 48) / 100) as u16;
    let least = picture.saturating_add(16);
    if share < least {
        least
    } else {
        share
    }
}

} // verus!
