//! From key presses to what the player asks for.
use vstd::prelude::*;

verus! {

/// How long a key was held.
#[derive(Clone, Copy, Debug, PartialEq, Eq, Structural)]
pub enum PressKind {
    Short,
    Long,
}

/// What the player asks for while a game is on.
#[derive(Clone, Copy, Debug, PartialEq, Eq, Structural)]
pub enum Action {
    MoveLeft,
    MoveRight,
    MoveUp,
    MoveDown,
    ToggleSelect,
    SubmitMove,
}

/// The piece that the player picks for a promotion.
#[derive(Clone, Copy, Debug, PartialEq, Eq, Structural)]
pub enum PromotionChoice {
    Rook,
    Knight,
    Bishop,
    Queen,
}

/// The number of keys. They are numbered from one.
pub const KEYS: u8 = 4;

/// What `key_action` gives, for use in contracts.
pub open spec fn spec_key_action(key: u8, press: PressKind) -> Option<Action> {
    if key == 1 {
        match press {
            PressKind::Short => Some(Action::MoveLeft),
            PressKind::Long => Some(Action::ToggleSelect),
        }
    } else if key == 2 {
        match press {
            PressKind::Short => Some(Action::MoveDown),
            PressKind::Long => Some(Action::SubmitMove),
        }
    } else if key == 3 {
        match press {
            PressKind::Short => Some(Action::MoveUp),
            PressKind::Long => None,
        }
    } else if key == 4 {
        match press {
            PressKind::Short => Some(Action::MoveRight),
            PressKind::Long => None,
        }
    } else {
        None
    }
}

/// What a press of a key means during play. The first key moves the cursor
/// left and, held long, selects; the second moves it down and, held long,
/// submits the move; the third moves it up and the fourth right, and a long
/// press of either means nothing.
#[verifier::when_used_as_spec(spec_key_action)]
pub fn key_action(key: u8, press: PressKind) -> (action: Option<Action>)
    ensures
        action == spec_key_action(key, press),
{
    if key == 1 {
        match press {
            PressKind::Short => Some(Action::MoveLeft),
            PressKind::Long => Some(Action::ToggleSelect),
        }
    } else if key == 2 {
        match press {
            PressKind::Short => Some(Action::MoveDown),
            PressKind::Long => Some(Action::SubmitMove),
        }
    } else if key == 3 {
        match press {
            PressKind::Short => Some(Action::MoveUp),
            PressKind::Long => None,
        }
    } else if key == 4 {
        match press {
            PressKind::Short => Some(Action::MoveRight),
            PressKind::Long => None,
        }
    } else {
        None
    }
}

/// What `key_promotion` gives, for use in contracts.
pub open spec fn spec_key_promotion(key: u8, press: PressKind) -> Option<PromotionChoice> {
    if press == PressKind::Long {
        None
    } else if key == 1 {
        Some(PromotionChoice::Rook)
    } else if key == 2 {
        Some(PromotionChoice::Knight)
    } else if key == 3 {
        Some(PromotionChoice::Bishop)
    } else if key == 4 {
        Some(PromotionChoice::Queen)
    } else {
        None
    }
}

/// What a press of a key means while a promotion is asked for: a short
/// press of the four keys picks rook, knight, bishop and queen; a long press
/// picks nothing.
#[verifier::when_used_as_spec(spec_key_promotion)]
pub fn key_promotion(key: u8, press: PressKind) -> (choice: Option<PromotionChoice>)
    ensures
        choice == spec_key_promotion(key, press),
{
    match press {
        PressKind::Long => None,
        PressKind::Short => {
            if key == 1 {
                Some(PromotionChoice::Rook)
            } else if key == 2 {
                Some(PromotionChoice::Knight)
            } else if key == 3 {
                Some(PromotionChoice::Bishop)
            } else if key == 4 {
                Some(PromotionChoice::Queen)
            } else {
                None
            }
        },
    }
}

/// Whether `readings` are what the keys one, two and so on report, each
/// asked once with `read_key`.
pub open spec fn reported<F: FnMut(u8) -> Option<PressKind>>(
    read_key: F,
    readings: Seq<Option<PressKind>>,
) -> bool {
    forall|i: int|
        0 <= i < readings.len() ==> call_ensures(read_key, ((i + 1) as u8,), #[trigger] readings[i])
}

/// Whether `action` is what polling makes of `readings`, the reports of the
/// keys that it asked: the keys are asked in their order up to the first that
/// reports a press, and that press decides; four silent keys mean no action.
pub open spec fn action_polled(readings: Seq<Option<PressKind>>, action: Option<Action>) -> bool {
    &&& 1 <= readings.len() <= KEYS
    &&& forall|i: int| 0 <= i < readings.len() - 1 ==> (#[trigger] readings[i]) is None
    &&& match readings.last() {
        Some(kind) => action == key_action(readings.len() as u8, kind),
        None => readings.len() == KEYS && action is None,
    }
}

/// Asks the keys in their order for a press and gives the action that the
/// first reported press means.
pub fn poll_action<F: FnMut(u8) -> Option<PressKind>>(read_key: F) -> (action: Option<Action>)
    requires
        forall|key: u8| 1 <= key <= KEYS ==> call_requires(read_key, (key,)),
    ensures
        exists|readings: Seq<Option<PressKind>>|
            reported(read_key, readings) && #[trigger] action_polled(readings, action),
{
    let mut read = read_key;
    let mut key: u8 = 1;
    let mut action: Option<Action> = None;
    let ghost mut seen: Seq<Option<PressKind>> = Seq::empty();
    while key <= KEYS
        invariant_except_break
            action is None,
            seen.len() == key - 1,
            forall|i: int| 0 <= i < seen.len() ==> (#[trigger] seen[i]) is None,
        invariant
            1 <= key <= KEYS + 1,
            read == read_key,
            forall|k: u8| 1 <= k <= KEYS ==> call_requires(read_key, (k,)),
            reported(read_key, seen),
        ensures
            reported(read_key, seen),
            action_polled(seen, action),
        decreases KEYS + 1 - key,
    {
        let press = read(key);
        proof {
            assert(call_ensures(read_key, (key,), press));
            seen = seen.push(press);
        }
        if let Some(kind) = press {
            action = key_action(key, kind);
            break ;
        }
        if key == KEYS {
            break ;
        }
        key += 1;
    }
    action
}

/// Whether `choice` is what polling for a promotion makes of `readings`,
/// the reports of the keys that it asked: the keys are asked in their order up
/// to the first that reports a short press, and that press decides; without
/// one nothing is picked.
pub open spec fn promotion_polled(
    readings: Seq<Option<PressKind>>,
    choice: Option<PromotionChoice>,
) -> bool {
    &&& 1 <= readings.len() <= KEYS
    &&& forall|i: int|
        0 <= i < readings.len() - 1 ==> (#[trigger] readings[i]) != Some(PressKind::Short)
    &&& if readings.last() == Some(PressKind::Short) {
        choice == key_promotion(readings.len() as u8, PressKind::Short)
    } else {
        readings.len() == KEYS && choice is None
    }
}

/// Asks the keys in their order for a press and gives the piece that the
/// first reported short press picks.
pub fn poll_promotion_choice<F: FnMut(u8) -> Option<PressKind>>(read_key: F) -> (choice: Option<
    PromotionChoice,
>)
    requires
        forall|key: u8| 1 <= key <= KEYS ==> call_requires(read_key, (key,)),
    ensures
        exists|readings: Seq<Option<PressKind>>|
            reported(read_key, readings) && #[trigger] promotion_polled(readings, choice),
{
    let mut read = read_key;
    let mut key: u8 = 1;
    let mut choice: Option<PromotionChoice> = None;
    let ghost mut seen: Seq<Option<PressKind>> = Seq::empty();
    while key <= KEYS
        invariant_except_break
            choice is None,
            seen.len() == key - 1,
            forall|i: int| 0 <= i < seen.len() ==> (#[trigger] seen[i]) != Some(PressKind::Short),
        invariant
            1 <= key <= KEYS + 1,
            read == read_key,
            forall|k: u8| 1 <= k <= KEYS ==> call_requires(read_key, (k,)),
            reported(read_key, seen),
        ensures
            reported(read_key, seen),
            promotion_polled(seen, choice),
        decreases KEYS + 1 - key,
    {
        let press = read(key);
        proof {
            assert(call_ensures(read_key, (key,), press));
            seen = seen.push(press);
        }
        if let Some(kind) = press {
            if let PressKind::Short = kind {
                choice = key_promotion(key, kind);
                break ;
            }
        }
        if key == KEYS {
            break ;
        }
        key += 1;
    }
    choice
}

} // verus!
