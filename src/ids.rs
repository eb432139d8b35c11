//! Identifiers of sounds, music and input actions, as named in config files:
//! a group (the enum's name) and an item (the variant's name).
use vstd::prelude::*;

verus! {

/// Identifies a sound effect.
pub trait SfxId {
    /// The name of the group, the enum.
    fn group_id(&self) -> &'static str;
    /// The name of the item, the variant.
    fn item_id(&self) -> &'static str;
}

/// Identifies a music track.
pub trait MusicId {
    /// The name of the group, the enum.
    fn group_id(&self) -> &'static str;
    /// The name of the item, the variant.
    fn item_id(&self) -> &'static str;
}

/// Identifies an action that the player can bind keys or buttons to.
pub trait InputAction {
    /// The name of the group, the enum; config files list bindings under it.
    fn group_id(&self) -> &'static str;
    /// The name of the item, the variant.
    fn item_id(&self) -> &'static str;
}

#[derive(Clone, Copy, Debug, PartialEq, Eq, Hash, Structural)]
pub enum SfxMonster {
    Idle,
    Aggro,
    Hit,
    Death,
}

impl SfxId for SfxMonster {
    fn group_id(&self) -> &'static str {
        "SfxMonster"
    }

    fn item_id(&self) -> &'static str {
        match self {
            SfxMonster::Idle => "Idle",
            SfxMonster::Aggro => "Aggro",
            SfxMonster::Hit => "Hit",
            SfxMonster::Death => "Death",
        }
    }
}

#[derive(Clone, Copy, Debug, PartialEq, Eq, Hash, Structural)]
pub enum BackgroundMusic {
    ExistentialHexMan,
    HexagonalCubes,
}

impl MusicId for BackgroundMusic {
    fn group_id(&self) -> &'static str {
        "BackgroundMusic"
    }

    fn item_id(&self) -> &'static str {
        match self {
            BackgroundMusic::ExistentialHexMan => "ExistentialHexMan",
            BackgroundMusic::HexagonalCubes => "HexagonalCubes",
        }
    }
}

/// Player movement actions.
#[derive(Clone, Copy, Debug, PartialEq, Eq, Hash, Structural)]
pub enum MovementInput {
    Forward,
    Backward,
    Left,
    Right,
    Up,
    Down,
    /// Faster movement while active.
    Sprint,
}

impl InputAction for MovementInput {
    fn group_id(&self) -> &'static str {
        "MovementInput"
    }

    fn item_id(&self) -> &'static str {
        match self {
            MovementInput::Forward => "Forward",
            MovementInput::Backward => "Backward",
            MovementInput::Left => "Left",
            MovementInput::Right => "Right",
            MovementInput::Up => "Up",
            MovementInput::Down => "Down",
            MovementInput::Sprint => "Sprint",
        }
    }
}

/// Day-night cycle controls, for debugging.
#[derive(Clone, Copy, Debug, PartialEq, Eq, Hash, Structural)]
pub enum DayNightInput {
    PauseTime,
    SpeedUpTime,
    SpeedDownTime,
    /// Sets the time of day back by three hours.
    SetTimeBack,
    /// Sets the time of day forward by three hours.
    SetTimeForward,
}

impl InputAction for DayNightInput {
    fn group_id(&self) -> &'static str {
        "DayNightInput"
    }

    fn item_id(&self) -> &'static str {
        match self {
            DayNightInput::PauseTime => "PauseTime",
            DayNightInput::SpeedUpTime => "SpeedUpTime",
            DayNightInput::SpeedDownTime => "SpeedDownTime",
            DayNightInput::SetTimeBack => "SetTimeBack",
            DayNightInput::SetTimeForward => "SetTimeForward",
        }
    }
}

/// The phases of the application.
#[derive(Clone, Copy, Debug, PartialEq, Eq, Hash, Structural)]
pub enum AppState {
    Loading,
    Game,
}

impl Default for AppState {
    fn default() -> (s: AppState)
        ensures
            s == AppState::Loading,
    {
        AppState::Loading
    }
}

/// Which origin lines the debug view draws.
#[derive(Clone, Copy, Debug, PartialEq, Eq, Hash, Structural)]
pub enum OriginLinesDisplay {
    /// None at all.
    Disabled,
    /// Lines along the positive axes.
    Positive,
    /// Lines along both the positive and the negative axes.
    Both,
}

impl Default for OriginLinesDisplay {
    fn default() -> (d: OriginLinesDisplay)
        ensures
            d == OriginLinesDisplay::Positive,
    {
        OriginLinesDisplay::Positive
    }
}

/// The axis a decoration spins about; `Chain` spins about all three in turn.
#[derive(Clone, Copy, Debug, PartialEq, Eq, Hash, Structural)]
pub enum RotAxis {
    X,
    Y,
    Z,
    Chain,
}

/// Marks the player entity.
#[derive(Clone, Copy, Debug, Default, PartialEq, Eq, Hash, Structural)]
pub struct Player;

} // verus!
