use vstd::prelude::*;

use crate::board::Player;

verus! {

/// The look of the application; the styles below select within it.
#[derive(Clone, Copy, Debug, Default)]
pub struct Theme;

/// The colour of a text.
#[derive(Clone, Copy, Debug, Default, PartialEq, Eq, Structural)]
pub enum Color {
    #[default]
    Primary,
    PlayerX,
    PlayerO,
    Human,
    AI,
    Winner,
}

impl Color {
    pub open spec fn for_player_spec(p: Player) -> Color {
        match p {
            Player::X => Color::PlayerX,
            Player::O => Color::PlayerO,
            Player::Human => Color::Human,
            Player::AI => Color::AI,
        }
    }

    /// The colour of `p`'s marks.
    pub fn for_player(p: Player) -> (r: Color)
        ensures
            r == Color::for_player_spec(p),
    {
        match p {
            Player::X => Color::PlayerX,
            Player::O => Color::PlayerO,
            Player::Human => Color::Human,
            Player::AI => Color::AI,
        }
    }
}

/// The frame of a container.
#[derive(Clone, Copy, Debug, Default, PartialEq, Eq, Structural)]
pub enum Container {
    #[default]
    Default,
    Bordered,
}

/// The background of a button.
#[derive(Clone, Copy, Debug, Default, PartialEq, Eq, Structural)]
pub enum Background {
    #[default]
    Primary,
    Secondary,
}

/// The look of a radio button.
#[derive(Clone, Copy, Debug, Default, PartialEq, Eq, Structural)]
pub enum Radio {
    #[default]
    Primary,
    Secondary,
}

} // verus!
