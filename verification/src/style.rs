//! The colours of the lobby window.

use vstd::prelude::*;

verus! {

/// A colour by its red, green and blue parts, each from 0 to 255.
#[derive(Clone, Copy, Debug, PartialEq, Eq, Structural)]
pub struct Rgb {
    pub red: u8,
    pub green: u8,
    pub blue: u8,
}

/// How a container is drawn. A part that is `None` is left as the toolkit
/// has it.
#[derive(Clone, Copy, Debug, PartialEq, Eq, Structural)]
pub struct ContainerStyle {
    pub background: Option<Rgb>,
    pub text_color: Option<Rgb>,
    pub border_color: Option<Rgb>,
}

impl Rgb {
    pub open spec fn spec_black() -> Rgb {
        Rgb { red: 0, green: 0, blue: 0 }
    }

    pub open spec fn spec_white() -> Rgb {
        Rgb { red: 255, green: 255, blue: 255 }
    }

    pub open spec fn spec_red() -> Rgb {
        Rgb { red: 255, green: 0, blue: 0 }
    }

    #[verifier::when_used_as_spec(spec_black)]
    pub fn black() -> (r: Rgb)
        ensures
            r == Rgb::spec_black(),
    {
        Rgb { red: 0, green: 0, blue: 0 }
    }

    #[verifier::when_used_as_spec(spec_white)]
    pub fn white() -> (r: Rgb)
        ensures
            r == Rgb::spec_white(),
    {
        Rgb { red: 255, green: 255, blue: 255 }
    }

    #[verifier::when_used_as_spec(spec_red)]
    pub fn red() -> (r: Rgb)
        ensures
            r == Rgb::spec_red(),
    {
        Rgb { red: 255, green: 0, blue: 0 }
    }
}

/// The look of the window as a whole.
#[derive(Clone, Copy, Debug, PartialEq, Eq, Structural)]
pub struct Container;

/// The look of a player's card.
#[allow(non_camel_case_types)]
#[derive(Clone, Copy, Debug, PartialEq, Eq, Structural)]
pub struct player_card;

impl Container {
    /// White text on black.
    pub fn style(&self) -> (r: ContainerStyle)
        ensures
            r == (ContainerStyle {
                background: Some(Rgb::black()),
                text_color: Some(Rgb::white()),
                border_color: None,
            }),
    {
        ContainerStyle { background: Some(Rgb::black()), text_color: Some(Rgb::white()), border_color: None }
    }
}

impl player_card {
    /// White text on red, with a white border.
    pub fn style(&self) -> (r: ContainerStyle)
        ensures
            r == (ContainerStyle {
                background: Some(Rgb::red()),
                text_color: Some(Rgb::white()),
                border_color: Some(Rgb::white()),
            }),
    {
        ContainerStyle {
            background: Some(Rgb::red()),
            text_color: Some(Rgb::white()),
            border_color: Some(Rgb::white()),
        }
    }
}

} // verus!
