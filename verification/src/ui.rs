//! The on-screen help and the wireframe switch, as plain values for the
//! host to draw.

use vstd::prelude::*;

verus! {

/// Where a label is pinned on the screen.
#[derive(Clone, Copy, Debug, PartialEq, Eq, Structural)]
pub enum Anchor {
    TopLeft,
    BottomLeft,
}

/// A line of text pinned to a corner of the screen, with its font size and
/// its distance from that corner in pixels.
pub struct TextLabel {
    pub text: String,
    pub font_size: u32,
    pub anchor: Anchor,
    pub inset: u32,
}

/// Whether outlines are drawn for every mesh.
#[derive(Clone, Copy, Debug, PartialEq, Eq, Structural)]
pub struct Wireframe2dConfig {
    pub global: bool,
}

/// The two lines of help: how to toggle wireframes, at the top, and how to
/// steer and reset, at the bottom.
pub fn spawn_text() -> (labels: Vec<TextLabel>)
    ensures
        labels@.len() == 2,
        labels@[0].text@ == "Press space to toggle wireframes"@,
        labels@[0].font_size == 30,
        labels@[0].anchor == Anchor::TopLeft,
        labels@[0].inset == 12,
        labels@[1].text@ == "Move the player with WASD || Press R to Reset Ship Location"@,
        labels@[1].font_size == 25,
        labels@[1].anchor == Anchor::BottomLeft,
        labels@[1].inset == 12,
{
    let mut labels: Vec<TextLabel> = Vec::new();
    labels.push(
        TextLabel {
            text: "Press space to toggle wireframes".to_owned(),
            font_size: 30,
            anchor: Anchor::TopLeft,
            inset: 12,
        },
    );
    labels.push(
        TextLabel {
            text: "Move the player with WASD || Press R to Reset Ship Location".to_owned(),
            font_size: 25,
            anchor: Anchor::BottomLeft,
            inset: 12,
        },
    );
    labels
}

/// Flips the wireframe switch when the toggle key has just gone down.
pub fn toggle_wireframe(wireframe_config: &mut Wireframe2dConfig, just_pressed: bool)
    ensures
        final(wireframe_config).global == (old(wireframe_config).global != just_pressed),
{
    if just_pressed {
        wireframe_config.global = !wireframe_config.global;
    }
}

} // verus!
