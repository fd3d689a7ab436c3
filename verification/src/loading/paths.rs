//! Where the assets lie below the asset folder.

use vstd::prelude::*;

verus! {

/// The paths of the font, the recordings and the textures.
#[derive(Clone, Copy, Debug, PartialEq, Eq)]
pub struct AssetPaths {
    pub fira_sans: &'static str,
    pub audio_fall: &'static str,
    pub audio_button_click: &'static str,
    pub audio_wall_moving: &'static str,
    pub audio_happy_background: &'static str,
    pub texture_player: &'static str,
    pub texture_button: &'static str,
    pub texture_button_active: &'static str,
}

/// The paths as a mathematical value.
pub struct AssetPathsView {
    pub fira_sans: Seq<char>,
    pub audio_fall: Seq<char>,
    pub audio_button_click: Seq<char>,
    pub audio_wall_moving: Seq<char>,
    pub audio_happy_background: Seq<char>,
    pub texture_player: Seq<char>,
    pub texture_button: Seq<char>,
    pub texture_button_active: Seq<char>,
}

impl View for AssetPaths {
    type V = AssetPathsView;

    open spec fn view(&self) -> AssetPathsView {
        AssetPathsView {
            fira_sans: self.fira_sans@,
            audio_fall: self.audio_fall@,
            audio_button_click: self.audio_button_click@,
            audio_wall_moving: self.audio_wall_moving@,
            audio_happy_background: self.audio_happy_background@,
            texture_player: self.texture_player@,
            texture_button: self.texture_button@,
            texture_button_active: self.texture_button_active@,
        }
    }
}

/// The paths the game ships with.
pub open spec fn shipped() -> AssetPathsView {
    AssetPathsView {
        fira_sans: "fonts/FiraSans-Bold.ttf"@,
        audio_fall: "audio/fall.ogg"@,
        audio_button_click: "audio/button_click.ogg"@,
        audio_wall_moving: "audio/wall_moving.ogg"@,
        audio_happy_background: "audio/happy_background.ogg"@,
        texture_player: "textures/player.png"@,
        texture_button: "textures/button.png"@,
        texture_button_active: "textures/button_active.png"@,
    }
}

/// Computes `shipped`.
pub fn paths() -> (paths: AssetPaths)
    ensures
        paths@ == shipped(),
{
    AssetPaths {
        fira_sans: "fonts/FiraSans-Bold.ttf",
        audio_fall: "audio/fall.ogg",
        audio_button_click: "audio/button_click.ogg",
        audio_wall_moving: "audio/wall_moving.ogg",
        audio_happy_background: "audio/happy_background.ogg",
        texture_player: "textures/player.png",
        texture_button: "textures/button.png",
        texture_button_active: "textures/button_active.png",
    }
}

} // verus!
