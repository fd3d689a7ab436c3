//! What the buttons on the screen do to the game.

use vstd::prelude::*;
use crate::game::{Game, GameState, GameView};
use crate::map::MapId;
use crate::scenes::{Effect, Outcome};

verus! {

/// The game after the player has asked to play again: not won, back on the
/// first map, which is to be drawn anew, and without the acorn of the last.
pub open spec fn retried(g: GameView) -> Outcome {
    Outcome {
        game: GameView {
            state: GameState { won: false, ..g.state },
            map: MapId::Ground,
            map_changed: true,
            acorn: None,
            ..g
        },
        effects: seq![Effect::DespawnAcorn, Effect::ChangeMap(MapId::Ground)],
    }
}

/// Starts the game over.
pub fn click_retry_button(game: &mut Game) -> (effects: Vec<Effect>)
    ensures
        final(game)@ == retried(old(game)@).game,
        effects@ == retried(old(game)@).effects,
{
    game.state.won = false;
    game.map = MapId::Ground;
    game.map_changed = true;
    game.acorn = None;
    let mut effects: Vec<Effect> = Vec::new();
    effects.push(Effect::DespawnAcorn);
    effects.push(Effect::ChangeMap(MapId::Ground));
    assert(effects@ =~= retried(old(game)@).effects);
    effects
}

} // verus!
