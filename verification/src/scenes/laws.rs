//! What holds of every scene, however the frames fall.

use vstd::prelude::*;
use crate::audio::{BackgroundAudio, Sound};
use crate::game::{GameState, GameView};
use crate::player::{placed, scaled};
use crate::scenes::{
    button_tick, camera_at, direct, falling_camera, falling_player, intro_tick, rest_effect,
    transition_tick, triggered, won_tick, CutScene, Effect, Outcome, Schedule, FALL_CAMERA_SCALE,
    FALL_PLAYER_SCALE, ZOOM,
};
use crate::units::{lemma_lerp_gap, lerp_point, Point};

verus! {

/// What a frame of a scene is given: the time and whether to skip.
#[derive(Clone, Copy, Debug, PartialEq, Eq, Structural)]
pub struct Frame {
    pub now: u64,
    pub skip: bool,
}

/// The game after a run of frames in which nothing asks for a new scene, and
/// all that the frames asked for, in order.
pub open spec fn run(g: GameView, frames: Seq<Frame>) -> Outcome
    decreases frames.len(),
{
    if frames.len() == 0 {
        Outcome { game: g, effects: Seq::empty() }
    } else {
        let first = direct(g, frames[0].skip, frames[0].now);
        let rest = run(first.game, frames.drop_first());
        Outcome { game: rest.game, effects: first.effects + rest.effects }
    }
}

/// How often `e` is asked for.
pub open spec fn count(effects: Seq<Effect>, e: Effect) -> nat
    decreases effects.len(),
{
    if effects.len() == 0 {
        0
    } else {
        count(effects.drop_last(), e) + if effects.last() == e {
            1nat
        } else {
            0nat
        }
    }
}

/// The effects that change the game for good: a scene must not end without
/// them, skipped or not, and must not ask for them twice. The others are
/// sounds that a skipped scene leaves out.
pub open spec fn lasting(e: Effect) -> bool {
    e is DespawnAcorn || e is SettleAcorn || e is PressButton || e is OpenWall || e is ChangeMap
        || e is BackgroundAudio || e is Won
}

/// Whether the scene that plays has yet to ask for `e` before it ends.
pub open spec fn owes(state: GameState, e: Effect) -> bool {
    let step = state.scene_step;
    match state.scene {
        Some(CutScene::Intro { acorn_falls, .. }) => e == rest_effect(acorn_falls) && step == 0,
        Some(CutScene::ActivateButton { button, wall, .. }) => {
            ||| e == Effect::PressButton(button) && step == 0
            ||| e == Effect::AudioEffect(Sound::ButtonClick) && step == 0
            ||| e == Effect::AudioEffect(Sound::WallMoving) && step < 2
            ||| e == Effect::OpenWall(wall) && step < 3
        },
        Some(CutScene::MapTransition { to, .. }) => {
            ||| e == Effect::PauseBackground && step == 0
            ||| e == Effect::AudioEffect(Sound::Fall) && step == 0
            ||| e == Effect::ChangeMap(to)
        },
        Some(CutScene::Won) => {
            ||| e == Effect::PauseBackground && step == 0
            ||| e == Effect::AudioEffect(Sound::Won) && step == 0
            ||| e == Effect::BackgroundAudio(BackgroundAudio::spec_after_win())
            ||| e == Effect::Won
        },
        None => false,
    }
}

/// Whether none of the frames skips.
pub open spec fn unskipped(frames: Seq<Frame>) -> bool {
    forall|i: int| 0 <= i < frames.len() ==> !(#[trigger] frames[i]).skip
}

/// One if the scene owes `e`, else nothing.
pub open spec fn debt(state: GameState, e: Effect) -> nat {
    if owes(state, e) {
        1
    } else {
        0
    }
}

proof fn lemma_count_push(s: Seq<Effect>, x: Effect, e: Effect)
    ensures
        count(s.push(x), e) == count(s, e) + if x == e {
            1nat
        } else {
            0nat
        },
{
    assert(s.push(x).drop_last() =~= s);
}

proof fn lemma_count_one(x: Effect, e: Effect)
    ensures
        count(seq![x], e) == if x == e {
            1nat
        } else {
            0nat
        },
{
    lemma_count_push(Seq::empty(), x, e);
}

proof fn lemma_count_two(x: Effect, y: Effect, e: Effect)
    ensures
        count(seq![x, y], e) == (if x == e {
            1nat
        } else {
            0nat
        }) + (if y == e {
            1nat
        } else {
            0nat
        }),
{
    assert(seq![x, y] =~= seq![x].push(y));
    lemma_count_one(x, e);
    lemma_count_push(seq![x], y, e);
}

proof fn lemma_count_concat(a: Seq<Effect>, b: Seq<Effect>, e: Effect)
    ensures
        count(a + b, e) == count(a, e) + count(b, e),
    decreases b.len(),
{
    if b.len() == 0 {
        assert(a + b =~= a);
    } else {
        assert((a + b).drop_last() =~= a + b.drop_last());
        lemma_count_concat(a, b.drop_last(), e);
    }
}

proof fn lemma_intro_debt(g: GameView, skip: bool, now: u64, e: Effect)
    requires
        g.state.scene matches Some(CutScene::Intro { .. }),
        lasting(e) || !skip,
    ensures
        ({
            let o = intro_tick(g, skip, now);
            &&& o.game.state.scene is None || o.game.state.scene == g.state.scene
            &&& count(o.effects, e) + debt(o.game.state, e) == debt(g.state, e)
        }),
{
    lemma_count_one(Effect::DespawnAcorn, e);
    lemma_count_one(Effect::SettleAcorn, e);
}

proof fn lemma_transition_debt(g: GameView, skip: bool, now: u64, e: Effect)
    requires
        g.state.scene matches Some(CutScene::MapTransition { .. }),
        lasting(e) || !skip,
    ensures
        ({
            let o = transition_tick(g, skip, now);
            &&& o.game.state.scene is None || o.game.state.scene == g.state.scene
            &&& count(o.effects, e) + debt(o.game.state, e) == debt(g.state, e)
        }),
{
    let to = g.state.scene->Some_0->MapTransition_to;
    let opening = seq![Effect::PauseBackground, Effect::AudioEffect(Sound::Fall)];
    lemma_count_two(Effect::StopAudioEffects, Effect::ChangeMap(to), e);
    lemma_count_two(Effect::PauseBackground, Effect::AudioEffect(Sound::Fall), e);
    lemma_count_push(opening, Effect::ChangeMap(to), e);
    lemma_count_push(Seq::empty(), Effect::ChangeMap(to), e);
}

proof fn lemma_won_debt(g: GameView, skip: bool, now: u64, e: Effect)
    requires
        g.state.scene == Some(CutScene::Won),
        lasting(e) || !skip,
    ensures
        ({
            let o = won_tick(g, skip, now);
            &&& o.game.state.scene is None || o.game.state.scene == g.state.scene
            &&& count(o.effects, e) + debt(o.game.state, e) == debt(g.state, e)
        }),
{
    let closing = seq![
        Effect::BackgroundAudio(BackgroundAudio::spec_after_win()),
        Effect::Won,
    ];
    let opening = seq![Effect::PauseBackground, Effect::AudioEffect(Sound::Won)];
    lemma_count_two(Effect::BackgroundAudio(BackgroundAudio::spec_after_win()), Effect::Won, e);
    lemma_count_two(Effect::PauseBackground, Effect::AudioEffect(Sound::Won), e);
    lemma_count_one(Effect::StopAudioEffects, e);
    lemma_count_concat(seq![Effect::StopAudioEffects], closing, e);
    lemma_count_concat(opening, closing, e);
    lemma_count_concat(Seq::empty(), closing, e);
}

proof fn lemma_button_debt(g: GameView, skip: bool, now: u64, e: Effect)
    requires
        g.state.scene matches Some(CutScene::ActivateButton { .. }),
        lasting(e) || !skip,
    ensures
        ({
            let o = button_tick(g, skip, now);
            &&& o.game.state.scene is None || o.game.state.scene == g.state.scene
            &&& count(o.effects, e) + debt(o.game.state, e) == debt(g.state, e)
        }),
{
    let button = g.state.scene->Some_0->ActivateButton_button;
    let wall = g.state.scene->Some_0->ActivateButton_wall;
    let none = Seq::<Effect>::empty();
    let stop = seq![Effect::StopAudioEffects];
    let press = seq![Effect::PressButton(button)];
    let click = seq![Effect::PressButton(button), Effect::AudioEffect(Sound::ButtonClick)];
    let sound = seq![Effect::AudioEffect(Sound::WallMoving)];
    let open = seq![Effect::OpenWall(wall)];
    lemma_count_one(Effect::StopAudioEffects, e);
    lemma_count_one(Effect::PressButton(button), e);
    lemma_count_two(Effect::PressButton(button), Effect::AudioEffect(Sound::ButtonClick), e);
    lemma_count_one(Effect::AudioEffect(Sound::WallMoving), e);
    lemma_count_one(Effect::OpenWall(wall), e);
    assert forall|a: Seq<Effect>, b: Seq<Effect>| #[trigger] count(a + b, e) == count(a, e) + count(b, e) by {
        lemma_count_concat(a, b, e);
    }
}

/// A frame of a scene asks for as much of what the scene owed as it no longer
/// owes afterwards, and leaves the scene the same or over.
pub proof fn lemma_frame_pays(g: GameView, skip: bool, now: u64, e: Effect)
    requires
        lasting(e) || !skip,
    ensures
        ({
            let o = direct(g, skip, now);
            &&& o.game.state.scene is None || o.game.state.scene == g.state.scene
            &&& count(o.effects, e) + debt(o.game.state, e) == debt(g.state, e)
        }),
{
    match g.state.scene {
        Some(CutScene::Intro { .. }) => lemma_intro_debt(g, skip, now, e),
        Some(CutScene::ActivateButton { .. }) => lemma_button_debt(g, skip, now, e),
        Some(CutScene::MapTransition { .. }) => lemma_transition_debt(g, skip, now, e),
        Some(CutScene::Won) => lemma_won_debt(g, skip, now, e),
        None => {},
    }
}

/// Over a run of frames a scene asks for as much of what it owed as it no
/// longer owes at the end.
pub proof fn lemma_run_pays(g: GameView, frames: Seq<Frame>, e: Effect)
    requires
        lasting(e) || unskipped(frames),
    ensures
        count(run(g, frames).effects, e) + debt(run(g, frames).game.state, e) == debt(g.state, e),
        run(g, frames).game.state.scene is None || run(g, frames).game.state.scene
            == g.state.scene,
    decreases frames.len(),
{
    if frames.len() > 0 {
        let first = direct(g, frames[0].skip, frames[0].now);
        let rest = run(first.game, frames.drop_first());
        lemma_frame_pays(g, frames[0].skip, frames[0].now, e);
        assert forall|i: int| 0 <= i < frames.drop_first().len() implies frames.drop_first()[i]
            == frames[i + 1] by {}
        lemma_run_pays(first.game, frames.drop_first(), e);
        lemma_count_concat(first.effects, rest.effects, e);
    }
}

/// Once no scene plays, frames change nothing and ask for nothing.
pub proof fn lemma_idle_run(g: GameView, frames: Seq<Frame>)
    requires
        g.state.scene is None,
    ensures
        run(g, frames).game == g,
        run(g, frames).effects == Seq::<Effect>::empty(),
    decreases frames.len(),
{
    if frames.len() > 0 {
        lemma_idle_run(g, frames.drop_first());
        assert(Seq::<Effect>::empty() + Seq::<Effect>::empty() =~= Seq::<Effect>::empty());
    }
}

/// A scene that is skipped is over for good: no scene plays, the player is
/// free, and whatever frames follow change nothing and ask for nothing. What
/// the scene was to leave behind is there: the map it led to is the map that
/// is played, the game it won is won, every wall it was to open is open.
pub proof fn law_skip_settles(g: GameView, now: u64, later: Seq<Frame>)
    requires
        g.state.scene is Some,
    ensures
        ({
            let skipped = direct(g, true, now).game;
            let end = run(skipped, later);
            &&& end.game == skipped
            &&& end.effects == Seq::<Effect>::empty()
            &&& skipped.state.scene is None
            &&& !skipped.state.frozen
            &&& g.state.scene matches Some(CutScene::MapTransition { to, .. }) ==> skipped.map
                == to && skipped.map_changed
            &&& g.state.scene == Some(CutScene::Won) ==> skipped.state.won
            &&& g.state.scene matches Some(CutScene::ActivateButton { wall, .. }) ==> (
            g.state.scene_step < 3 ==> skipped.elements.len() == g.elements.len() && forall|i: int|
                0 <= i < g.elements.len() && g.elements[i].wall == wall
                    ==> (#[trigger] skipped.elements[i]).opened)
        }),
{
    lemma_idle_run(direct(g, true, now).game, later);
}

/// However a scene comes to its end, skipped at any moment or played
/// through, with frames as close or as far apart as they may be: each of its
/// lasting effects that was still owed has then been asked for exactly once,
/// and none that was not owed has been asked for at all.
pub proof fn law_lasting_effects_once(g: GameView, frames: Seq<Frame>, e: Effect)
    requires
        lasting(e),
        run(g, frames).game.state.scene is None,
    ensures
        count(run(g, frames).effects, e) == debt(g.state, e),
{
    lemma_run_pays(g, frames, e);
}

/// A scene that is played to its end without being skipped has asked for
/// each of its effects exactly once, the sounds too, and for nothing else.
pub proof fn law_every_effect_once(g: GameView, frames: Seq<Frame>, e: Effect)
    requires
        unskipped(frames),
        run(g, frames).game.state.scene is None,
    ensures
        count(run(g, frames).effects, e) == debt(g.state, e),
{
    lemma_run_pays(g, frames, e);
}

/// An introduction that has just started and is played to its end either
/// takes the acorn away or leaves it on the goal, once and not both: the
/// first if the acorn falls, the second if it stays.
pub proof fn law_intro_rests_acorn_once(g: GameView, frames: Seq<Frame>)
    requires
        g.state.scene matches Some(CutScene::Intro { .. }),
        g.state.scene_step == 0,
        run(g, frames).game.state.scene is None,
    ensures
        ({
            let taken = count(run(g, frames).effects, Effect::DespawnAcorn);
            let left = count(run(g, frames).effects, Effect::SettleAcorn);
            &&& g.state.scene matches Some(CutScene::Intro { acorn_falls, .. }) && (if acorn_falls {
                taken == 1 && left == 0
            } else {
                taken == 0 && left == 1
            })
        }),
{
    lemma_run_pays(g, frames, Effect::DespawnAcorn);
    lemma_run_pays(g, frames, Effect::SettleAcorn);
}

/// A frame of a scene, and the start of one, keep the player held exactly
/// while a scene plays. The count of what a scene has done never goes back
/// while the scene plays, and starts at nothing with every scene.
pub proof fn law_state_advances(g: GameView, skip: bool, now: u64)
    ensures
        g.state.well_formed() ==> direct(g, skip, now).game.state.well_formed(),
        g.state.well_formed() ==> triggered(g, now).state.well_formed(),
        direct(g, skip, now).game.state.scene_step >= g.state.scene_step,
        triggered(g, now).state != g.state ==> triggered(g, now).state.scene_step == 0
            && triggered(g, now).state.scene_start == now && triggered(g, now).state.scene
            is Some,
{
}

/// Absolute value.
pub open spec fn dist(a: int, b: int) -> int {
    if a >= b {
        a - b
    } else {
        b - a
    }
}

/// While the camera travels to its target it is never farther from it, on
/// either axis, than the share of the way that the time left stands for, and
/// one step for rounding; when the time is up it stands on the target.
pub proof fn law_camera_reaches_target(from: Point, to: Point, s: Schedule, elapsed: int)
    requires
        s.well_formed(),
        s.hold <= elapsed <= s.pan,
    ensures
        ({
            let at = camera_at(from, to, s, elapsed).unwrap();
            let length = s.pan - s.hold;
            let left = s.pan - elapsed;
            &&& camera_at(from, to, s, elapsed) is Some
            &&& dist(at.0 as int, to.0 as int) * length < dist(from.0 as int, to.0 as int) * left
                + length
            &&& dist(at.1 as int, to.1 as int) * length < dist(from.1 as int, to.1 as int) * left
                + length
            &&& elapsed == s.pan ==> at == to
        }),
{
    let length = s.pan - s.hold;
    lemma_lerp_gap(from.0 as int, to.0 as int, elapsed - s.hold, length);
    lemma_lerp_gap(from.1 as int, to.1 as int, elapsed - s.hold, length);
}

/// The same on the way back: the camera closes in on where it came from and
/// stands there when the journey is over.
pub proof fn law_camera_returns(from: Point, to: Point, s: Schedule, elapsed: int)
    requires
        s.well_formed(),
        s.rest <= elapsed <= s.back,
    ensures
        ({
            let at = camera_at(from, to, s, elapsed).unwrap();
            let length = s.back - s.rest;
            let left = s.back - elapsed;
            &&& camera_at(from, to, s, elapsed) is Some
            &&& dist(at.0 as int, from.0 as int) * length < dist(to.0 as int, from.0 as int) * left
                + length
            &&& dist(at.1 as int, from.1 as int) * length < dist(to.1 as int, from.1 as int) * left
                + length
            &&& elapsed == s.back ==> at == from
        }),
{
    let length = s.back - s.rest;
    lemma_lerp_gap(to.0 as int, from.0 as int, elapsed - s.rest, length);
    lemma_lerp_gap(to.1 as int, from.1 as int, elapsed - s.rest, length);
}

/// A player that falls towards `to` is never farther from it, on either
/// axis, than the share of the way that the time left stands for, and one
/// step for rounding; when the time is up the player stands on `to` with the
/// camera on it, both as small as they get.
pub proof fn law_fall_reaches_target(g: GameView, from: Point, to: Point, elapsed: int)
    requires
        0 <= elapsed <= ZOOM,
    ensures
        ({
            let at = lerp_point(from, to, elapsed, ZOOM as int);
            let left = ZOOM - elapsed;
            &&& dist(at.0 as int, to.0 as int) * ZOOM < dist(from.0 as int, to.0 as int) * left
                + ZOOM
            &&& dist(at.1 as int, to.1 as int) * ZOOM < dist(from.1 as int, to.1 as int) * left
                + ZOOM
            &&& g.camera is Some ==> falling_player(g, from, to, ZOOM as int) == scaled(
                placed(g.player, to),
                FALL_PLAYER_SCALE,
            )
            &&& g.player is Some ==> falling_camera(g, from, to, ZOOM as int) == scaled(
                placed(g.camera, to),
                FALL_CAMERA_SCALE,
            )
        }),
{
    lemma_lerp_gap(from.0 as int, to.0 as int, elapsed, ZOOM as int);
    lemma_lerp_gap(from.1 as int, to.1 as int, elapsed, ZOOM as int);
    lemma_lerp_gap(from.0 as int, to.0 as int, ZOOM as int, ZOOM as int);
    lemma_lerp_gap(from.1 as int, to.1 as int, ZOOM as int, ZOOM as int);
    lemma_lerp_gap(1000, FALL_PLAYER_SCALE as int, ZOOM as int, ZOOM as int);
    lemma_lerp_gap(1000, FALL_CAMERA_SCALE as int, ZOOM as int, ZOOM as int);
}

} // verus!
