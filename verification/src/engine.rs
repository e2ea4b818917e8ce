//! What the game does next: the decisions of the run loop, without the
//! screen, the keyboard and the clock that it runs on.

use crate::game_logic::{LevelState, RELOAD_TIME};
use crate::geometry::Direction;
use crate::levels;
use crate::levels::{spec_level_params, Generated};
use crate::world::ObjectFactory;
use vstd::prelude::*;

verus! {

/// Max frames per second.
pub const MAX_FPS: u32 = 60;

pub type LevelId = i32;

/// The level that the game starts with.
pub const FIRST_LEVEL: LevelId = 1;

/// The keys that the game knows.
#[derive(Clone, Copy, Debug, PartialEq, Eq, Structural)]
pub enum Key {
    Left,
    Right,
    Up,
    Down,
    F,
    Escape,
    Other,
}

/// What comes in from outside.
#[derive(Clone, Copy, Debug, PartialEq, Eq, Structural)]
pub enum Input {
    KeyDown(Key),
    Quit,
    Other,
}

/// Where the game is. While a level is played, the world of the level is
/// held beside this.
#[derive(Clone, Copy, Debug, PartialEq, Eq, Structural)]
pub enum GameState {
    ShowingTitleScreen,
    StartingLevel(LevelId),
    PlayingLevel(LevelId),
    AdvancingLevel(LevelId),
    GameOvering,
    Quitting,
}

/// What a key does while a level is played.
pub enum Action {
    /// Try to fire the cannon in the direction.
    Fire(Direction),
    /// Set the cannon moving in the direction.
    Move(Direction),
    /// Nothing here: the input is left for whoever comes next.
    Pass,
}

/// What an input does to the run of the game as a whole.
#[derive(Clone, Copy, Debug, PartialEq, Eq, Structural)]
pub enum Control {
    PrintFramerate,
    Quit,
    Nothing,
}

/// The title screen gives way to the first level at any key; any other
/// input is left for whoever comes next.
pub open spec fn spec_title_screen(input: Option<Input>) -> (GameState, bool) {
    match input {
        Some(Input::KeyDown(_)) => (GameState::StartingLevel(FIRST_LEVEL), false),
        Some(_) => (GameState::ShowingTitleScreen, true),
        None => (GameState::ShowingTitleScreen, false),
    }
}

/// The state after the title screen was shown and the first input waiting,
/// if any, was taken; and whether that input is to be put back.
pub fn title_screen(input: Option<Input>) -> (next: (GameState, bool))
    ensures
        next == spec_title_screen(input),
{
    match input {
        Some(Input::KeyDown(_)) => (GameState::StartingLevel(FIRST_LEVEL), false),
        Some(_) => (GameState::ShowingTitleScreen, true),
        None => (GameState::ShowingTitleScreen, false),
    }
}

/// A level as it is played: its world, with the spins of its baddies, the
/// factory of its objects, the time of the last shot in milliseconds, and
/// which level it is.
pub struct Play {
    pub level: Generated,
    pub obj_factory: ObjectFactory,
    pub prev_fire_time: u64,
    pub curr_level: LevelId,
}

/// The time of the last shot with which a level starts: one reload time
/// before `now`, or the beginning of time where that is later.
pub open spec fn first_fire_time(now: u64) -> u64 {
    if now >= RELOAD_TIME {
        (now - RELOAD_TIME) as u64
    } else {
        0
    }
}

/// Sets up the level to play: its world and factory, and a last shot one
/// reload time ago.
pub fn init_level(curr_level: LevelId, now: u64) -> (play: Play)
    ensures
        play.curr_level == curr_level,
        play.prev_fire_time == first_fire_time(now),
        play.level.world@.wf(),
        play.obj_factory.base_size == spec_level_params(curr_level as int).base_size,
{
    let (level, obj_factory) = levels::init(curr_level);
    let prev_fire_time = if now >= RELOAD_TIME {
        now - RELOAD_TIME
    } else {
        0
    };
    Play { level, obj_factory, prev_fire_time, curr_level }
}

/// A level that is complete is left for the next, one on which the game is
/// over for the end; else it is played on.
pub open spec fn spec_after_frame(level_state: LevelState, curr_level: LevelId) -> GameState {
    match level_state {
        LevelState::Complete => GameState::AdvancingLevel(curr_level),
        LevelState::GameOver => GameState::GameOvering,
        LevelState::InProgress => GameState::PlayingLevel(curr_level),
    }
}

/// The state after a frame of the level ended in the given state.
pub fn after_frame(level_state: LevelState, curr_level: LevelId) -> (next: GameState)
    ensures
        next == spec_after_frame(level_state, curr_level),
{
    match level_state {
        LevelState::Complete => GameState::AdvancingLevel(curr_level),
        LevelState::GameOver => GameState::GameOvering,
        LevelState::InProgress => GameState::PlayingLevel(curr_level),
    }
}

/// What an input does while a level is played: left and right fire, up and
/// down move the cannon, and anything else is left for whoever comes next.
pub fn play_level(input: Input) -> (action: Action)
    ensures
        match input {
            Input::KeyDown(Key::Left) => action matches Action::Fire(Direction::Left),
            Input::KeyDown(Key::Right) => action matches Action::Fire(Direction::Right),
            Input::KeyDown(Key::Up) => action matches Action::Move(Direction::Up),
            Input::KeyDown(Key::Down) => action matches Action::Move(Direction::Down),
            _ => action is Pass,
        },
{
    match input {
        Input::KeyDown(Key::Left) => Action::Fire(Direction::Left),
        Input::KeyDown(Key::Right) => Action::Fire(Direction::Right),
        Input::KeyDown(Key::Up) => Action::Move(Direction::Up),
        Input::KeyDown(Key::Down) => Action::Move(Direction::Down),
        _ => Action::Pass,
    }
}

/// The states that pass by themselves: after a level comes the start of
/// the next, after the game is over comes quitting, and after quitting
/// nothing. The other states wait for what happens in them.
pub open spec fn spec_advance(state: GameState) -> Option<GameState> {
    match state {
        GameState::AdvancingLevel(level) => Some(GameState::StartingLevel((level + 1) as i32)),
        GameState::GameOvering => Some(GameState::Quitting),
        GameState::Quitting => None,
        _ => Some(state),
    }
}

/// The state that follows by itself, or nothing where the game ends.
pub fn advance(state: GameState) -> (next: Option<GameState>)
    requires
        state matches GameState::AdvancingLevel(level) ==> level < i32::MAX,
    ensures
        next == spec_advance(state),
{
    match state {
        GameState::AdvancingLevel(level) => Some(GameState::StartingLevel(level + 1)),
        GameState::GameOvering => Some(GameState::Quitting),
        GameState::Quitting => None,
        _ => Some(state),
    }
}

/// What an input does at the end of a frame: F prints the frame rate, and
/// closing the window or Escape ends the game.
pub fn frame_control(input: Input) -> (control: Control)
    ensures
        control == match input {
            Input::KeyDown(Key::F) => Control::PrintFramerate,
            Input::Quit => Control::Quit,
            Input::KeyDown(Key::Escape) => Control::Quit,
            _ => Control::Nothing,
        },
{
    match input {
        Input::KeyDown(Key::F) => Control::PrintFramerate,
        Input::Quit => Control::Quit,
        Input::KeyDown(Key::Escape) => Control::Quit,
        _ => Control::Nothing,
    }
}

/// The time that a frame is given, in nanoseconds, to cap the frame rate.
pub fn frame_interval() -> (nanos: u32)
    ensures
        nanos == 1_000_000_000u32 / MAX_FPS,
{
    1_000_000_000u32 / MAX_FPS
}

} // verus!
