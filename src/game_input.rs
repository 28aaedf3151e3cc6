//! The state of the player's controls between ticks.
use vstd::prelude::*;

verus! {

/// The controls of the game.
#[derive(Clone, Copy, PartialEq, Eq, Structural, Debug)]
pub enum Key {
    Left,
    Right,
    Fire,
    Start,
    Pause,
    VolumeUp,
    VolumeDown,
}

#[derive(Clone, Copy, PartialEq, Eq, Structural, Debug)]
pub enum InputEvent {
    KeyDown(Key),
    KeyUp(Key),
}

#[derive(Clone, Copy, PartialEq, Eq, Structural, Debug)]
pub struct GameInput {
    pub left_pressed: bool,
    pub right_pressed: bool,
    pub fire_pressed: bool,
    pub start_pressed: bool,
    pub pause_pressed: bool,
    pub inc_vol_pressed: bool,
    pub dec_vol_pressed: bool,
}

pub open spec fn released() -> GameInput {
    GameInput {
        left_pressed: false,
        right_pressed: false,
        fire_pressed: false,
        start_pressed: false,
        pause_pressed: false,
        inc_vol_pressed: false,
        dec_vol_pressed: false,
    }
}

impl GameInput {
    pub fn new() -> (r: GameInput)
        ensures
            r == released(),
    {
        GameInput {
            left_pressed: false,
            right_pressed: false,
            fire_pressed: false,
            start_pressed: false,
            pause_pressed: false,
            inc_vol_pressed: false,
            dec_vol_pressed: false,
        }
    }

    pub fn reset(&mut self)
        ensures
            *final(self) == released(),
    {
        self.left_pressed = false;
        self.right_pressed = false;
        self.fire_pressed = false;
        self.start_pressed = false;
        self.pause_pressed = false;
        self.inc_vol_pressed = false;
        self.dec_vol_pressed = false;
    }

    /// The controls after `event`: a key press sets its flag; releasing
    /// moves, or start, clears it. The other flags stay set until the game
    /// acknowledges them.
    pub open spec fn after(self, event: InputEvent) -> GameInput {
        match event {
            InputEvent::KeyDown(Key::Left) => GameInput { left_pressed: true, ..self },
            InputEvent::KeyDown(Key::Right) => GameInput { right_pressed: true, ..self },
            InputEvent::KeyDown(Key::Fire) => GameInput { fire_pressed: true, ..self },
            InputEvent::KeyDown(Key::Start) => GameInput { start_pressed: true, ..self },
            InputEvent::KeyDown(Key::Pause) => GameInput { pause_pressed: true, ..self },
            InputEvent::KeyDown(Key::VolumeUp) => GameInput { inc_vol_pressed: true, ..self },
            InputEvent::KeyDown(Key::VolumeDown) => GameInput { dec_vol_pressed: true, ..self },
            InputEvent::KeyUp(Key::Left) => GameInput { left_pressed: false, ..self },
            InputEvent::KeyUp(Key::Right) => GameInput { right_pressed: false, ..self },
            InputEvent::KeyUp(Key::Start) => GameInput { start_pressed: false, ..self },
            InputEvent::KeyUp(_) => self,
        }
    }

    pub fn update_inputs(&mut self, event: InputEvent)
        ensures
            *final(self) == old(self).after(event),
    {
        match event {
            InputEvent::KeyDown(key) => match key {
                Key::Left => self.left_pressed = true,
                Key::Right => self.right_pressed = true,
                Key::Fire => self.fire_pressed = true,
                Key::Start => self.start_pressed = true,
                Key::Pause => self.pause_pressed = true,
                Key::VolumeUp => self.inc_vol_pressed = true,
                Key::VolumeDown => self.dec_vol_pressed = true,
            },
            InputEvent::KeyUp(key) => match key {
                Key::Left => self.left_pressed = false,
                Key::Right => self.right_pressed = false,
                Key::Start => self.start_pressed = false,
                _ => {},
            },
        }
    }

    pub fn acknowledge_fire(&mut self)
        ensures
            *final(self) == (GameInput { fire_pressed: false, ..*old(self) }),
    {
        self.fire_pressed = false;
    }

    pub fn acknowledge_pause(&mut self)
        ensures
            *final(self) == (GameInput { pause_pressed: false, ..*old(self) }),
    {
        self.pause_pressed = false;
    }

    pub fn acknowledge_volume_change(&mut self)
        ensures
            *final(self) == (GameInput { inc_vol_pressed: false, dec_vol_pressed: false, ..*old(self) }),
    {
        self.inc_vol_pressed = false;
        self.dec_vol_pressed = false;
    }
}

} // verus!
