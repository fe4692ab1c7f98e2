//! What the player holds down, and what each window event asks of the game.
//!
//! The hole vibrates while the space bar, a mouse button or at least one finger is down; the
//! arrow keys and W, A, S, D move the camera; Escape and closing the window end the game.

use vstd::prelude::*;
use std::collections::HashSet;

verus! {

broadcast use vstd::std_specs::hash::group_hash_axioms;

/// The keys the game tells apart; every other key is `Other`.
#[derive(Clone, Copy, Debug, PartialEq, Eq, Structural)]
pub enum Key {
    KeyW,
    KeyA,
    KeyS,
    KeyD,
    ArrowUp,
    ArrowLeft,
    ArrowDown,
    ArrowRight,
    Space,
    Escape,
    Other,
}

/// A direction in which the camera moves.
#[derive(Clone, Copy, Debug, PartialEq, Eq, Structural)]
pub enum Movement {
    Forward,
    Backward,
    Left,
    Right,
}

/// The camera movement a key stands for: W and Up go forward, S and Down backward, A and
/// Left to the left, D and Right to the right.
pub open spec fn key_movement(key: Key) -> Option<Movement> {
    match key {
        Key::KeyW | Key::ArrowUp => Some(Movement::Forward),
        Key::KeyA | Key::ArrowLeft => Some(Movement::Left),
        Key::KeyS | Key::ArrowDown => Some(Movement::Backward),
        Key::KeyD | Key::ArrowRight => Some(Movement::Right),
        _ => None,
    }
}

/// Which camera movement keys are held down.
#[derive(Clone, Copy, Debug, PartialEq, Eq, Structural)]
pub struct CameraKeys {
    pub is_forward_pressed: bool,
    pub is_backward_pressed: bool,
    pub is_left_pressed: bool,
    pub is_right_pressed: bool,
}

impl CameraKeys {
    /// `self` with the key of movement `m` held down or released.
    pub open spec fn with(self, m: Movement, pressed: bool) -> CameraKeys {
        match m {
            Movement::Forward => CameraKeys { is_forward_pressed: pressed, ..self },
            Movement::Backward => CameraKeys { is_backward_pressed: pressed, ..self },
            Movement::Left => CameraKeys { is_left_pressed: pressed, ..self },
            Movement::Right => CameraKeys { is_right_pressed: pressed, ..self },
        }
    }

    /// Whether the key of movement `m` is held down.
    pub open spec fn holds(self, m: Movement) -> bool {
        match m {
            Movement::Forward => self.is_forward_pressed,
            Movement::Backward => self.is_backward_pressed,
            Movement::Left => self.is_left_pressed,
            Movement::Right => self.is_right_pressed,
        }
    }

    /// No movement key held down.
    pub fn new() -> (k: CameraKeys)
        ensures
            forall|m: Movement| !k.holds(m),
    {
        CameraKeys {
            is_forward_pressed: false,
            is_backward_pressed: false,
            is_left_pressed: false,
            is_right_pressed: false,
        }
    }

    /// Records a movement key going down or up; tells whether the key was a movement key.
    pub fn handle_key(&mut self, key: Key, is_pressed: bool) -> (handled: bool)
        ensures
            handled == key_movement(key) is Some,
            match key_movement(key) {
                Some(m) => *final(self) == old(self).with(m, is_pressed),
                None => *final(self) == *old(self),
            },
    {
        match key {
            Key::KeyW | Key::ArrowUp => {
                self.is_forward_pressed = is_pressed;
                true
            },
            Key::KeyA | Key::ArrowLeft => {
                self.is_left_pressed = is_pressed;
                true
            },
            Key::KeyS | Key::ArrowDown => {
                self.is_backward_pressed = is_pressed;
                true
            },
            Key::KeyD | Key::ArrowRight => {
                self.is_right_pressed = is_pressed;
                true
            },
            _ => false,
        }
    }
}

/// The phase of a touch, as the windowing system reports it.
#[derive(Clone, Copy, Debug, PartialEq, Eq, Structural)]
pub enum TouchPhase {
    Started,
    Moved,
    Ended,
    Cancelled,
}

/// The fingers down after a touch event.
pub open spec fn touch_step(touches: Set<u64>, id: u64, phase: TouchPhase) -> Set<u64> {
    match phase {
        TouchPhase::Started => touches.insert(id),
        TouchPhase::Moved => touches,
        TouchPhase::Ended | TouchPhase::Cancelled => touches.remove(id),
    }
}

/// Whether the hole vibrates: while the space bar, a mouse button or a finger is down.
pub open spec fn vibrates(space_down: bool, mouse_down: bool, touches: Set<u64>) -> bool {
    space_down || mouse_down || !touches.is_empty()
}

/// A window event, as far as the game looks at it.
#[derive(Clone, Copy, Debug, PartialEq, Eq, Structural)]
pub enum WindowInput {
    CloseRequested,
    Resized { width: u32, height: u32 },
    Key { key: Key, pressed: bool },
    RedrawRequested,
    Focused(bool),
    Occluded(bool),
    Touch { id: u64, phase: TouchPhase },
    Mouse { pressed: bool },
    Other,
}

/// What the game loop does after an event.
#[derive(Clone, Copy, Debug, PartialEq, Eq, Structural)]
pub enum Action {
    /// Leave the event loop.
    Exit,
    /// Resize the surface to the given size.
    Resize { width: u32, height: u32 },
    /// Advance the simulation and draw a frame.
    Frame,
    /// Ask the window for another redraw.
    RequestRedraw,
    /// Nothing.
    Nothing,
}

/// The action a window event asks for, apart from the inputs it records.
pub open spec fn event_action(event: WindowInput) -> Action {
    match event {
        WindowInput::CloseRequested => Action::Exit,
        WindowInput::Resized { width, height } => Action::Resize { width, height },
        WindowInput::Key { key, pressed } => if key == Key::Escape && pressed {
            Action::Exit
        } else {
            Action::Nothing
        },
        WindowInput::RedrawRequested => Action::Frame,
        WindowInput::Focused(true) | WindowInput::Occluded(false) => Action::RequestRedraw,
        _ => Action::Nothing,
    }
}

/// The player's held inputs and whether the hole vibrates.
pub struct InputState {
    pub camera_keys: CameraKeys,
    pub space_down: bool,
    pub mouse_down: bool,
    /// The ids of the fingers on the screen.
    pub touches: HashSet<u64>,
    /// Whether the hole vibrates, as last brought up to date.
    pub bibrate: bool,
}

impl InputState {
    /// The vibration flag agrees with the inputs held.
    pub open spec fn synced(&self) -> bool {
        self.bibrate == vibrates(self.space_down, self.mouse_down, self.touches@)
    }

    /// Nothing held, no vibration.
    pub fn new() -> (s: InputState)
        ensures
            forall|m: Movement| !s.camera_keys.holds(m),
            !s.space_down,
            !s.mouse_down,
            s.touches@ == Set::<u64>::empty(),
            !s.bibrate,
            s.synced(),
    {
        InputState {
            camera_keys: CameraKeys::new(),
            space_down: false,
            mouse_down: false,
            touches: HashSet::new(),
            bibrate: false,
        }
    }

    /// Brings the vibration flag up to date with the inputs held.
    pub fn sync_vibe(&mut self)
        ensures
            final(self).bibrate == vibrates(old(self).space_down, old(self).mouse_down, old(self).touches@),
            final(self).camera_keys == old(self).camera_keys,
            final(self).space_down == old(self).space_down,
            final(self).mouse_down == old(self).mouse_down,
            final(self).touches@ == old(self).touches@,
    {
        self.bibrate = self.space_down || self.mouse_down || !self.touches.is_empty();
    }

    /// A key going down or up: Escape pressed asks to leave; a movement key moves the camera;
    /// the space bar holds the vibration.
    pub fn handle_key(&mut self, key: Key, is_pressed: bool) -> (action: Action)
        ensures
            action == (if key == Key::Escape && is_pressed {
                Action::Exit
            } else {
                Action::Nothing
            }),
            final(self).camera_keys == match key_movement(key) {
                Some(m) => old(self).camera_keys.with(m, is_pressed),
                None => old(self).camera_keys,
            },
            final(self).space_down == (if key == Key::Space {
                is_pressed
            } else {
                old(self).space_down
            }),
            final(self).bibrate == (if key == Key::Space {
                vibrates(is_pressed, old(self).mouse_down, old(self).touches@)
            } else {
                old(self).bibrate
            }),
            final(self).mouse_down == old(self).mouse_down,
            final(self).touches@ == old(self).touches@,
            old(self).synced() ==> final(self).synced(),
            key == Key::Space ==> final(self).synced(),
    {
        match key {
            Key::Escape => {
                if is_pressed {
                    Action::Exit
                } else {
                    Action::Nothing
                }
            },
            Key::Space => {
                self.space_down = is_pressed;
                self.sync_vibe();
                Action::Nothing
            },
            _ => {
                self.camera_keys.handle_key(key, is_pressed);
                Action::Nothing
            },
        }
    }

    /// A finger touching, moving on or leaving the screen.
    pub fn touch(&mut self, id: u64, phase: TouchPhase)
        ensures
            final(self).touches@ == touch_step(old(self).touches@, id, phase),
            final(self).camera_keys == old(self).camera_keys,
            final(self).space_down == old(self).space_down,
            final(self).mouse_down == old(self).mouse_down,
            final(self).synced(),
    {
        match phase {
            TouchPhase::Started => {
                self.touches.insert(id);
            },
            TouchPhase::Moved => {},
            TouchPhase::Ended | TouchPhase::Cancelled => {
                self.touches.remove(&id);
            },
        }
        self.sync_vibe();
    }

    /// A mouse button going down or up.
    pub fn mouse_input(&mut self, pressed: bool)
        ensures
            final(self).mouse_down == pressed,
            final(self).camera_keys == old(self).camera_keys,
            final(self).space_down == old(self).space_down,
            final(self).touches@ == old(self).touches@,
            final(self).synced(),
    {
        self.mouse_down = pressed;
        self.sync_vibe();
    }

    /// Records the inputs that a window event carries and tells what the game loop does next.
    pub fn on_window_event(&mut self, event: WindowInput) -> (action: Action)
        ensures
            action == event_action(event),
            final(self).camera_keys == match event {
                WindowInput::Key { key, pressed } => match key_movement(key) {
                    Some(m) => old(self).camera_keys.with(m, pressed),
                    None => old(self).camera_keys,
                },
                _ => old(self).camera_keys,
            },
            final(self).space_down == match event {
                WindowInput::Key { key: Key::Space, pressed } => pressed,
                _ => old(self).space_down,
            },
            final(self).mouse_down == match event {
                WindowInput::Mouse { pressed } => pressed,
                _ => old(self).mouse_down,
            },
            final(self).touches@ == match event {
                WindowInput::Touch { id, phase } => touch_step(old(self).touches@, id, phase),
                _ => old(self).touches@,
            },
            final(self).bibrate == match event {
                WindowInput::Key { key: Key::Space, pressed: _ }
                | WindowInput::Touch { .. }
                | WindowInput::Mouse { .. } => vibrates(
                    final(self).space_down,
                    final(self).mouse_down,
                    final(self).touches@,
                ),
                _ => old(self).bibrate,
            },
            old(self).synced() ==> final(self).synced(),
    {
        match event {
            WindowInput::CloseRequested => Action::Exit,
            WindowInput::Resized { width, height } => Action::Resize { width, height },
            WindowInput::Key { key, pressed } => self.handle_key(key, pressed),
            WindowInput::RedrawRequested => Action::Frame,
            WindowInput::Focused(true) | WindowInput::Occluded(false) => Action::RequestRedraw,
            WindowInput::Touch { id, phase } => {
                self.touch(id, phase);
                Action::Nothing
            },
            WindowInput::Mouse { pressed } => {
                self.mouse_input(pressed);
                Action::Nothing
            },
            _ => Action::Nothing,
        }
    }
}

/// Only closing the window and pressing Escape end the game; mouse buttons and touches, pressed
/// or released, never ask the loop for anything; resizing asks to resize to the new size, and a
/// redraw request asks for a frame.
pub proof fn lemma_event_actions(event: WindowInput)
    ensures
        (event_action(event) == Action::Exit) <==> (event == WindowInput::CloseRequested || event
            == (WindowInput::Key { key: Key::Escape, pressed: true })),
        (event is Mouse) ==> event_action(event) == Action::Nothing,
        (event is Touch) ==> event_action(event) == Action::Nothing,
        (event_action(event) == Action::Frame) <==> (event == WindowInput::RedrawRequested),
        forall|w: u32, h: u32|
            event == (WindowInput::Resized { width: w, height: h }) ==> event_action(event)
                == (Action::Resize { width: w, height: h }),
        (event_action(event) is Resize) ==> (event is Resized),
{
}

/// Each movement key moves the camera its own way: W and Up forward, S and Down backward, A and
/// Left to the left, D and Right to the right; no other key moves it. Opposite keys move it in
/// opposite directions.
pub proof fn lemma_key_directions(key: Key)
    ensures
        key_movement(key) == Some(Movement::Forward) <==> (key == Key::KeyW || key == Key::ArrowUp),
        key_movement(key) == Some(Movement::Backward) <==> (key == Key::KeyS || key
            == Key::ArrowDown),
        key_movement(key) == Some(Movement::Left) <==> (key == Key::KeyA || key == Key::ArrowLeft),
        key_movement(key) == Some(Movement::Right) <==> (key == Key::KeyD || key == Key::ArrowRight),
        key_movement(key) is None <==> (key == Key::Space || key == Key::Escape || key == Key::Other),
{
}

/// Recording a key for movement `m` holds or releases exactly the key of `m`.
pub proof fn lemma_with_holds(keys: CameraKeys, m: Movement, pressed: bool)
    ensures
        keys.with(m, pressed).holds(m) == pressed,
        forall|other: Movement| other != m ==> keys.with(m, pressed).holds(other) == keys.holds(other),
{
}

/// Lifting a finger that went down leaves the fingers on the screen as they were before it
/// went down; so does a touch that is cancelled.
pub proof fn lemma_touch_undo(touches: Set<u64>, id: u64, end: TouchPhase)
    requires
        !touches.contains(id),
        end == TouchPhase::Ended || end == TouchPhase::Cancelled,
    ensures
        touch_step(touch_step(touches, id, TouchPhase::Started), id, end) == touches,
{
    assert(touches.insert(id).remove(id) =~= touches);
}

/// A finger moving on the screen changes nothing that is held.
pub proof fn lemma_touch_moved(touches: Set<u64>, id: u64)
    ensures
        touch_step(touches, id, TouchPhase::Moved) == touches,
{
}

/// While a finger is on the screen the hole vibrates; when the last finger leaves and neither
/// the space bar nor a mouse button is down, it stops.
pub proof fn lemma_touch_vibrates(touches: Set<u64>, id: u64, space_down: bool, mouse_down: bool)
    ensures
        vibrates(space_down, mouse_down, touch_step(touches, id, TouchPhase::Started)),
        touches.subset_of(set![id]) && !space_down && !mouse_down ==> !vibrates(
            space_down,
            mouse_down,
            touch_step(touches, id, TouchPhase::Ended),
        ),
{
    assert(touch_step(touches, id, TouchPhase::Started).contains(id));
    if touches.subset_of(set![id]) {
        assert(touches.remove(id) =~= Set::<u64>::empty());
    }
}

/// Pressing a movement key and releasing it again leaves the camera keys as they were, when
/// the key was up before.
pub proof fn lemma_movement_key_undo(keys: CameraKeys, m: Movement)
    requires
        !keys.holds(m),
    ensures
        keys.with(m, true).with(m, false) == keys,
        keys.with(m, true).holds(m),
        forall|other: Movement| other != m ==> keys.with(m, true).holds(other) == keys.holds(other),
{
}

} // verus!
