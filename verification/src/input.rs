//! Keyboard dispatch: which key moves the camera in which direction, and
//! which key triggers which application shortcut.
use vstd::prelude::*;

verus! {

/// The keys the viewer reacts to; every other key is `Other`.
#[derive(Clone, Copy, Debug, PartialEq, Eq, Structural)]
pub enum Key {
    KeyW,
    KeyA,
    KeyS,
    KeyD,
    ArrowUp,
    ArrowDown,
    ArrowLeft,
    ArrowRight,
    Space,
    ShiftLeft,
    ShiftRight,
    Equal,
    NumpadAdd,
    Minus,
    NumpadSubtract,
    Escape,
    Tab,
    KeyN,
    PageUp,
    PageDown,
    Digit0,
    KeyP,
    KeyG,
    KeyL,
    KeyV,
    KeyI,
    BracketLeft,
    BracketRight,
    Other,
}

/// A direction of camera movement driven by a held key or button.
#[derive(Clone, Copy, Debug, PartialEq, Eq, Structural)]
pub enum MoveDirection {
    Forward,
    Backward,
    Left,
    Right,
    Up,
    Down,
    ZoomIn,
    ZoomOut,
}

/// The movement key bindings: WASD and the arrow keys move, Space and either
/// Shift go up and down, `=`/`+` and `-` zoom.
pub open spec fn key_direction(key: Key) -> Option<MoveDirection> {
    match key {
        Key::KeyW | Key::ArrowUp => Some(MoveDirection::Forward),
        Key::KeyS | Key::ArrowDown => Some(MoveDirection::Backward),
        Key::KeyA | Key::ArrowLeft => Some(MoveDirection::Left),
        Key::KeyD | Key::ArrowRight => Some(MoveDirection::Right),
        Key::Space => Some(MoveDirection::Up),
        Key::ShiftLeft | Key::ShiftRight => Some(MoveDirection::Down),
        Key::Equal | Key::NumpadAdd => Some(MoveDirection::ZoomIn),
        Key::Minus | Key::NumpadSubtract => Some(MoveDirection::ZoomOut),
        _ => None,
    }
}

/// The movement direction bound to a key, if any.
pub fn camera_direction(key: Key) -> (d: Option<MoveDirection>)
    ensures
        d == key_direction(key),
{
    match key {
        Key::KeyW | Key::ArrowUp => Some(MoveDirection::Forward),
        Key::KeyS | Key::ArrowDown => Some(MoveDirection::Backward),
        Key::KeyA | Key::ArrowLeft => Some(MoveDirection::Left),
        Key::KeyD | Key::ArrowRight => Some(MoveDirection::Right),
        Key::Space => Some(MoveDirection::Up),
        Key::ShiftLeft | Key::ShiftRight => Some(MoveDirection::Down),
        Key::Equal | Key::NumpadAdd => Some(MoveDirection::ZoomIn),
        Key::Minus | Key::NumpadSubtract => Some(MoveDirection::ZoomOut),
        _ => None,
    }
}

/// Which movement keys are held down.
#[derive(Clone, Copy, Debug, PartialEq, Eq, Structural)]
pub struct HeldKeys {
    pub forward: bool,
    pub backward: bool,
    pub left: bool,
    pub right: bool,
    pub up: bool,
    pub down: bool,
    pub zoom_in: bool,
    pub zoom_out: bool,
}

/// Whether `h` holds a key for direction `d`.
pub open spec fn holds(h: HeldKeys, d: MoveDirection) -> bool {
    match d {
        MoveDirection::Forward => h.forward,
        MoveDirection::Backward => h.backward,
        MoveDirection::Left => h.left,
        MoveDirection::Right => h.right,
        MoveDirection::Up => h.up,
        MoveDirection::Down => h.down,
        MoveDirection::ZoomIn => h.zoom_in,
        MoveDirection::ZoomOut => h.zoom_out,
    }
}

/// `h` with direction `d` held or released.
pub open spec fn with_held(h: HeldKeys, d: MoveDirection, pressed: bool) -> HeldKeys {
    match d {
        MoveDirection::Forward => HeldKeys { forward: pressed, ..h },
        MoveDirection::Backward => HeldKeys { backward: pressed, ..h },
        MoveDirection::Left => HeldKeys { left: pressed, ..h },
        MoveDirection::Right => HeldKeys { right: pressed, ..h },
        MoveDirection::Up => HeldKeys { up: pressed, ..h },
        MoveDirection::Down => HeldKeys { down: pressed, ..h },
        MoveDirection::ZoomIn => HeldKeys { zoom_in: pressed, ..h },
        MoveDirection::ZoomOut => HeldKeys { zoom_out: pressed, ..h },
    }
}

/// The held keys after a key event: a movement key sets its direction to
/// `pressed`; any other key changes nothing.
pub open spec fn after_key(h: HeldKeys, key: Key, pressed: bool) -> HeldKeys {
    match key_direction(key) {
        Some(d) => with_held(h, d, pressed),
        None => h,
    }
}

impl HeldKeys {
    /// No key held.
    pub fn new() -> (h: Self)
        ensures
            forall|d: MoveDirection| !holds(h, d),
    {
        HeldKeys {
            forward: false,
            backward: false,
            left: false,
            right: false,
            up: false,
            down: false,
            zoom_in: false,
            zoom_out: false,
        }
    }

    /// Whether a key for direction `d` is held.
    pub fn is_held(&self, d: MoveDirection) -> (b: bool)
        ensures
            b == holds(*self, d),
    {
        match d {
            MoveDirection::Forward => self.forward,
            MoveDirection::Backward => self.backward,
            MoveDirection::Left => self.left,
            MoveDirection::Right => self.right,
            MoveDirection::Up => self.up,
            MoveDirection::Down => self.down,
            MoveDirection::ZoomIn => self.zoom_in,
            MoveDirection::ZoomOut => self.zoom_out,
        }
    }

    /// Record a key press or release; returns whether the key is a movement key.
    pub fn handle_key(&mut self, key: Key, pressed: bool) -> (handled: bool)
        ensures
            handled == key_direction(key) is Some,
            *final(self) == after_key(*old(self), key, pressed),
    {
        match camera_direction(key) {
            Some(d) => {
                match d {
                    MoveDirection::Forward => self.forward = pressed,
                    MoveDirection::Backward => self.backward = pressed,
                    MoveDirection::Left => self.left = pressed,
                    MoveDirection::Right => self.right = pressed,
                    MoveDirection::Up => self.up = pressed,
                    MoveDirection::Down => self.down = pressed,
                    MoveDirection::ZoomIn => self.zoom_in = pressed,
                    MoveDirection::ZoomOut => self.zoom_out = pressed,
                }
                true
            },
            None => false,
        }
    }
}

/// Releasing a key undoes pressing it: after a press and a release of the
/// same key, no direction bound to that key is held and every other
/// direction is as before.
pub proof fn lemma_press_then_release(h: HeldKeys, key: Key)
    ensures
        after_key(after_key(h, key, true), key, false) == after_key(h, key, false),
        key_direction(key) matches Some(d) ==> !holds(after_key(after_key(h, key, true), key, false), d),
        key_direction(key) matches Some(d) ==> holds(after_key(h, key, true), d),
        forall|e: MoveDirection|
            key_direction(key) != Some(e) ==> holds(after_key(after_key(h, key, true), key, false), e)
                == holds(h, e),
{
}

/// What a key event asks the application to do.
#[derive(Clone, Copy, Debug, PartialEq, Eq, Structural)]
pub enum KeyAction {
    Exit,
    ToggleWireframe,
    ToggleNormals,
    DoubleSpeed,
    HalveSpeed,
    ResetSpeed,
    TogglePause,
    ToggleAllGrids,
    ToggleBodyNames,
    ToggleArrows,
    ToggleOffscreenIndicators,
    DecreaseUiScale,
    IncreaseUiScale,
    /// Not a shortcut: the camera controller gets the key.
    Camera,
}

/// The application shortcuts, triggered on key press: Escape quits, Tab
/// toggles the wireframe, N the normals, PageUp/PageDown double and halve the
/// time multiplier, 0 resets it, P pauses, G toggles the grids, L the labels,
/// V the arrows, I the off-screen indicators, `[` and `]` scale the UI.
pub open spec fn shortcut(key: Key) -> Option<KeyAction> {
    match key {
        Key::Escape => Some(KeyAction::Exit),
        Key::Tab => Some(KeyAction::ToggleWireframe),
        Key::KeyN => Some(KeyAction::ToggleNormals),
        Key::PageUp => Some(KeyAction::DoubleSpeed),
        Key::PageDown => Some(KeyAction::HalveSpeed),
        Key::Digit0 => Some(KeyAction::ResetSpeed),
        Key::KeyP => Some(KeyAction::TogglePause),
        Key::KeyG => Some(KeyAction::ToggleAllGrids),
        Key::KeyL => Some(KeyAction::ToggleBodyNames),
        Key::KeyV => Some(KeyAction::ToggleArrows),
        Key::KeyI => Some(KeyAction::ToggleOffscreenIndicators),
        Key::BracketLeft => Some(KeyAction::DecreaseUiScale),
        Key::BracketRight => Some(KeyAction::IncreaseUiScale),
        _ => None,
    }
}

/// The action of a key event: a pressed shortcut key triggers its shortcut;
/// everything else (releases included) goes to the camera controller.
pub fn key_action(key: Key, pressed: bool) -> (a: KeyAction)
    ensures
        a == (if pressed && shortcut(key) is Some { shortcut(key).unwrap() } else { KeyAction::Camera }),
{
    if !pressed {
        return KeyAction::Camera;
    }
    match key {
        Key::Escape => KeyAction::Exit,
        Key::Tab => KeyAction::ToggleWireframe,
        Key::KeyN => KeyAction::ToggleNormals,
        Key::PageUp => KeyAction::DoubleSpeed,
        Key::PageDown => KeyAction::HalveSpeed,
        Key::Digit0 => KeyAction::ResetSpeed,
        Key::KeyP => KeyAction::TogglePause,
        Key::KeyG => KeyAction::ToggleAllGrids,
        Key::KeyL => KeyAction::ToggleBodyNames,
        Key::KeyV => KeyAction::ToggleArrows,
        Key::KeyI => KeyAction::ToggleOffscreenIndicators,
        Key::BracketLeft => KeyAction::DecreaseUiScale,
        Key::BracketRight => KeyAction::IncreaseUiScale,
        _ => KeyAction::Camera,
    }
}

/// No key is both a shortcut and a movement key, so a pressed shortcut
/// never moves the camera.
pub proof fn lemma_shortcuts_do_not_move(key: Key)
    ensures
        shortcut(key) is Some ==> key_direction(key) is None,
{
}

/// The movement controls: W and the up arrow move forward, S and the down
/// arrow backward, A and the left arrow left, D and the right arrow right,
/// Space up, either Shift down, `=` and numpad `+` zoom in, `-` and numpad
/// `-` zoom out; no other key moves the camera.
pub proof fn lemma_movement_bindings(key: Key)
    ensures
        key_direction(Key::KeyW) == Some(MoveDirection::Forward),
        key_direction(Key::ArrowUp) == Some(MoveDirection::Forward),
        key_direction(Key::KeyS) == Some(MoveDirection::Backward),
        key_direction(Key::ArrowDown) == Some(MoveDirection::Backward),
        key_direction(Key::KeyA) == Some(MoveDirection::Left),
        key_direction(Key::ArrowLeft) == Some(MoveDirection::Left),
        key_direction(Key::KeyD) == Some(MoveDirection::Right),
        key_direction(Key::ArrowRight) == Some(MoveDirection::Right),
        key_direction(Key::Space) == Some(MoveDirection::Up),
        key_direction(Key::ShiftLeft) == Some(MoveDirection::Down),
        key_direction(Key::ShiftRight) == Some(MoveDirection::Down),
        key_direction(Key::Equal) == Some(MoveDirection::ZoomIn),
        key_direction(Key::NumpadAdd) == Some(MoveDirection::ZoomIn),
        key_direction(Key::Minus) == Some(MoveDirection::ZoomOut),
        key_direction(Key::NumpadSubtract) == Some(MoveDirection::ZoomOut),
        (key_direction(key) is Some) <==> (key == Key::KeyW || key == Key::ArrowUp || key == Key::KeyS
            || key == Key::ArrowDown || key == Key::KeyA || key == Key::ArrowLeft || key == Key::KeyD
            || key == Key::ArrowRight || key == Key::Space || key == Key::ShiftLeft || key == Key::ShiftRight
            || key == Key::Equal || key == Key::NumpadAdd || key == Key::Minus || key == Key::NumpadSubtract),
{
}

/// The shortcut keys: Escape quits, Tab toggles the wireframe, N the normals,
/// PageUp doubles and PageDown halves the time multiplier, 0 resets it, P
/// pauses, G toggles the grids, L the labels, V the arrows, I the off-screen
/// indicators, `[` shrinks and `]` grows the UI; no other key is a shortcut.
pub proof fn lemma_shortcut_bindings(key: Key)
    ensures
        shortcut(Key::Escape) == Some(KeyAction::Exit),
        shortcut(Key::Tab) == Some(KeyAction::ToggleWireframe),
        shortcut(Key::KeyN) == Some(KeyAction::ToggleNormals),
        shortcut(Key::PageUp) == Some(KeyAction::DoubleSpeed),
        shortcut(Key::PageDown) == Some(KeyAction::HalveSpeed),
        shortcut(Key::Digit0) == Some(KeyAction::ResetSpeed),
        shortcut(Key::KeyP) == Some(KeyAction::TogglePause),
        shortcut(Key::KeyG) == Some(KeyAction::ToggleAllGrids),
        shortcut(Key::KeyL) == Some(KeyAction::ToggleBodyNames),
        shortcut(Key::KeyV) == Some(KeyAction::ToggleArrows),
        shortcut(Key::KeyI) == Some(KeyAction::ToggleOffscreenIndicators),
        shortcut(Key::BracketLeft) == Some(KeyAction::DecreaseUiScale),
        shortcut(Key::BracketRight) == Some(KeyAction::IncreaseUiScale),
        (shortcut(key) is Some) <==> (key == Key::Escape || key == Key::Tab || key == Key::KeyN
            || key == Key::PageUp || key == Key::PageDown || key == Key::Digit0 || key == Key::KeyP
            || key == Key::KeyG || key == Key::KeyL || key == Key::KeyV || key == Key::KeyI
            || key == Key::BracketLeft || key == Key::BracketRight),
        shortcut(key) != Some(KeyAction::Camera),
{
}

/// Each movement key sets the held flag of its own direction and leaves the
/// others as they are: W forward, S backward, A left, D right, Space up,
/// Shift down, `=` zoom in, `-` zoom out.
pub proof fn lemma_key_sets_its_flag(h: HeldKeys, pressed: bool)
    ensures
        after_key(h, Key::KeyW, pressed) == (HeldKeys { forward: pressed, ..h }),
        after_key(h, Key::KeyS, pressed) == (HeldKeys { backward: pressed, ..h }),
        after_key(h, Key::KeyA, pressed) == (HeldKeys { left: pressed, ..h }),
        after_key(h, Key::KeyD, pressed) == (HeldKeys { right: pressed, ..h }),
        after_key(h, Key::Space, pressed) == (HeldKeys { up: pressed, ..h }),
        after_key(h, Key::ShiftLeft, pressed) == (HeldKeys { down: pressed, ..h }),
        after_key(h, Key::Equal, pressed) == (HeldKeys { zoom_in: pressed, ..h }),
        after_key(h, Key::Minus, pressed) == (HeldKeys { zoom_out: pressed, ..h }),
        after_key(h, Key::Other, pressed) == h,
        holds(h, MoveDirection::Forward) == h.forward && holds(h, MoveDirection::Backward) == h.backward,
        holds(h, MoveDirection::Left) == h.left && holds(h, MoveDirection::Right) == h.right,
        holds(h, MoveDirection::Up) == h.up && holds(h, MoveDirection::Down) == h.down,
        holds(h, MoveDirection::ZoomIn) == h.zoom_in && holds(h, MoveDirection::ZoomOut) == h.zoom_out,
{
}

} // verus!
