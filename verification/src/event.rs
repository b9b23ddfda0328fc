use vstd::prelude::*;

verus! {

/// An abstract input event, decoupled from any keyboard or terminal
/// encoding. The surrounding application decodes raw terminal events into
/// these symbols and hands them to the engine one at a time.
#[derive(Clone, Copy, PartialEq, Eq, Structural, Debug)]
pub enum InputEvent {
    MoveLeft,
    MoveRight,
    MoveUp,
    MoveDown,
    Toggle,
    Pause,
    SpeedUp,
    SpeedDown,
    Clear,
    SpawnPattern,
    Resize(usize, usize),
    Quit,
}

} // verus!
