//! Logical controls and the events they send.

use vstd::prelude::*;

verus! {

/// A control's number within its machine.
#[derive(Clone, Copy, Debug, PartialEq, Eq, Structural)]
pub struct InputId(pub u16);

#[derive(Clone, Copy, Debug, PartialEq, Eq, Structural)]
pub enum Direction {
    Up,
    Down,
    Left,
    Right,
}

#[derive(Clone, Copy, Debug, PartialEq, Eq, Structural)]
pub enum ActionRole {
    Primary,
    Secondary,
}

#[derive(Clone, Copy, Debug, PartialEq, Eq, Structural)]
pub enum AnalogAxisKind {
    X,
    Y,
}

/// What a control is on the cabinet.
#[derive(Clone, Copy, Debug, PartialEq, Eq, Structural)]
pub enum InputKind {
    Button,
    Coin,
    Start,
    Service,
    Action(ActionRole),
    DigitalDirection(Direction),
    AnalogAxis(AnalogAxisKind),
}

/// Keys that a machine binds by itself.
#[derive(Clone, Copy, Debug, PartialEq, Eq, Structural)]
pub enum KeyId {
    Num1,
    Num2,
    Num6,
    Space,
    LShift,
    T,
}

#[derive(Clone, Copy, Debug, PartialEq, Eq, Structural)]
pub enum MouseControl {
    Left,
    Right,
    AxisX,
    AxisY,
}

#[derive(Clone, Copy, Debug, PartialEq, Eq, Structural)]
pub enum PadButton {
    Start,
}

#[derive(Clone, Copy, Debug, PartialEq, Eq, Structural)]
pub enum PadControl {
    Button(PadButton),
}

/// One physical control bound to a logical one.
#[derive(Clone, Copy, Debug, PartialEq, Eq, Structural)]
pub enum DefaultBinding {
    Key(KeyId),
    Pad(PadControl),
    Mouse(MouseControl),
}

/// Bindings that every machine shares; the host resolves them.
#[derive(Clone, Copy, Debug, PartialEq, Eq, Structural)]
pub enum SharedBindings {
    Coin,
    Service,
    P1Start,
    P2Start,
    P1Up,
    P1Down,
    P1Left,
    P1Right,
    P2Up,
    P2Down,
    P2Left,
    P2Right,
}

/// What a control is bound to before the player rebinds it.
#[derive(Clone, Copy, Debug, PartialEq, Eq, Structural)]
pub enum DefaultBindings {
    Unbound,
    Shared(SharedBindings),
    One(DefaultBinding),
    Three(DefaultBinding, DefaultBinding, DefaultBinding),
    Four(DefaultBinding, DefaultBinding, DefaultBinding, DefaultBinding),
}

/// One logical control.
#[derive(Clone, Copy, Debug)]
pub struct InputControl {
    pub id: InputId,
    pub stable_name: &'static str,
    pub label: &'static str,
    pub kind: InputKind,
    pub player: Option<u8>,
    pub default_bindings: DefaultBindings,
}

/// A change of a control's state. Relative motion counts whole units.
#[derive(Clone, Copy, Debug, PartialEq, Eq, Structural)]
pub enum InputEvent {
    Button { id: InputId, pressed: bool },
    Relative { id: InputId, delta: i32 },
    Absolute { id: InputId, position: i32 },
}

/// A control as a value.
pub open spec fn control_of(
    id: u16,
    stable_name: &'static str,
    label: &'static str,
    kind: InputKind,
    player: Option<u8>,
    default_bindings: DefaultBindings,
) -> InputControl {
    InputControl { id: InputId(id), stable_name, label, kind, player, default_bindings }
}

/// One control.
pub fn control(
    id: u16,
    stable_name: &'static str,
    label: &'static str,
    kind: InputKind,
    player: Option<u8>,
    default_bindings: DefaultBindings,
) -> (c: InputControl)
    ensures
        c == control_of(id, stable_name, label, kind, player, default_bindings),
{
    InputControl { id: InputId(id), stable_name, label, kind, player, default_bindings }
}

} // verus!
