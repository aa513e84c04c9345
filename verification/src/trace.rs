//! Events that a board reports to a debugger.

use vstd::prelude::*;

verus! {

/// What kind of thing happened.
#[derive(Clone, Copy, Debug, PartialEq, Eq, Structural)]
pub enum DebugEventKind {
    MemoryWrite,
    IoWrite,
    DeviceWrite,
    Watchdog,
    InterruptAssert,
}

/// Who caused it.
#[derive(Clone, Copy, Debug, PartialEq, Eq, Structural)]
pub enum DebugAccessSource {
    Unknown,
    Cpu(u8),
}

/// One event. Fields that do not apply are `None`, and the width of an event
/// that moves no data is 0.
#[derive(Clone, Copy, Debug)]
pub struct DebugEvent {
    pub cycle: u64,
    pub source: DebugAccessSource,
    pub kind: DebugEventKind,
    pub cpu_index: Option<u8>,
    pub pc: Option<u32>,
    pub addr: Option<u32>,
    pub value: Option<u32>,
    pub width: u8,
    pub region: Option<&'static str>,
    pub device: Option<&'static str>,
    pub detail: Option<&'static str>,
}

} // verus!
