use vstd::prelude::*;

verus! {

/// Vector of the first line of the primary interrupt controller.
pub const PIC_1_OFFSET: u8 = 32;

/// Vector of the first line of the secondary interrupt controller.
pub const PIC_2_OFFSET: u8 = 40;

/// The hardware interrupt lines the kernel handles, in controller order.
#[derive(Debug, Clone, Copy, PartialEq, Eq, Structural)]
pub enum InterruptIndex {
    Timer,
    Keyboard,
}

/// The interrupt vector of a line: the timer is the primary controller's
/// first line, the keyboard the one after it.
pub open spec fn vector_of(i: InterruptIndex) -> u8 {
    match i {
        InterruptIndex::Timer => PIC_1_OFFSET,
        InterruptIndex::Keyboard => (PIC_1_OFFSET + 1) as u8,
    }
}

impl InterruptIndex {
    pub fn as_u8(self) -> (v: u8)
        ensures
            v == vector_of(self),
    {
        match self {
            InterruptIndex::Timer => PIC_1_OFFSET,
            InterruptIndex::Keyboard => PIC_1_OFFSET + 1,
        }
    }

    pub fn as_usize(self) -> (v: usize)
        ensures
            v == vector_of(self) as usize,
    {
        self.as_u8() as usize
    }
}

/// The codes the test harness reports through the emulator's exit port.
#[derive(Debug, Clone, Copy, PartialEq, Eq, Structural)]
pub enum QemuExitCode {
    Success,
    Failed,
}

impl QemuExitCode {
    /// The value written to the exit port.
    pub fn code(self) -> (v: u32)
        ensures
            self == QemuExitCode::Success ==> v == 16,
            self == QemuExitCode::Failed ==> v == 17,
    {
        match self {
            QemuExitCode::Success => 16,
            QemuExitCode::Failed => 17,
        }
    }
}

} // verus!
