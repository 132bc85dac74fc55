use vstd::prelude::*;

verus! {

/// How long the reset line is held low, in milliseconds.
pub const RESET_HOLD_MS: u32 = 10;

/// How long the module is given to boot once reset is released, in
/// milliseconds.
pub const BOOT_WAIT_MS: u32 = 750;

/// How long the driver sleeps between two looks at the ready line, in
/// milliseconds.
pub const READY_POLL_INTERVAL_MS: u32 = 1;

/// How often the driver looks at the ready line before it gives the module
/// up, unless it is told otherwise.
pub const READY_POLL_LIMIT: u32 = 10_000;

/// The control lines that the host drives.
#[derive(Clone, Copy, Debug, PartialEq, Eq, Structural)]
pub enum Line {
    /// Chip select, active low.
    ChipSelect,
    /// Reset, active low.
    Reset,
    /// Boot mode: high for a normal boot of the firmware.
    BootMode,
}

/// The level of a control line.
#[derive(Clone, Copy, Debug, PartialEq, Eq, Structural)]
pub enum Level {
    Low,
    High,
}

/// What the integration does on a control line or with its timer.
#[derive(Clone, Copy, Debug, PartialEq, Eq, Structural)]
pub enum ControlStep {
    /// Drive a line to a level.
    Drive(Line, Level),
    /// Let this many milliseconds pass.
    DelayMs(u32),
}

/// The steps of the boot sequence, in their order.
#[derive(Clone, Copy, Debug, PartialEq, Eq, Structural)]
pub enum BootStep {
    /// Boot mode goes high: the module is to boot its firmware.
    SelectFirmware,
    /// Chip select goes high: the module is not addressed.
    ReleaseChipSelect,
    /// Reset goes low.
    AssertReset,
    /// Reset stays low for `RESET_HOLD_MS`.
    HoldReset,
    /// Reset goes high: the module starts.
    ReleaseReset,
    /// The firmware is given `BOOT_WAIT_MS` to come up.
    AwaitFirmware,
}

impl BootStep {
    /// The step with which the boot sequence begins.
    pub open spec fn first_spec() -> BootStep {
        BootStep::SelectFirmware
    }

    /// The step with which the boot sequence begins.
    #[verifier::when_used_as_spec(first_spec)]
    pub fn first() -> (step: BootStep)
        ensures
            step == BootStep::first_spec(),
    {
        BootStep::SelectFirmware
    }

    /// What is done in this step.
    pub open spec fn control_spec(self) -> ControlStep {
        match self {
            BootStep::SelectFirmware => ControlStep::Drive(Line::BootMode, Level::High),
            BootStep::ReleaseChipSelect => ControlStep::Drive(Line::ChipSelect, Level::High),
            BootStep::AssertReset => ControlStep::Drive(Line::Reset, Level::Low),
            BootStep::HoldReset => ControlStep::DelayMs(RESET_HOLD_MS),
            BootStep::ReleaseReset => ControlStep::Drive(Line::Reset, Level::High),
            BootStep::AwaitFirmware => ControlStep::DelayMs(BOOT_WAIT_MS),
        }
    }

    /// What is done in this step.
    #[verifier::when_used_as_spec(control_spec)]
    pub fn control(self) -> (step: ControlStep)
        ensures
            step == self.control_spec(),
    {
        match self {
            BootStep::SelectFirmware => ControlStep::Drive(Line::BootMode, Level::High),
            BootStep::ReleaseChipSelect => ControlStep::Drive(Line::ChipSelect, Level::High),
            BootStep::AssertReset => ControlStep::Drive(Line::Reset, Level::Low),
            BootStep::HoldReset => ControlStep::DelayMs(RESET_HOLD_MS),
            BootStep::ReleaseReset => ControlStep::Drive(Line::Reset, Level::High),
            BootStep::AwaitFirmware => ControlStep::DelayMs(BOOT_WAIT_MS),
        }
    }

    /// The step that follows this one, or `None` behind the last.
    pub open spec fn next_spec(self) -> Option<BootStep> {
        match self {
            BootStep::SelectFirmware => Some(BootStep::ReleaseChipSelect),
            BootStep::ReleaseChipSelect => Some(BootStep::AssertReset),
            BootStep::AssertReset => Some(BootStep::HoldReset),
            BootStep::HoldReset => Some(BootStep::ReleaseReset),
            BootStep::ReleaseReset => Some(BootStep::AwaitFirmware),
            BootStep::AwaitFirmware => None,
        }
    }

    /// The step that follows this one, or `None` behind the last.
    #[verifier::when_used_as_spec(next_spec)]
    pub fn next(self) -> (step: Option<BootStep>)
        ensures
            step == self.next_spec(),
    {
        match self {
            BootStep::SelectFirmware => Some(BootStep::ReleaseChipSelect),
            BootStep::ReleaseChipSelect => Some(BootStep::AssertReset),
            BootStep::AssertReset => Some(BootStep::HoldReset),
            BootStep::HoldReset => Some(BootStep::ReleaseReset),
            BootStep::ReleaseReset => Some(BootStep::AwaitFirmware),
            BootStep::AwaitFirmware => None,
        }
    }
}

/// The boot sequence as the hardware needs it: boot mode high, chip select
/// high, reset low, ten milliseconds, reset high, and 750 milliseconds for
/// the firmware to come up.
pub open spec fn boot_plan() -> Seq<ControlStep> {
    seq![
        ControlStep::Drive(Line::BootMode, Level::High),
        ControlStep::Drive(Line::ChipSelect, Level::High),
        ControlStep::Drive(Line::Reset, Level::Low),
        ControlStep::DelayMs(10),
        ControlStep::Drive(Line::Reset, Level::High),
        ControlStep::DelayMs(750),
    ]
}

} // verus!
