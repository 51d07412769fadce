use vstd::prelude::*;

verus! {

/// Completion status of a USB transfer, as the USB access layer reports it.
#[derive(Debug, Clone, Copy, PartialEq, Eq, Structural)]
pub enum TransferStatus {
    Completed,
    Error,
    TimedOut,
    Cancelled,
    Stall,
    NoDevice,
    Overflow,
}

/// Why an operation of the driver failed.
#[derive(Debug, Clone, Copy, PartialEq, Eq, Structural)]
pub enum TemperReadErr {
    /// A control write or interrupt read failed with this status.
    UsbTransfer(TransferStatus),
    /// The interrupt response was too short to hold the raw sample.
    MalformedResponse,
}

impl From<TransferStatus> for TemperReadErr {
    fn from(e: TransferStatus) -> (r: TemperReadErr)
        ensures
            r == TemperReadErr::UsbTransfer(e),
    {
        TemperReadErr::UsbTransfer(e)
    }
}

impl vstd::std_specs::convert::FromSpecImpl<TransferStatus> for TemperReadErr {
    open spec fn obeys_from_spec() -> bool {
        true
    }

    open spec fn from_spec(e: TransferStatus) -> TemperReadErr {
        TemperReadErr::UsbTransfer(e)
    }
}

} // verus!
