//! Protocol driver logic for a USB HID thermometer: the fixed command
//! sequences, the order of transfers for each operation, and the decoding
//! of the raw sensor sample from an interrupt response.
//!
//! The transfers themselves are performed by the caller: the library tells
//! it which transfer to make next and decides from each outcome what comes
//! after.

mod codec;
mod error;
mod protocol;

pub use codec::{be_bytes, be_i16, lemma_decode_round_trip, raw_from_response, RAW_OFFSET};
pub use error::{TemperReadErr, TransferStatus};
pub use protocol::{
    command_bytes, command_spec, Command, ENDPOINT, INDEX, REQUEST, REQUEST_TYPE, REQ_INT_LEN,
    TIMEOUT, VALUE, Action, Event, Exchange, Operation, Outcome, Transfer, finish_outcome, plan,
    step_spec, drive, session, lemma_session_completes, lemma_session_stops_on_failure,
};
