//! The closed set of errors of the tick engine.

use vstd::prelude::*;
use vstd::string::StringExecFns;

use crate::text::{decimal, push_decimal};

verus! {

/// A meter that is checked when a region enters a kernel.
#[derive(Clone, Copy, Debug, PartialEq, Eq, Structural)]
pub enum CheckedMeter {
    Water,
    Soil,
}

/// What can go wrong in the tick engine.
#[derive(Clone, Copy, Debug, PartialEq, Eq, Structural)]
pub enum SimError {
    /// A tick was requested that is not the one after the world's current
    /// tick.
    InvalidTickOrder { current: u64, requested: u64 },
    /// A region's stored id differs from its position in the list.
    RegionIndexMismatch { id: u32, index: usize },
    /// A meter of an inbound region is outside its declared range.
    MeterOutOfRange { id: u32, meter: CheckedMeter, value: u16 },
    /// A frame could not be serialised.
    SerializationFailure,
}

impl SimError {
    /// A one-line description of the error.
    pub fn message(&self) -> (out: String)
        ensures
            out@ == self.message_text(),
    {
        match self {
            SimError::InvalidTickOrder { current, requested } => {
                let mut out = String::from_str(
                    "tick_once called with out-of-order tick: current=",
                );
                push_decimal(&mut out, *current);
                out.append(" requested=");
                push_decimal(&mut out, *requested);
                proof {
                    assert(out@ =~= self.message_text());
                }
                out
            },
            SimError::RegionIndexMismatch { id, index } => {
                let mut out = String::from_str("region id ");
                push_decimal(&mut out, *id as u64);
                out.append(" does not match index ");
                push_decimal(&mut out, *index as u64);
                proof {
                    assert(out@ =~= self.message_text());
                }
                out
            },
            SimError::MeterOutOfRange { id, meter, value } => {
                let mut out = String::from_str("region ");
                push_decimal(&mut out, *id as u64);
                match meter {
                    CheckedMeter::Water => {
                        out.append(" water ");
                    },
                    CheckedMeter::Soil => {
                        out.append(" soil ");
                    },
                }
                push_decimal(&mut out, *value as u64);
                out.append(" exceeds the meter's maximum");
                proof {
                    assert(out@ =~= self.message_text());
                }
                out
            },
            SimError::SerializationFailure => String::from_str("frame serialization failed"),
        }
    }

    /// The text of [`SimError::message`].
    pub open spec fn message_text(self) -> Seq<char> {
        match self {
            SimError::InvalidTickOrder { current, requested } => {
                "tick_once called with out-of-order tick: current="@ + decimal(current as nat)
                    + " requested="@ + decimal(requested as nat)
            },
            SimError::RegionIndexMismatch { id, index } => {
                "region id "@ + decimal(id as nat) + " does not match index "@ + decimal(
                    index as nat,
                )
            },
            SimError::MeterOutOfRange { id, meter, value } => {
                "region "@ + decimal(id as nat) + (match meter {
                    CheckedMeter::Water => " water "@,
                    CheckedMeter::Soil => " soil "@,
                }) + decimal(value as nat) + " exceeds the meter's maximum"@
            },
            SimError::SerializationFailure => "frame serialization failed"@,
        }
    }
}

} // verus!
