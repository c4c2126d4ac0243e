//! The output interface: the transform enum that surfaces share with it.

use crate::client::CompositorClientState;
use crate::error::ProtocolError;
use vstd::prelude::*;

verus! {

/// How buffer content is rotated or flipped before it is shown.
#[derive(Clone, Copy, Debug, PartialEq, Eq, Structural)]
pub enum WlOutputTransform {
    Normal,
    Rotate90,
    Rotate180,
    Rotate270,
    Flipped,
    Flipped90,
    Flipped180,
    Flipped270,
}

impl WlOutputTransform {
    /// The protocol value of a transform.
    pub open spec fn value(self) -> i32 {
        match self {
            WlOutputTransform::Normal => 0,
            WlOutputTransform::Rotate90 => 1,
            WlOutputTransform::Rotate180 => 2,
            WlOutputTransform::Rotate270 => 3,
            WlOutputTransform::Flipped => 4,
            WlOutputTransform::Flipped90 => 5,
            WlOutputTransform::Flipped180 => 6,
            WlOutputTransform::Flipped270 => 7,
        }
    }

    /// The transform with the given protocol value, if there is one.
    pub open spec fn of_value(value: i32) -> Option<WlOutputTransform> {
        if value == 0 {
            Some(WlOutputTransform::Normal)
        } else if value == 1 {
            Some(WlOutputTransform::Rotate90)
        } else if value == 2 {
            Some(WlOutputTransform::Rotate180)
        } else if value == 3 {
            Some(WlOutputTransform::Rotate270)
        } else if value == 4 {
            Some(WlOutputTransform::Flipped)
        } else if value == 5 {
            Some(WlOutputTransform::Flipped90)
        } else if value == 6 {
            Some(WlOutputTransform::Flipped180)
        } else if value == 7 {
            Some(WlOutputTransform::Flipped270)
        } else {
            None
        }
    }

    /// Exactly the values 0 to 7 name a transform, and each names the one
    /// whose value it is.
    pub proof fn lemma_value_round_trip(value: i32, transform: WlOutputTransform)
        ensures
            Self::of_value(value) is Some <==> 0 <= value <= 7,
            Self::of_value(value) is Some ==> Self::of_value(value)->0.value() == value,
            Self::of_value(transform.value()) == Some(transform),
    {
    }

    /// The protocol value of this transform.
    pub fn as_i32(self) -> (value: i32)
        ensures
            value == self.value(),
    {
        match self {
            WlOutputTransform::Normal => 0,
            WlOutputTransform::Rotate90 => 1,
            WlOutputTransform::Rotate180 => 2,
            WlOutputTransform::Rotate270 => 3,
            WlOutputTransform::Flipped => 4,
            WlOutputTransform::Flipped90 => 5,
            WlOutputTransform::Flipped180 => 6,
            WlOutputTransform::Flipped270 => 7,
        }
    }

    /// The transform that a client names by `value`; nothing for a value
    /// outside 0 to 7.
    pub fn from_i32(value: i32) -> (transform: Option<WlOutputTransform>)
        ensures
            transform == Self::of_value(value),
    {
        if value == 0 {
            Some(WlOutputTransform::Normal)
        } else if value == 1 {
            Some(WlOutputTransform::Rotate90)
        } else if value == 2 {
            Some(WlOutputTransform::Rotate180)
        } else if value == 3 {
            Some(WlOutputTransform::Rotate270)
        } else if value == 4 {
            Some(WlOutputTransform::Flipped)
        } else if value == 5 {
            Some(WlOutputTransform::Flipped90)
        } else if value == 6 {
            Some(WlOutputTransform::Flipped180)
        } else if value == 7 {
            Some(WlOutputTransform::Flipped270)
        } else {
            None
        }
    }
}

impl Default for WlOutputTransform {
    fn default() -> (transform: WlOutputTransform)
        ensures
            transform == WlOutputTransform::Normal,
    {
        WlOutputTransform::Normal
    }
}

impl CompositorClientState {
    /// Whatever arrives for an output is ignored.
    pub fn handle_wl_output_message(&mut self, object_id: u32, op_code: u16, arg_bytes: &[u8]) -> (
        result: Result<(), ProtocolError>)
        requires
            old(self).wf(),
        ensures
            final(self).wf(),
            final(self)@ == old(self)@,
            result == Ok::<(), ProtocolError>(()),
    {
        Ok(())
    }
}

} // verus!
