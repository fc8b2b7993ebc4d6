use vstd::prelude::*;
use crate::error::GreetingError;
use crate::result_view;

verus! {

/// The durable record stored at a derived address: the authority permitted
/// to mutate it, an immutable name, a mutable message, and a count of how
/// many times the message has been replaced.
#[derive(Debug, Clone, Default, PartialEq, Eq)]
pub struct GreetingAccountState {
    /// The identity (32 bytes) allowed to change the greeting.
    pub authority: Vec<u8>,
    /// A name or title for the greeting, set once at creation.
    pub name: Vec<u8>,
    /// The greeting message itself.
    pub message: Vec<u8>,
    /// How many times the greeting has been updated.
    pub update_count: u32,
}

/// The mathematical model of a stored record.
pub ghost struct RecordModel {
    pub authority: Seq<u8>,
    pub name: Seq<u8>,
    pub message: Seq<u8>,
    pub update_count: u32,
}

impl View for GreetingAccountState {
    type V = RecordModel;

    open spec fn view(&self) -> RecordModel {
        RecordModel {
            authority: self.authority@,
            name: self.name@,
            message: self.message@,
            update_count: self.update_count,
        }
    }
}

/// A record that satisfies the business invariants: a 32-byte authority and
/// both text fields within their fixed maxima.
pub open spec fn record_wf(r: RecordModel) -> bool {
    &&& r.authority.len() == 32
    &&& r.name.len() <= GreetingAccountState::MAX_NAME_LENGTH
    &&& r.message.len() <= GreetingAccountState::MAX_MESSAGE_LENGTH
}

/// A record whose fields fit the wire encoding: a 32-byte authority and
/// text lengths that fit a 32-bit length prefix. Every well-formed record
/// is encodable.
pub open spec fn record_encodable(r: RecordModel) -> bool {
    &&& r.authority.len() == 32
    &&& r.name.len() < 0x1_0000_0000
    &&& r.message.len() < 0x1_0000_0000
}

/// What creating a record returns: the fresh record when both fields are
/// within bounds, and `FieldTooLong` otherwise (name checked first).
pub open spec fn spec_apply_create(authority: Seq<u8>, name: Seq<u8>, message: Seq<u8>) -> Result<
    RecordModel,
    GreetingError,
> {
    if name.len() > GreetingAccountState::MAX_NAME_LENGTH {
        Err(GreetingError::FieldTooLong)
    } else if message.len() > GreetingAccountState::MAX_MESSAGE_LENGTH {
        Err(GreetingError::FieldTooLong)
    } else {
        Ok(
            RecordModel {
                authority: authority,
                name: name,
                message: message,
                update_count: 0,
            },
        )
    }
}

/// The counter after one more update: one greater, saturating at the
/// largest 32-bit value rather than wrapping.
pub open spec fn spec_saturating_inc(c: u32) -> u32 {
    if c == 0xffff_ffff {
        c
    } else {
        (c + 1) as u32
    }
}

/// What replacing the message returns: the record with the new message and
/// an incremented counter when the message is within bounds, and
/// `FieldTooLong` otherwise. Authority and name never change.
pub open spec fn spec_apply_set(r: RecordModel, new_message: Seq<u8>) -> Result<
    RecordModel,
    GreetingError,
> {
    if new_message.len() > GreetingAccountState::MAX_MESSAGE_LENGTH {
        Err(GreetingError::FieldTooLong)
    } else {
        Ok(
            RecordModel {
                authority: r.authority,
                name: r.name,
                message: new_message,
                update_count: spec_saturating_inc(r.update_count),
            },
        )
    }
}

impl GreetingAccountState {
    /// Maximum length in bytes of the `name` field.
    pub const MAX_NAME_LENGTH: usize = 32;

    /// Maximum length in bytes of the `message` field.
    pub const MAX_MESSAGE_LENGTH: usize = 128;

    /// The fixed maximum serialized size of a record: 32 bytes of
    /// authority, a 4-byte length prefix plus maximum bytes for each text
    /// field, and 4 bytes of counter.
    pub open spec fn spec_max_space() -> int {
        32 + (4 + GreetingAccountState::MAX_NAME_LENGTH) + (4
            + GreetingAccountState::MAX_MESSAGE_LENGTH) + 4
    }

    /// Returns the fixed number of bytes to pre-allocate for a record, so
    /// that every well-formed record's encoding fits without a later
    /// resize.
    pub fn get_max_space_needed() -> (r: usize)
        ensures
            r == GreetingAccountState::spec_max_space(),
            r == 204,
    {
        32 + (4 + Self::MAX_NAME_LENGTH) + (4 + Self::MAX_MESSAGE_LENGTH) + 4
    }

    /// Builds the record a creation stores: authority as given, both text
    /// fields checked against their maxima, counter at zero.
    pub fn apply_create(authority: Vec<u8>, name: Vec<u8>, message: Vec<u8>) -> (r: Result<
        GreetingAccountState,
        GreetingError,
    >)
        requires
            authority@.len() == 32,
        ensures
            result_view(r) == spec_apply_create(authority@, name@, message@),
            r is Ok ==> record_wf(r.unwrap()@),
    {
        if name.len() > Self::MAX_NAME_LENGTH {
            return Err(GreetingError::FieldTooLong);
        }
        if message.len() > Self::MAX_MESSAGE_LENGTH {
            return Err(GreetingError::FieldTooLong);
        }
        Ok(GreetingAccountState { authority, name, message, update_count: 0 })
    }

    /// Builds the record an update stores: same authority and name, the new
    /// message checked against its maximum, counter one higher (saturating).
    pub fn apply_set(&self, new_message: Vec<u8>) -> (r: Result<
        GreetingAccountState,
        GreetingError,
    >)
        ensures
            result_view(r) == spec_apply_set(self@, new_message@),
    {
        if new_message.len() > Self::MAX_MESSAGE_LENGTH {
            return Err(GreetingError::FieldTooLong);
        }
        let new_count: u32 = if self.update_count == 0xffff_ffff {
            self.update_count
        } else {
            self.update_count + 1
        };
        Ok(
            GreetingAccountState {
                authority: crate::codec::copy_bytes(&self.authority),
                name: crate::codec::copy_bytes(&self.name),
                message: new_message,
                update_count: new_count,
            },
        )
    }
}

} // verus!
