use vstd::prelude::*;
use crate::command::CommandId;
use crate::errors::{MacMenuError, WindowsTrayError};

verus! {

// A command id is an application-chosen non-zero u64. Native menu items
// carry a smaller identifier: a signed pointer-sized tag on Cocoa, a 32-bit
// menu id on Win32. Encoding refuses ids outside the native positive range;
// decoding maps every non-positive native value to "no command".

/// The native tag a command id encodes to on a Cocoa-style platform, if it
/// fits the signed tag range.
pub open spec fn spec_command_tag(id: CommandId) -> Option<i64> {
    if id.spec_as_u64() > (i64::MAX as u64) {
        None
    } else {
        Some(id.spec_as_u64() as i64)
    }
}

/// Encode a command id as a native menu tag; ids beyond the signed range
/// are refused rather than truncated.
pub fn command_id_to_tag(id: &CommandId) -> (r: Result<i64, MacMenuError>)
    ensures
        match r {
            Ok(t) => spec_command_tag(*id) == Some(t),
            Err(e) => spec_command_tag(*id) is None && e == MacMenuError::BadCommandId,
        },
{
    let raw = id.as_u64();
    if raw > i64::MAX as u64 {
        Err(MacMenuError::BadCommandId)
    } else {
        Ok(raw as i64)
    }
}

/// Decode a native tag: zero or negative means "no command", anything
/// positive is the command id it encodes.
pub fn tag_to_command_id(tag: i64) -> (r: Option<CommandId>)
    ensures
        tag <= 0 ==> r is None,
        tag > 0 ==> (r matches Some(c) && c.spec_as_u64() == tag as u64),
{
    if tag <= 0 {
        return None;
    }
    CommandId::new(tag as u64)
}

/// Every encodable command id survives the round trip through a native tag,
/// and no non-positive tag decodes to a command.
pub proof fn lemma_tag_round_trip(id: CommandId)
    requires
        id.spec_as_u64() != 0,
        spec_command_tag(id) is Some,
    ensures
        spec_command_tag(id) matches Some(t) && t > 0 && t as u64 == id.spec_as_u64(),
{
}

/// The native menu id a command id encodes to on a Win32-style platform, if
/// it fits 32 bits.
pub open spec fn spec_command_menu_id(id: CommandId) -> Option<u32> {
    if id.spec_as_u64() > (u32::MAX as u64) {
        None
    } else {
        Some(id.spec_as_u64() as u32)
    }
}

/// Encode a command id as a 32-bit native menu id; larger ids are refused
/// rather than truncated.
pub fn command_id_to_menu_id(id: &CommandId) -> (r: Result<u32, WindowsTrayError>)
    ensures
        match r {
            Ok(m) => spec_command_menu_id(*id) == Some(m),
            Err(e) => spec_command_menu_id(*id) is None && e == WindowsTrayError::BadCommandId,
        },
{
    let raw = id.as_u64();
    if raw > u32::MAX as u64 {
        Err(WindowsTrayError::BadCommandId)
    } else {
        Ok(raw as u32)
    }
}

/// Decode a native menu selection: zero means "no command" (the menu was
/// dismissed), anything else is the command id it encodes.
pub fn menu_id_to_command_id(selected: u32) -> (r: Option<CommandId>)
    ensures
        selected == 0 ==> r is None,
        selected != 0 ==> (r matches Some(c) && c.spec_as_u64() == selected as u64),
{
    CommandId::new(selected as u64)
}

/// Every encodable command id survives the round trip through a native
/// menu id.
pub proof fn lemma_menu_id_round_trip(id: CommandId)
    requires
        id.spec_as_u64() != 0,
        spec_command_menu_id(id) is Some,
    ensures
        spec_command_menu_id(id) matches Some(m) && m != 0 && m as u64 == id.spec_as_u64(),
{
}

} // verus!
