//! OpenSC status codes that the driver returns.
use vstd::prelude::*;

verus! {

/// Operation completed successfully.
pub const SC_SUCCESS: i32 = 0;
/// The keypad message is too long; the driver uses it as a general failure code.
pub const SC_ERROR_KEYPAD_MSG_TOO_LONG: i32 = -1111;
/// The card reported "file not found".
pub const SC_ERROR_FILE_NOT_FOUND: i32 = -1201;
/// The card reported incorrect parameters P1-P2.
pub const SC_ERROR_INCORRECT_PARAMETERS: i32 = -1205;
/// The card reported a wrong length.
pub const SC_ERROR_WRONG_LENGTH: i32 = -1206;
/// The card reported "command not allowed".
pub const SC_ERROR_NOT_ALLOWED: i32 = -1209;
/// The card answered with data that cannot be interpreted.
pub const SC_ERROR_UNKNOWN_DATA_RECEIVED: i32 = -1213;
/// A function was called with invalid arguments.
pub const SC_ERROR_INVALID_ARGUMENTS: i32 = -1300;
/// Internal error.
pub const SC_ERROR_INTERNAL: i32 = -1400;
/// Wrong padding.
pub const SC_ERROR_WRONG_PADDING: i32 = -1412;

} // verus!
