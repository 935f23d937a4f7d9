use vstd::prelude::*;

verus! {

/// The error codes of the graphics API that are reported by name.
pub const NO_ERROR: u32 = 0;

pub const INVALID_ENUM: u32 = 0x0500;

pub const INVALID_VALUE: u32 = 0x0501;

pub const INVALID_OPERATION: u32 = 0x0502;

pub const OUT_OF_MEMORY: u32 = 0x0505;

pub const INVALID_FRAMEBUFFER_OPERATION: u32 = 0x0506;

/// The type of a debug message that reports an error.
pub const DEBUG_TYPE_ERROR: u32 = 0x824C;

/// The name under which an error code of the graphics API is reported.
pub open spec fn error_name(error_code: u32) -> Seq<char> {
    if error_code == INVALID_ENUM {
        "INVALID_ENUM"@
    } else if error_code == INVALID_VALUE {
        "INVALID_VALUE"@
    } else if error_code == INVALID_OPERATION {
        "INVALID_OPERATION"@
    } else if error_code == OUT_OF_MEMORY {
        "OUT_OF_MEMORY"@
    } else if error_code == INVALID_FRAMEBUFFER_OPERATION {
        "INVALID_FRAMEBUFFER_OPERATION"@
    } else {
        "unknown GL error code"@
    }
}

/// Judges an error code that the graphics API reported: nothing where it
/// reports no error, else the name of the error.
pub fn gl_check_error(error_code: u32) -> (r: Option<&'static str>)
    ensures
        match r {
            Some(name) => error_code != NO_ERROR && name@ == error_name(error_code),
            None => error_code == NO_ERROR,
        },
{
    if error_code != NO_ERROR {
        let error = match error_code {
            INVALID_ENUM => "INVALID_ENUM",
            INVALID_VALUE => "INVALID_VALUE",
            INVALID_OPERATION => "INVALID_OPERATION",
            OUT_OF_MEMORY => "OUT_OF_MEMORY",
            INVALID_FRAMEBUFFER_OPERATION => "INVALID_FRAMEBUFFER_OPERATION",
            _ => "unknown GL error code",
        };
        Some(error)
    } else {
        None
    }
}

/// The label under which a debug message of the graphics API is printed.
pub fn debug_message_label(gltype: u32) -> (r: &'static str)
    ensures
        r@ == (if gltype == DEBUG_TYPE_ERROR {
            "** GL ERROR ** "@
        } else {
            "** GL DEBUG **"@
        }),
{
    if gltype == DEBUG_TYPE_ERROR {
        "** GL ERROR ** "
    } else {
        "** GL DEBUG **"
    }
}

} // verus!
