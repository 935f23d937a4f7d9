use scene_viewer::texture::{unit_to_gl_const, TEXTURE0, TEXTURE_UNITS};
use scene_viewer::utils::{debug_message_label, gl_check_error, DEBUG_TYPE_ERROR};

#[test]
fn texture_units_map_to_their_enumerants() {
    assert_eq!(TEXTURE0, gl::TEXTURE0);
    assert_eq!(TEXTURE_UNITS, 16);
    assert_eq!(unit_to_gl_const(0), gl::TEXTURE0);
    assert_eq!(unit_to_gl_const(1), gl::TEXTURE1);
    assert_eq!(unit_to_gl_const(2), gl::TEXTURE2);
    assert_eq!(unit_to_gl_const(7), gl::TEXTURE7);
    assert_eq!(unit_to_gl_const(8), 0x84C8);
    assert_eq!(unit_to_gl_const(15), gl::TEXTURE15);
}

#[test]
fn no_error_is_nothing() {
    assert_eq!(gl_check_error(gl::NO_ERROR), None);
}

#[test]
fn error_codes_have_their_names() {
    assert_eq!(gl_check_error(gl::INVALID_ENUM), Some("INVALID_ENUM"));
    assert_eq!(gl_check_error(gl::INVALID_VALUE), Some("INVALID_VALUE"));
    assert_eq!(gl_check_error(gl::INVALID_OPERATION), Some("INVALID_OPERATION"));
    assert_eq!(gl_check_error(gl::OUT_OF_MEMORY), Some("OUT_OF_MEMORY"));
    assert_eq!(
        gl_check_error(gl::INVALID_FRAMEBUFFER_OPERATION),
        Some("INVALID_FRAMEBUFFER_OPERATION")
    );
    assert_eq!(gl_check_error(gl::STACK_OVERFLOW), Some("unknown GL error code"));
    assert_eq!(gl_check_error(1), Some("unknown GL error code"));
}

#[test]
fn debug_messages_are_labelled_by_type() {
    assert_eq!(DEBUG_TYPE_ERROR, gl::DEBUG_TYPE_ERROR);
    assert_eq!(debug_message_label(gl::DEBUG_TYPE_ERROR), "** GL ERROR ** ");
    assert_eq!(debug_message_label(gl::DEBUG_TYPE_PERFORMANCE), "** GL DEBUG **");
    assert_eq!(debug_message_label(0), "** GL DEBUG **");
}
