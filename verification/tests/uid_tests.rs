use lyre_audio::error::AudioError;
use lyre_audio::uid::uid_to_ascii;

#[test]
fn uid_is_written_in_five_groups() {
    let uid: [i8; 16] = [
        0x01, 0x23, 0x45, 0x67, -0x77, -0x55, -0x33, -0x11, 0x00, 0x7f, -0x80, -0x01, 0x10, 0x0a,
        -0x60, 0x5c,
    ];
    assert_eq!(uid_to_ascii(uid), "01234567-89AB-CDEF-007F-80FF100AA05C");
}

#[test]
fn uid_of_zeros() {
    assert_eq!(uid_to_ascii([0; 16]), "00000000-0000-0000-0000-000000000000");
    assert_eq!(uid_to_ascii([-1; 16]), "FFFFFFFF-FFFF-FFFF-FFFF-FFFFFFFFFFFF");
    assert_eq!(uid_to_ascii([0; 16]).len(), 36);
}

#[test]
fn audio_error_messages() {
    assert_eq!(AudioError::HostError.message(), "Host error");
    assert_eq!(AudioError::InputDeviceError.message(), "Input device error");
    assert_eq!(AudioError::OutputDeviceError.message(), "Output device error");
    assert_eq!(AudioError::PluginLoadError.message(), "Plugin load error");
    assert_eq!(AudioError::PluginEditorError.message(), "Plugin editor error");
}
