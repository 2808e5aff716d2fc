use pxl::error::Error;

#[test]
fn audio_errors_have_fixed_messages() {
    assert_eq!(
        Error::AudioOutputDeviceInitialization.message(),
        "Failed to initialize audio output device."
    );
    assert_eq!(
        Error::AudioOutputDoesNotSupport48khzSampleRate.message(),
        "Audio output device does not support 48khz sample rate"
    );
}

#[test]
fn platform_errors_carry_the_platform_text() {
    let error = Error::WindowCreation { message: "no display".to_string() };
    assert_eq!(error.message(), "Failed to create window: no display");
    let error = Error::GraphicsContext { message: "context lost".to_string() };
    assert_eq!(error.message(), "OpenGL graphics context error: context lost");
}

#[test]
fn shader_errors_carry_sources_and_logs() {
    let error = Error::VertexShaderCompilation {
        source: "void main() {}".to_string(),
        info_log: "0:1 syntax error".to_string(),
    };
    assert_eq!(
        error.message(),
        "Failed to compile vertex shader. Source:\nvoid main() {}\nInfo log:\n0:1 syntax error"
    );
    let error = Error::FragmentShaderCompilation {
        source: "frag".to_string(),
        info_log: "log".to_string(),
    };
    assert_eq!(
        error.message(),
        "Failed to compile fragment shader. Source:\nfrag\nInfo log:\nlog"
    );
    let error = Error::ShaderProgramLinking {
        vertex_shader_source: "v".to_string(),
        fragment_shader_source: "f".to_string(),
        info_log: "mismatch".to_string(),
    };
    assert_eq!(
        error.message(),
        "Failed to link shader program. Vertex shader source:\nv\nFragment shader source:\nf\nInfo log:\nmismatch"
    );
}
