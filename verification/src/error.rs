//! Runtime errors.  Every error here is fatal for the run: the process
//! prints the message and exits with a non-zero status.

use vstd::prelude::*;

verus! {

/// A fatal runtime error.
#[derive(Debug)]
pub enum Error {
    /// No audio output device could be opened
    AudioOutputDeviceInitialization,
    /// The audio output device supports no stereo format covering the
    /// target sample rate
    AudioOutputDoesNotSupport48khzSampleRate,
    /// The platform window could not be created
    WindowCreation {
        /// The platform's description of the failure
        message: String,
    },
    /// The graphics context failed
    GraphicsContext {
        /// The platform's description of the failure
        message: String,
    },
    /// A vertex shader failed to compile
    VertexShaderCompilation {
        /// The full source text handed to the compiler
        source: String,
        /// The backend compiler's diagnostic log
        info_log: String,
    },
    /// A fragment shader failed to compile
    FragmentShaderCompilation {
        /// The full source text handed to the compiler
        source: String,
        /// The backend compiler's diagnostic log
        info_log: String,
    },
    /// A shader program failed to link
    ShaderProgramLinking {
        /// Source of the vertex shader of the pair
        vertex_shader_source: String,
        /// Source of the fragment shader of the pair
        fragment_shader_source: String,
        /// The backend linker's diagnostic log
        info_log: String,
    },
}

impl Error {
    /// The text of the error's message.
    pub open spec fn message_text(self) -> Seq<char> {
        match self {
            Error::AudioOutputDeviceInitialization => {
                "Failed to initialize audio output device."@
            },
            Error::AudioOutputDoesNotSupport48khzSampleRate => {
                "Audio output device does not support 48khz sample rate"@
            },
            Error::WindowCreation { message } => "Failed to create window: "@ + message@,
            Error::GraphicsContext { message } => "OpenGL graphics context error: "@ + message@,
            Error::VertexShaderCompilation { source, info_log } => {
                "Failed to compile vertex shader. Source:\n"@ + source@ + "\nInfo log:\n"@
                    + info_log@
            },
            Error::FragmentShaderCompilation { source, info_log } => {
                "Failed to compile fragment shader. Source:\n"@ + source@ + "\nInfo log:\n"@
                    + info_log@
            },
            Error::ShaderProgramLinking { vertex_shader_source, fragment_shader_source, info_log } => {
                "Failed to link shader program. Vertex shader source:\n"@
                    + vertex_shader_source@ + "\nFragment shader source:\n"@
                    + fragment_shader_source@ + "\nInfo log:\n"@ + info_log@
            },
        }
    }

    /// Render the error as a human-readable message.
    pub fn message(&self) -> (m: String)
        ensures
            m@ == self.message_text(),
    {
        match self {
            Error::AudioOutputDeviceInitialization => {
                String::from_str("Failed to initialize audio output device.")
            },
            Error::AudioOutputDoesNotSupport48khzSampleRate => {
                String::from_str("Audio output device does not support 48khz sample rate")
            },
            Error::WindowCreation { message } => {
                String::from_str("Failed to create window: ").concat(message.as_str())
            },
            Error::GraphicsContext { message } => {
                String::from_str("OpenGL graphics context error: ").concat(message.as_str())
            },
            Error::VertexShaderCompilation { source, info_log } => {
                String::from_str("Failed to compile vertex shader. Source:\n").concat(
                    source.as_str(),
                ).concat("\nInfo log:\n").concat(info_log.as_str())
            },
            Error::FragmentShaderCompilation { source, info_log } => {
                String::from_str("Failed to compile fragment shader. Source:\n").concat(
                    source.as_str(),
                ).concat("\nInfo log:\n").concat(info_log.as_str())
            },
            Error::ShaderProgramLinking { vertex_shader_source, fragment_shader_source, info_log } => {
                String::from_str("Failed to link shader program. Vertex shader source:\n").concat(
                    vertex_shader_source.as_str(),
                ).concat("\nFragment shader source:\n").concat(
                    fragment_shader_source.as_str(),
                ).concat("\nInfo log:\n").concat(info_log.as_str())
            },
        }
    }
}

} // verus!
