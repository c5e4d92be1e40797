//! Host side of the OpenGL swap-buffers capture backend: its configuration,
//! its errors and the shared-memory frame reader, which exists only on
//! Windows (elsewhere it never opens).
use vstd::prelude::*;

use crate::plugin_registry::{join_name, join_spec};
use crate::text::owned;

verus! {

/// One captured frame read from the shared memory region.
#[derive(Debug, Clone, PartialEq, Eq)]
pub struct CapturedFrame {
    pub width: u32,
    pub height: u32,
    pub sequence: u64,
    pub pixels: Vec<u8>,
}

/// Errors specific to the OpenGL hook backend.
#[derive(Debug, Clone, PartialEq, Eq)]
pub enum OpenGLHookError {
    /// The DLL could not be found next to the executable.
    DllNotFound(String),
    /// Failed to inject the DLL into the target process.
    InjectionFailed(String),
    /// Shared memory region is not available (DLL not loaded, no game writing yet).
    ShmNotAvailable,
    /// Frame data is corrupted or too large.
    FrameCorrupt(String),
}

impl OpenGLHookError {
    /// The human-readable description of the error.
    pub open spec fn spec_message(&self) -> Seq<char> {
        match self {
            OpenGLHookError::DllNotFound(p) => "OpenGL hook DLL not found: "@ + p@,
            OpenGLHookError::InjectionFailed(m) => "DLL injection failed: "@ + m@,
            OpenGLHookError::ShmNotAvailable => "OpenGL capture SHM not available"@,
            OpenGLHookError::FrameCorrupt(m) => "Frame data corrupt: "@ + m@,
        }
    }

    /// The human-readable description of the error.
    pub fn message(&self) -> (r: String)
        ensures
            r@ == self.spec_message(),
    {
        match self {
            OpenGLHookError::DllNotFound(path) => {
                let mut out = owned("OpenGL hook DLL not found: ");
                out.append(path.as_str());
                out
            },
            OpenGLHookError::InjectionFailed(msg) => {
                let mut out = owned("DLL injection failed: ");
                out.append(msg.as_str());
                out
            },
            OpenGLHookError::ShmNotAvailable => owned("OpenGL capture SHM not available"),
            OpenGLHookError::FrameCorrupt(msg) => {
                let mut out = owned("Frame data corrupt: ");
                out.append(msg.as_str());
                out
            },
        }
    }
}

/// Configuration for the OpenGL hook backend.
#[derive(Debug, Clone, PartialEq, Eq)]
pub struct OpenGLHookConfig {
    /// Target frames per second for the capture poll loop.
    pub fps: u32,
    /// Path to the injected DLL. If `None`, the DLL is looked for next to
    /// the current executable.
    pub dll_path: Option<String>,
}

impl Default for OpenGLHookConfig {
    fn default() -> (r: Self)
        ensures
            r.fps == 60,
            r.dll_path.is_none(),
    {
        OpenGLHookConfig { fps: 60, dll_path: None }
    }
}

/// The file name of the hook DLL.
pub const HOOK_DLL_NAME: &'static str = "rivulet_opengl_hook_dll.dll";

/// Where the hook DLL is looked for: the configured path, or the DLL's
/// file name in the executable's directory `exe_dir`.
pub fn resolve_dll_path(config: &OpenGLHookConfig, exe_dir: &str) -> (r: String)
    ensures
        r@ == match config.dll_path {
            Some(p) => p@,
            None => join_spec(exe_dir@, HOOK_DLL_NAME@),
        },
{
    match &config.dll_path {
        Some(p) => p.clone(),
        None => join_name(exe_dir, HOOK_DLL_NAME),
    }
}

/// The probe's verdict for the resolved DLL path, given whether a file
/// exists there: available, or not found at that path.
pub fn probe_verdict(dll_path: String, dll_exists: bool) -> (r: Result<(), OpenGLHookError>)
    ensures
        dll_exists ==> r.is_ok(),
        !dll_exists ==> r == Err::<(), OpenGLHookError>(OpenGLHookError::DllNotFound(dll_path)),
{
    if !dll_exists {
        return Err(OpenGLHookError::DllNotFound(dll_path));
    }
    Ok(())
}

/// Reader of the shared memory region the injected DLL writes. The region
/// exists only on Windows; on every other platform the reader never opens.
pub struct ShmFrameReader;

impl ShmFrameReader {
    /// Open the shared memory region created by the injected DLL; `None`
    /// when it does not exist (on this platform: always).
    pub fn open() -> (r: Option<Self>)
        ensures
            r.is_none(),
    {
        None
    }

    /// Read the latest frame from shared memory (on this platform there is
    /// none).
    pub fn read_frame(&self) -> (r: Option<CapturedFrame>)
        ensures
            r.is_none(),
    {
        None
    }
}

} // verus!
