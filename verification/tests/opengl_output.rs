use rivulet_core::opengl_hook::{probe_verdict, OpenGLHookConfig, OpenGLHookError, ShmFrameReader};
use rivulet_core::output::{FileOutput, OutputSettings};

#[test]
fn default_config_has_sane_fps() {
    let cfg = OpenGLHookConfig::default();
    assert_eq!(cfg.fps, 60);
    assert!(cfg.dll_path.is_none());
}

#[test]
fn shm_reader_not_available_on_non_windows() {
    assert!(ShmFrameReader::open().is_none());
}

#[test]
fn opengl_hook_error_display() {
    let e = OpenGLHookError::DllNotFound("/foo/bar.dll".into());
    assert!(e.message().contains("bar.dll"));
    let e2 = OpenGLHookError::InjectionFailed("timeout".into());
    assert!(e2.message().contains("timeout"));
    let e3 = OpenGLHookError::ShmNotAvailable;
    assert!(e3.message().contains("SHM"));
    let e4 = OpenGLHookError::FrameCorrupt("bad magic".into());
    assert!(e4.message().contains("bad magic"));
}

#[test]
fn probe_reports_the_missing_path() {
    assert_eq!(probe_verdict("/a/hook.dll".into(), true), Ok(()));
    assert_eq!(
        probe_verdict("/a/hook.dll".into(), false),
        Err(OpenGLHookError::DllNotFound("/a/hook.dll".into()))
    );
    assert_eq!(
        OpenGLHookError::DllNotFound("/a/hook.dll".into()).message(),
        "OpenGL hook DLL not found: /a/hook.dll"
    );
}

#[test]
fn default_output_settings() {
    let settings = OutputSettings::default();
    assert_eq!(settings.width, 1920);
    assert_eq!(settings.height, 1080);
    assert_eq!(settings.fps, 30);
    assert_eq!(settings.bitrate, 5000);
    assert_eq!(settings.encoder, "h264");
}

#[test]
fn file_output_start_stop_lifecycle() {
    let mut output = FileOutput::new("/tmp/example.mp4", OutputSettings::default());
    assert!(!output.is_active());
    output.start();
    assert!(output.is_active());
    output.stop();
    assert!(!output.is_active());
    assert_eq!(output.get_settings().width, 1920);
    assert_eq!(output.file_path, "/tmp/example.mp4");
}

#[test]
fn resolve_dll_path_uses_config_override() {
    let cfg = rivulet_core::opengl_hook::OpenGLHookConfig {
        dll_path: Some("/custom/path.dll".to_string()),
        ..Default::default()
    };
    let p = rivulet_core::opengl_hook::resolve_dll_path(&cfg, "/opt/rivulet/bin");
    assert_eq!(p, "/custom/path.dll");
}

#[test]
fn resolve_dll_path_defaults_to_exe_dir() {
    let cfg = rivulet_core::opengl_hook::OpenGLHookConfig::default();
    let p = rivulet_core::opengl_hook::resolve_dll_path(&cfg, "/opt/rivulet/bin");
    assert_eq!(p, "/opt/rivulet/bin/rivulet_opengl_hook_dll.dll");
    assert!(p.ends_with("rivulet_opengl_hook_dll.dll"));
}
