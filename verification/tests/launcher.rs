use gameframe_launcher::{
    adjust_fps, build, build_profile, child_verdict, env_assignments, extract_opengl_version,
    has_command, thermal_reading, usage_message, Backend, HardwareProfile,
};
use gameframe_launcher::text::{i32_to_string, u32_to_string};

fn profile(vulkan: bool, xwayland: bool) -> HardwareProfile {
    build_profile(None, vulkan, None, xwayland)
}

#[test]
fn fps_tiers_above_hot_boundary() {
    assert_eq!(adjust_fps(86), 30);
    assert_eq!(adjust_fps(100), 30);
    assert_eq!(adjust_fps(u32::MAX), 30);
}

#[test]
fn fps_tiers_boundaries_take_strict_comparisons() {
    assert_eq!(adjust_fps(85), 60);
    assert_eq!(adjust_fps(71), 60);
    assert_eq!(adjust_fps(70), 120);
    assert_eq!(adjust_fps(51), 120);
    assert_eq!(adjust_fps(50), 144);
    assert_eq!(adjust_fps(0), 144);
}

#[test]
fn vsync_on_exactly_for_low_caps() {
    let p = profile(true, false);
    let hot = build(&p, 100);
    assert_eq!(hot.fps_cap, 30);
    assert!(hot.vsync_enabled);
    let warm = build(&p, 80);
    assert_eq!(warm.fps_cap, 60);
    assert!(warm.vsync_enabled);
    let mild = build(&p, 60);
    assert_eq!(mild.fps_cap, 120);
    assert!(!mild.vsync_enabled);
    let cool = build(&p, 20);
    assert_eq!(cool.fps_cap, 144);
    assert!(!cool.vsync_enabled);
}

#[test]
fn backend_follows_vulkan_probe() {
    let with_vulkan = build(&profile(true, false), 60);
    assert_eq!(with_vulkan.backend, Backend::Vulkan);
    let without_vulkan = build(&profile(false, false), 60);
    assert_eq!(without_vulkan.backend, Backend::Opengl);
}

#[test]
fn compat_layer_mirrors_xwayland() {
    assert!(build(&profile(true, true), 60).compat_layer_enabled);
    assert!(!build(&profile(true, false), 60).compat_layer_enabled);
}

#[test]
fn thermal_reading_parses_plain_values() {
    assert_eq!(thermal_reading(Some("0")), 0);
    assert_eq!(thermal_reading(Some("70")), 70);
    assert_eq!(thermal_reading(Some("+42")), 42);
    assert_eq!(thermal_reading(Some("070")), 70);
    assert_eq!(thermal_reading(Some("4294967295")), u32::MAX);
}

#[test]
fn thermal_reading_falls_back_to_default() {
    assert_eq!(thermal_reading(None), 70);
    assert_eq!(thermal_reading(Some("")), 70);
    assert_eq!(thermal_reading(Some("+")), 70);
    assert_eq!(thermal_reading(Some("abc")), 70);
    assert_eq!(thermal_reading(Some("12x")), 70);
    assert_eq!(thermal_reading(Some(" 70")), 70);
    assert_eq!(thermal_reading(Some("-5")), 70);
    assert_eq!(thermal_reading(Some("4294967296")), 70);
    assert_eq!(thermal_reading(Some("99999999999999999999")), 70);
}

#[test]
fn missing_reading_behaves_as_default_reading() {
    let t = thermal_reading(None);
    let c = build(&profile(true, false), t);
    assert_eq!(c.fps_cap, 120);
    assert!(!c.vsync_enabled);
    let explicit = build(&profile(true, false), 70);
    assert_eq!(c, explicit);
}

#[test]
fn missing_vendor_defaults_to_unknown() {
    let p = build_profile(None, true, None, false);
    assert_eq!(p.gpu_vendor.as_str(), "unknown");
    assert_eq!(p.opengl_version.as_str(), "unknown");
}

#[test]
fn vendor_is_informational_only() {
    let a = build(&build_profile(None, true, None, true), 90);
    let b = build(&build_profile(Some(String::from("SomeVendor")), true, None, true), 90);
    assert_eq!(a, b);
}

#[test]
fn opengl_version_extracted_from_marker_line() {
    let out = "name of display: :0\n\
               OpenGL vendor string: NVIDIA Corporation\n\
               OpenGL version string: 4.6.0 NVIDIA 535.54\n\
               OpenGL shading language version string: 4.60 NVIDIA\n";
    assert_eq!(extract_opengl_version(out).as_str(), "4.6.0 NVIDIA 535.54");
}

#[test]
fn opengl_version_unknown_without_marker_line() {
    assert_eq!(extract_opengl_version("").as_str(), "unknown");
    assert_eq!(extract_opengl_version("no version here\nnothing\n").as_str(), "unknown");
}

#[test]
fn opengl_version_handles_crlf_lines() {
    let out = "header\r\nOpenGL version string: 3.3.0 Mesa\r\ntrailer\r\n";
    assert_eq!(extract_opengl_version(out).as_str(), "3.3.0 Mesa");
}

#[test]
fn opengl_version_takes_last_colon_segment() {
    let out = "OpenGL version string: nested: 4.5.0\n";
    assert_eq!(extract_opengl_version(out).as_str(), "4.5.0");
}

#[test]
fn opengl_version_line_without_colon_is_taken_whole() {
    let out = "  OpenGL version 4.2 here  \n";
    assert_eq!(extract_opengl_version(out).as_str(), "OpenGL version 4.2 here");
}

#[test]
fn opengl_version_line_ending_in_colon_yields_empty() {
    let out = "OpenGL version string:\n";
    assert_eq!(extract_opengl_version(out).as_str(), "");
}

#[test]
fn opengl_version_final_line_needs_no_newline() {
    let out = "OpenGL version string: 4.6.0";
    assert_eq!(extract_opengl_version(out).as_str(), "4.6.0");
}

#[test]
fn env_assignments_without_compat_layer() {
    let c = build(&profile(true, false), 60);
    let vars = env_assignments(&c);
    assert_eq!(vars.len(), 3);
    assert_eq!(vars[0].0, "GAMEFRAME_API");
    assert_eq!(vars[0].1.as_str(), "vulkan");
    assert_eq!(vars[1].0, "GAMEFRAME_FPS");
    assert_eq!(vars[1].1.as_str(), "120");
    assert_eq!(vars[2].0, "GAMEFRAME_VSYNC");
    assert_eq!(vars[2].1.as_str(), "0");
}

#[test]
fn env_assignments_with_compat_layer() {
    let c = build(&profile(false, true), 90);
    let vars = env_assignments(&c);
    assert_eq!(vars.len(), 4);
    assert_eq!(vars[0].0, "GAMEFRAME_XWAYLAND");
    assert_eq!(vars[0].1.as_str(), "1");
    assert_eq!(vars[1].0, "GAMEFRAME_API");
    assert_eq!(vars[1].1.as_str(), "opengl");
    assert_eq!(vars[2].0, "GAMEFRAME_FPS");
    assert_eq!(vars[2].1.as_str(), "30");
    assert_eq!(vars[3].0, "GAMEFRAME_VSYNC");
    assert_eq!(vars[3].1.as_str(), "1");
}

#[test]
fn decimal_rendering() {
    assert_eq!(u32_to_string(0).as_str(), "0");
    assert_eq!(u32_to_string(7).as_str(), "7");
    assert_eq!(u32_to_string(144).as_str(), "144");
    assert_eq!(u32_to_string(u32::MAX).as_str(), "4294967295");
    assert_eq!(i32_to_string(-3).as_str(), "-3");
    assert_eq!(i32_to_string(i32::MIN).as_str(), "-2147483648");
}

#[test]
fn missing_command_is_refused() {
    assert!(!has_command(0));
    assert!(!has_command(1));
    assert!(has_command(2));
    assert!(has_command(5));
}

#[test]
fn usage_line_names_the_program() {
    assert_eq!(
        usage_message("launcher").as_str(),
        "Usage: launcher <command> [args...]"
    );
}

#[test]
fn failing_child_maps_to_exit_one_with_status_in_diagnostic() {
    let v = child_verdict(false, Some(1));
    assert_eq!(v.exit_code, 1);
    let d = v.diagnostic.expect("diagnostic expected on failure");
    assert_eq!(d.as_str(), "Game launch failed with status: 1");
    assert!(d.contains('1'.to_string().as_str()));
}

#[test]
fn successful_child_maps_to_silent_exit_zero() {
    let v = child_verdict(true, Some(0));
    assert_eq!(v.exit_code, 0);
    assert!(v.diagnostic.is_none());
}

#[test]
fn signalled_child_maps_to_exit_one() {
    let v = child_verdict(false, None);
    assert_eq!(v.exit_code, 1);
    assert_eq!(
        v.diagnostic.expect("diagnostic expected on failure").as_str(),
        "Game launch failed with status: signal"
    );
}
