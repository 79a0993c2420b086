use prism_bootstrap::platform::{expand_platform, Platform};

#[test]
fn linux_token_is_x86_64_with_colon_separator() {
    let ctx = expand_platform(Platform::Linux);
    assert_eq!(ctx.os_token, "linux");
    assert_eq!(ctx.os_name, "linux");
    assert_eq!(ctx.arch, "x86_64");
    assert_eq!(ctx.path_sep, ':');
    assert_eq!(ctx.arch_number(), "64");
}

#[test]
fn windows_tokens_use_semicolon_separator() {
    assert_eq!(expand_platform(Platform::Windows).path_sep, ';');
    assert_eq!(expand_platform(Platform::WindowsArm64).path_sep, ';');
    assert_eq!(expand_platform(Platform::WindowsX86).path_sep, ';');
}

#[test]
fn windows_x86_maps_to_x86_and_arch_marker_32() {
    let ctx = expand_platform(Platform::WindowsX86);
    assert_eq!(ctx.os_name, "windows");
    assert_eq!(ctx.arch, "x86");
    assert_eq!(ctx.arch_number(), "32");
}

#[test]
fn osx_arm64_splits_token_into_name_and_arch() {
    let ctx = expand_platform(Platform::OsxArm64);
    assert_eq!(ctx.os_token, "osx-arm64");
    assert_eq!(ctx.os_name, "osx");
    assert_eq!(ctx.arch, "arm64");
    assert_eq!(ctx.path_sep, ':');
}

#[test]
fn features_default_to_false() {
    let ctx = expand_platform(Platform::Linux);
    assert!(!ctx.feature("is_demo_user"));
    assert!(!ctx.feature("has_custom_resolution"));
}

#[test]
fn remaining_tokens_expand() {
    let arm32 = expand_platform(Platform::LinuxArm32);
    assert_eq!((arm32.os_token.as_str(), arm32.arch.as_str()), ("linux-arm32", "arm32"));
    assert_eq!(arm32.arch_number(), "32");
    let ppc = expand_platform(Platform::LinuxPpc64le);
    assert_eq!((ppc.os_token.as_str(), ppc.arch.as_str()), ("linux-ppc64le", "ppc64le"));
    assert_eq!(ppc.arch_number(), "64");
    let bsd = expand_platform(Platform::FreeBsd);
    assert_eq!((bsd.os_name.as_str(), bsd.version.as_str()), ("freebsd", "14.0"));
    assert_eq!(bsd.path_sep, ':');
    assert_eq!(expand_platform(Platform::LinuxArm64).version, "6.1.0");
    assert_eq!(expand_platform(Platform::Osx).version, "13.0.0");
    assert_eq!(expand_platform(Platform::Windows).version, "10.0");
}

#[test]
fn feature_that_is_set_is_on() {
    let mut ctx = expand_platform(Platform::Linux);
    ctx.features.insert("is_demo_user".to_owned(), true);
    ctx.features.insert("has_custom_resolution".to_owned(), false);
    assert!(ctx.feature("is_demo_user"));
    assert!(!ctx.feature("has_custom_resolution"));
}
