use tsunu_alive::image::{encode_rgba_png, path_within, temp_image_name};
use tsunu_alive::setup::{
    check_setup_done, check_skill_installed, extension_listed, join_path, pick_vscode_cli, skill_md_file,
};

#[test]
fn vscode_cli_prefers_cmd() {
    let out = "C:\\Program Files\\Microsoft VS Code\\bin\\code\r\nC:\\Program Files\\Microsoft VS Code\\bin\\code.cmd\r\n";
    assert_eq!(pick_vscode_cli(out).as_deref(), Some("C:\\Program Files\\Microsoft VS Code\\bin\\code.cmd"));
    assert_eq!(pick_vscode_cli("  /usr/bin/code  \n").as_deref(), Some("/usr/bin/code"));
    assert_eq!(pick_vscode_cli(""), None);
    assert_eq!(pick_vscode_cli("\n/usr/bin/code"), None);
}

#[test]
fn extension_listing_ignores_case_and_blanks() {
    assert!(extension_listed("ms-python.python\n  Tsunu-Alive.Tsunu-Alive-Connector \nrust-lang.rust-analyzer\n"));
    assert!(!extension_listed("tsunu-alive.tsunu-alive-connector-extra\n"));
    assert!(!extension_listed(""));
}

#[test]
fn paths_join_like_pathbuf() {
    assert_eq!(join_path("/home/u", ".tool", false), "/home/u/.tool");
    assert_eq!(join_path("/home/u/", ".tool", false), "/home/u/.tool");
    assert_eq!(join_path("", "x", false), "x");
    assert_eq!(join_path("C:\\Users\\u", ".tool", true), "C:\\Users\\u\\.tool");
    assert_eq!(join_path("C:/Users/u/", "x", true), "C:/Users/u/x");
    assert_eq!(skill_md_file("/home/u", ".tool", false), "/home/u/.tool/skills/uni/SKILL.md");
}

#[test]
fn markers_without_home() {
    assert!(!check_skill_installed(None, ".tool", false));
    assert!(check_setup_done(None, false));
    assert!(!check_skill_installed(Some("/nonexistent-home-for-test"), ".tool", false));
    assert!(!check_setup_done(Some("/nonexistent-home-for-test"), false));
}

#[test]
fn temp_images_are_named_and_confined() {
    assert_eq!(temp_image_name("20260101_120000_123"), "clipboard_20260101_120000_123.png");
    assert!(path_within("/tmp/tsunu_alive/clipboard_1.png", "/tmp/tsunu_alive", false));
    assert!(path_within("/tmp//tsunu_alive/./x.png", "/tmp/tsunu_alive/", false));
    assert!(!path_within("/tmp/tsunu_alive_other/x.png", "/tmp/tsunu_alive", false));
    assert!(!path_within("tmp/tsunu_alive/x.png", "/tmp/tsunu_alive", false));
    assert!(!path_within("/tmp", "/tmp/tsunu_alive", false));
    assert!(path_within("C:\\Temp\\tsunu_alive\\a.png", "C:\\Temp\\tsunu_alive", true));
}

#[test]
fn png_encoding_of_pasted_pixels() {
    let pixels = vec![255u8, 0, 0, 255, 0, 255, 0, 255];
    let png = encode_rgba_png(&pixels, 2, 1).unwrap();
    assert_eq!(&png[..8], &[137, 80, 78, 71, 13, 10, 26, 10]);
    assert_eq!(encode_rgba_png(&pixels, 0, 1).unwrap_err(), "Failed to write PNG header: Zero width not allowed");
    assert_eq!(encode_rgba_png(&pixels, 1, 0).unwrap_err(), "Failed to write PNG header: Zero height not allowed");
    assert_eq!(
        encode_rgba_png(&pixels, 3, 1).unwrap_err(),
        "Failed to write PNG data: wrong data size, expected 12 got 8"
    );
}

#[test]
fn clean_up_refuses_paths_that_climb_out() {
    assert!(!path_within("/t/../x", "/t", false));
    assert!(!path_within("/tmp/tsunu_alive/../secret.txt", "/tmp/tsunu_alive", false));
    assert!(!path_within("/tmp/tsunu_alive/a/../../x", "/tmp/tsunu_alive", false));
    assert!(!path_within("/tmp/tsunu_alive/..", "/tmp/tsunu_alive", false));
    assert!(!path_within("/../tmp/tsunu_alive/x", "/tmp/tsunu_alive", false));
    assert!(path_within("/tmp/tsunu_alive/a/../b.png", "/tmp/tsunu_alive", false));
    assert!(!path_within("/tmp/x/../tsunu_alive/f", "/tmp/tsunu_alive", false));
    assert!(!path_within("C:\\Temp\\tsunu_alive\\..\\x.txt", "C:\\Temp\\tsunu_alive", true));
}
