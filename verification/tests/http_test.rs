use mpm::http::{
    extract_filename, extract_filename_basic, extract_filename_star, filename_or_default, get_content_type,
    has_content_type, percent_decode, sanitize_filename,
};

#[test]
fn star_parameter_is_decoded() {
    assert_eq!(
        extract_filename_star("attachment; filename*=UTF-8''Geyser-Spigot.jar"),
        Some("Geyser-Spigot.jar".to_string())
    );
    assert_eq!(
        extract_filename_star("attachment; FileName*=utf-8'en'My%20Plugin.jar; size=3"),
        Some("My Plugin.jar".to_string())
    );
    assert_eq!(extract_filename_star("attachment; filename*=\"plain.jar\""), Some("plain.jar".to_string()));
    assert_eq!(extract_filename_star("attachment; filename*=UTF-8'broken.jar"), None);
    assert_eq!(extract_filename_star("attachment; filename=\"x.jar\""), None);
    assert_eq!(extract_filename_star("filename*=UTF-8''%E2%9C%93.jar"), Some("\u{2713}.jar".to_string()));
}

#[test]
fn basic_parameter_skips_the_starred_one() {
    assert_eq!(
        extract_filename_basic("attachment; filename=\"EssentialsX-2.20.jar\""),
        Some("EssentialsX-2.20.jar".to_string())
    );
    assert_eq!(
        extract_filename_basic("attachment; filename*=UTF-8''a.jar; filename=b.jar"),
        Some("b.jar".to_string())
    );
    assert_eq!(extract_filename_basic("attachment; filename*=UTF-8''a.jar"), None);
    assert_eq!(extract_filename_basic("attachment; FILENAME= spaced.jar ;x=y"), Some("spaced.jar".to_string()));
    assert_eq!(extract_filename_basic("attachment; filename=\"=?UTF-8?B?YS5qYXI=?=\""), None);
    assert_eq!(extract_filename_basic("inline"), None);
}

#[test]
fn percent_decode_handles_escapes() {
    assert_eq!(percent_decode("a%20b"), Some("a b".to_string()));
    assert_eq!(percent_decode("100%"), Some("100%".to_string()));
    assert_eq!(percent_decode("%4"), Some("%4".to_string()));
    assert_eq!(percent_decode("%zzx"), Some("%zzx".to_string()));
    assert_eq!(percent_decode("%41"), Some("A".to_string()));
    assert_eq!(percent_decode("%41!"), Some("A!".to_string()));
    assert_eq!(percent_decode("%c3%a9t%C3%A9!"), Some("\u{e9}t\u{e9}!".to_string()));
    assert_eq!(percent_decode("%ff%ff"), None);
    assert_eq!(percent_decode("%+5x"), Some("\u{5}x".to_string()));
    assert_eq!(percent_decode(""), Some(String::new()));
}

#[test]
fn percent_decode_stops_at_a_split_character() {
    assert_eq!(percent_decode("%a\u{e9}x"), None);
    assert_eq!(percent_decode("%\u{e9}x"), Some("%\u{e9}x".to_string()));
}

#[test]
fn sanitize_replaces_unsafe_characters() {
    assert_eq!(sanitize_filename("a<b>c:d\"e/f\\g|h?i*j.jar"), "a_b_c_d_e_f_g_h_i_j.jar");
    assert_eq!(sanitize_filename("tab\there\u{7f}\u{9f}\u{a0}"), "tab_here__\u{a0}");
    assert_eq!(sanitize_filename("Plugin-1.0.jar"), "Plugin-1.0.jar");
}

#[test]
fn filename_prefers_header_then_address() {
    assert_eq!(
        extract_filename(
            Some("attachment; filename=\"b.jar\"; filename*=UTF-8''a%2Fb.jar"),
            "https://example.com/download/x.jar"
        ),
        "a_b.jar"
    );
    assert_eq!(
        extract_filename(Some("attachment; filename=\"b:c.jar\""), "https://example.com/download/x.jar"),
        "b_c.jar"
    );
    assert_eq!(extract_filename(Some("attachment"), "https://example.com/files/x.jar?token=1"), "x.jar");
    assert_eq!(extract_filename(None, "https://example.com/files/y.jar"), "y.jar");
    assert_eq!(extract_filename(None, "https://example.com/files/"), "");
    assert_eq!(extract_filename(None, "plain"), "plain");
}

#[test]
fn content_type_is_read_in_lowercase() {
    assert_eq!(get_content_type(Some("Application/JSON; charset=UTF-8")), Some("application/json; charset=utf-8".to_string()));
    assert_eq!(get_content_type(None), None);
    assert!(has_content_type(Some("Application/Java-Archive"), "java-archive"));
    assert!(has_content_type(Some("text/html"), ""));
    assert!(!has_content_type(Some("text/html"), "json"));
    assert!(!has_content_type(Some("text/html"), "HTML"));
    assert!(!has_content_type(None, "json"));
    assert_eq!(filename_or_default("", "x.jar"), "x.jar");
    assert_eq!(filename_or_default("download.jar", "x.jar"), "x.jar");
    assert_eq!(filename_or_default("real.jar", "x.jar"), "real.jar");
}
