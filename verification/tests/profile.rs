use lineark::embeds::{check_download_target, download_file_name, mime_for_lowercase, mime_from_extension};
use lineark::profile::{
    active_profile, discover_profiles, display_path, not_found_error, profile_from_file_name,
    sort_strings, token_file_name, token_path, usage_token_notes,
};
use lineark::update_hint::format_update_hint;
use std::path::Path;

fn v(xs: &[&str]) -> Vec<String> {
    xs.iter().map(|x| x.to_string()).collect()
}

#[test]
fn token_paths_and_display_paths() {
    assert_eq!(token_file_name("default"), ".linear_api_token");
    assert_eq!(token_file_name("work"), ".linear_api_token_work");
    assert_eq!(token_path(Path::new("/home/u"), "work"), Path::new("/home/u/.linear_api_token_work"));
    assert_eq!(token_path(Path::new("/home/u"), "default"), Path::new("/home/u/.linear_api_token"));
    assert_eq!(display_path("default"), "~/.linear_api_token");
    assert_eq!(display_path("work"), "~/.linear_api_token_work");
}

#[test]
fn not_found_error_lists_profiles() {
    let m = not_found_error("staging", true, &v(&["personal", "work"]));
    assert_eq!(
        m,
        "Profile \"staging\" not found. Available profiles: \"default\", \"personal\", \"work\".\nCreate it with:\n  echo \"lin_api_...\" > ~/.linear_api_token_staging"
    );
    let none = not_found_error("x", false, &Vec::new());
    assert_eq!(none, "Profile \"x\" not found. No profiles found.\nCreate it with:\n  echo \"lin_api_...\" > ~/.linear_api_token_x");
}

#[test]
fn discovery_strips_prefix_skips_test_and_sorts() {
    let files = v(&[".linear_api_token_work", ".bashrc", ".linear_api_token_", ".linear_api_token_test", ".linear_api_token", ".linear_api_token_alpha"]);
    assert_eq!(discover_profiles(&files), v(&["alpha", "work"]));
    assert_eq!(profile_from_file_name(".linear_api_token_Test"), Some("Test".to_string()));
    assert_eq!(sort_strings(v(&["b", "B", "a", "b"])), v(&["B", "a", "b", "b"]));
}

#[test]
fn usage_notes_about_token_files() {
    assert_eq!(active_profile(None), "default");
    assert_eq!(active_profile(Some("work")), "work");
    let (note, extra) = usage_token_notes("work", true, true, &v(&["personal", "work"]));
    assert_eq!(note, " (found, active profile: \"work\")");
    assert_eq!(extra, "\n    other available profiles: \"default\", \"personal\".\n    switch with --profile <name>");
    let (n2, e2) = usage_token_notes("default", false, true, &Vec::new());
    assert_eq!(n2, " (not found)");
    assert_eq!(e2, "");
}

#[test]
fn update_hint_only_for_other_versions() {
    assert_eq!(format_update_hint("1.2.0", None), "");
    assert_eq!(format_update_hint("1.2.0", Some("1.2.0")), "");
    assert_eq!(
        format_update_hint("1.2.0", Some("1.3.0")),
        "\nUpdate available: 1.2.0 → 1.3.0\nRun `lineark self update` to upgrade.\n"
    );
}

#[test]
fn download_names_come_from_the_url_path() {
    assert_eq!(download_file_name("https://uploads.linear.app/a/b/shot.png?sig=1/2"), "shot.png");
    assert_eq!(download_file_name("https://x.y/dir/"), "download");
    assert_eq!(download_file_name("https://x.y/my%20file.pdf"), "my file.pdf");
    assert_eq!(download_file_name("plain"), "plain");
    assert_eq!(download_file_name("https://x.y/a%ZZ"), "a%ZZ");
    assert!(check_download_target(false, false, "f").is_ok());
    assert!(check_download_target(true, true, "f").is_ok());
    assert_eq!(check_download_target(true, false, "f.png").err().unwrap(), "File 'f.png' already exists. Use --overwrite to replace it.");
}

#[test]
fn mime_types_from_extensions() {
    assert_eq!(mime_from_extension(Some("PNG")), "image/png");
    assert_eq!(mime_from_extension(Some("jpeg")), "image/jpeg");
    assert_eq!(mime_from_extension(Some("Md")), "text/plain");
    assert_eq!(mime_from_extension(Some("gz")), "application/gzip");
    assert_eq!(mime_from_extension(None), "application/octet-stream");
    assert_eq!(mime_from_extension(Some("exe")), "application/octet-stream");
    assert_eq!(mime_for_lowercase("svg"), "image/svg+xml");
    assert_eq!(mime_for_lowercase("SVG"), "application/octet-stream");
}
