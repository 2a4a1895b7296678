use ampkg::paths::{
    Config, CACHE_DIR, CONFIG_DIR, LOG_DIR, PKGINSTALL_DIR,
    get_public_keys, is_public_key_name, join_path, partial_path, signature_file_name,
    signature_path, staged_path, url_file_name, KeyCandidate, PUBLIC_KEYS_DIR, SIGNATURE_DIR,
};

#[test]
fn file_name_is_last_segment_of_url() {
    assert_eq!(
        url_file_name("https://ftp.konoha.rest/amaryllis/packages/base-1.0.0~amary1.amp"),
        "base-1.0.0~amary1.amp"
    );
    assert_eq!(url_file_name("base.amp"), "base.amp");
    assert_eq!(url_file_name("https://host/dir/"), "");
    assert_eq!(url_file_name(""), "");
    assert_eq!(url_file_name("/"), "");
    assert_eq!(url_file_name("a/b/c"), "c");
}

#[test]
fn file_name_keeps_characters_outside_ascii() {
    assert_eq!(url_file_name("https://host/パッケージ/基本.amp"), "基本.amp");
}

#[test]
fn signature_name_appends_minisig() {
    assert_eq!(
        signature_file_name("https://ftp.konoha.rest/amaryllis/packages/base-1.0.0~amary1.amp"),
        "base-1.0.0~amary1.amp.minisig"
    );
    assert_eq!(signature_file_name("x"), "x.minisig");
    assert_eq!(signature_file_name("https://host/"), ".minisig");
}

#[test]
fn join_adds_a_separator_where_needed() {
    assert_eq!(join_path("/tmp/minisign_files", "a.minisig"), "/tmp/minisign_files/a.minisig");
    assert_eq!(join_path("/tmp/minisign_files/", "a.minisig"), "/tmp/minisign_files/a.minisig");
    assert_eq!(join_path("", "a.minisig"), "a.minisig");
    assert_eq!(join_path("/tmp", "/abs/a"), "/abs/a");
    assert_eq!(join_path("/tmp", ""), "/tmp/");
}

#[test]
fn join_agrees_with_std_path_join() {
    let cases = [
        ("/tmp/minisign_files", "a.minisig"),
        ("/tmp/minisign_files/", "a.minisig"),
        ("", "a"),
        ("rel", "b/c"),
        ("/x", "/abs"),
    ];
    for (dir, name) in cases {
        let expected = std::path::Path::new(dir).join(name);
        assert_eq!(join_path(dir, name), expected.to_str().unwrap());
    }
}

#[test]
fn signature_is_looked_for_in_staging_directory() {
    assert_eq!(
        signature_path(SIGNATURE_DIR, "https://host/p/base-1.0.0~amary1.amp"),
        "/tmp/minisign_files/base-1.0.0~amary1.amp.minisig"
    );
    assert_eq!(
        staged_path(SIGNATURE_DIR, "https://host/p/base-1.0.0~amary1.amp.minisig"),
        "/tmp/minisign_files/base-1.0.0~amary1.amp.minisig"
    );
}

#[test]
fn staged_signature_is_where_payload_expects_it() {
    let payload = "https://host/p/tool-2.1.amp";
    let signature = "https://mirror/sigs/tool-2.1.amp.minisig";
    assert_eq!(signature_path("/s", payload), staged_path("/s", signature));
}

#[test]
fn partial_path_appends_part() {
    assert_eq!(partial_path("/tmp/base.amp"), "/tmp/base.amp.part");
    assert_eq!(partial_path(""), ".part");
}

#[test]
fn key_names_end_in_pub_with_a_stem() {
    assert!(is_public_key_name("/usr/share/ampkg/keys/release.pub"));
    assert!(is_public_key_name("a.pub"));
    assert!(is_public_key_name("a.b.pub"));
    assert!(is_public_key_name("..pub"));
    assert!(!is_public_key_name(".pub"));
    assert!(!is_public_key_name("/usr/share/ampkg/keys/.pub"));
    assert!(!is_public_key_name("release.pub.txt"));
    assert!(!is_public_key_name("release.PUB"));
    assert!(!is_public_key_name("releasepub"));
    assert!(!is_public_key_name("pub"));
    assert!(!is_public_key_name(""));
    assert!(!is_public_key_name("dir.pub/file"));
}

#[test]
fn key_names_agree_with_std_extension() {
    let cases = ["a.pub", ".pub", "x/y.pub", "x/.pub", "a.b.pub", "a.txt", "noext", "..pub", "a.pu"];
    for case in cases {
        let expected =
            std::path::Path::new(case).extension().and_then(|s| s.to_str()) == Some("pub");
        assert_eq!(is_public_key_name(case), expected, "{}", case);
    }
}

#[test]
fn public_keys_are_the_pub_files_in_order() {
    let candidates = vec![
        KeyCandidate { path: format!("{}/b.pub", PUBLIC_KEYS_DIR), is_file: true },
        KeyCandidate { path: format!("{}/notes.txt", PUBLIC_KEYS_DIR), is_file: true },
        KeyCandidate { path: format!("{}/dir.pub", PUBLIC_KEYS_DIR), is_file: false },
        KeyCandidate { path: format!("{}/a.pub", PUBLIC_KEYS_DIR), is_file: true },
    ];
    let keys = get_public_keys(&candidates);
    assert_eq!(keys, vec!["/usr/share/ampkg/keys/b.pub", "/usr/share/ampkg/keys/a.pub"]);
}

#[test]
fn no_candidates_give_no_keys() {
    assert!(get_public_keys(&Vec::new()).is_empty());
    let only_dirs = vec![KeyCandidate { path: "k.pub".to_string(), is_file: false }];
    assert!(get_public_keys(&only_dirs).is_empty());
}

#[test]
fn default_directories() {
    let config = Config::default();
    assert_eq!(config.config_dir, "/etc/ampkg");
    assert_eq!(config.cache_dir, "/var/cache/ampkg");
    assert_eq!(config.log_dir, "/var/log/ampkg");
    assert_eq!(config.public_keys_dir, "/usr/share/ampkg/keys");
    assert_eq!(config.pkginstall_dir, "/tmp/ampkg/pkginstall");
    assert_eq!(config.signature_dir, "/tmp/minisign_files");
    assert_eq!(CONFIG_DIR, "/etc/ampkg");
    assert_eq!(CACHE_DIR, "/var/cache/ampkg");
    assert_eq!(LOG_DIR, "/var/log/ampkg");
    assert_eq!(PKGINSTALL_DIR, "/tmp/ampkg/pkginstall");
}
