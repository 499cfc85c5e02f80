use hyperlinked::fonts::{
    compact_family, default_required_families, diagnostics_from_matches,
    diagnostics_without_fontconfig, diagnostics_without_probe, fc_match_satisfies_family,
    install_hint_for, package_manager_hint, parse_bool_setting, parse_fc_match_family,
    parse_required_families, LinuxPackageManager, APT_INSTALL_HINT,
};

#[test]
fn parse_required_families_trims_and_deduplicates() {
    let families =
        parse_required_families(" Noto Sans, Noto Serif, noto sans, ,Noto Color Emoji ");
    assert_eq!(
        families,
        vec!["Noto Sans", "Noto Serif", "Noto Color Emoji"]
    );
}

#[test]
fn parse_fc_match_family_extracts_quoted_family() {
    let parsed = parse_fc_match_family(r#"NotoSans-Regular.ttf: "Noto Sans" "Regular""#);
    assert_eq!(parsed.as_deref(), Some("Noto Sans"));
}

#[test]
fn fc_match_satisfies_family_accepts_exact_and_extended_matches() {
    assert!(fc_match_satisfies_family("Noto Sans", "Noto Sans"));
    assert!(fc_match_satisfies_family("Noto Sans", "Noto Sans CJK JP"));
    assert!(!fc_match_satisfies_family("Noto Sans", "DejaVu Sans"));
}

#[test]
fn package_manager_hint_detects_apt() {
    let os_release = r#"ID=ubuntu
ID_LIKE=debian
"#;
    assert_eq!(
        package_manager_hint(Some(os_release)),
        LinuxPackageManager::Apt
    );
}

#[test]
fn package_manager_hint_detects_dnf() {
    let os_release = r#"ID=fedora
ID_LIKE="rhel fedora"
"#;
    assert_eq!(
        package_manager_hint(Some(os_release)),
        LinuxPackageManager::Dnf
    );
}

#[test]
fn package_manager_hint_detects_apk() {
    let os_release = r#"ID=alpine"#;
    assert_eq!(
        package_manager_hint(Some(os_release)),
        LinuxPackageManager::Apk
    );
}

#[test]
fn package_manager_hint_unknown_and_hints() {
    assert_eq!(package_manager_hint(None), LinuxPackageManager::Unknown);
    assert_eq!(package_manager_hint(Some("NAME=Arch\nID=arch")), LinuxPackageManager::Unknown);
    assert_eq!(install_hint_for(LinuxPackageManager::Apt), APT_INSTALL_HINT);
    let unknown = install_hint_for(LinuxPackageManager::Unknown);
    assert!(unknown.starts_with("Install fontconfig + Noto fonts"));
    assert!(unknown.contains("\nAlpine: apk add"));
}

#[test]
fn fc_match_output_fallbacks() {
    assert_eq!(parse_fc_match_family("DejaVuSans.ttf: DejaVu").as_deref(), Some("DejaVuSans.ttf"));
    assert_eq!(parse_fc_match_family("plain line").as_deref(), Some("plain line"));
    assert_eq!(parse_fc_match_family(": \"\" tail").as_deref(), Some(": \"\" tail"));
    assert_eq!(parse_fc_match_family("   \nsecond"), None);
    assert_eq!(parse_fc_match_family(""), None);
    assert_eq!(compact_family("Noto Sans-CJK!"), "notosanscjk");
    assert!(!fc_match_satisfies_family("!!", "anything"));
}

#[test]
fn default_families_and_settings() {
    assert_eq!(
        default_required_families(),
        vec!["Noto Sans", "Noto Serif", "Noto Sans Mono", "Noto Color Emoji"]
    );
    assert!(parse_bool_setting(Some(" YES "), false));
    assert!(!parse_bool_setting(Some("off"), true));
    assert!(parse_bool_setting(Some("maybe"), true));
    assert!(!parse_bool_setting(None, false));
}

#[test]
fn diagnostics_assembly() {
    let families = vec!["Noto Sans".to_string(), "Noto Serif".to_string()];
    let off = diagnostics_without_probe(false, true, "linux", families.clone(), Some("hint".to_string())).unwrap();
    assert!(off.applicable && !off.has_missing_fonts());
    assert!(off.screenshot_artifact_context().is_none());
    assert!(diagnostics_without_probe(true, true, "linux", families.clone(), None).is_none());
    let mac = diagnostics_without_probe(true, false, "macos", families.clone(), None).unwrap();
    assert!(!mac.applicable && mac.install_hint.is_none());

    let broken = diagnostics_without_fontconfig("linux", families.clone(), None, "no fc-list".to_string());
    assert!(broken.has_missing_fonts());
    assert_eq!(broken.missing_families, families);

    let outputs = vec![
        Ok("NotoSans-Regular.ttf: \"Noto Sans\" \"Regular\"".to_string()),
        Ok("DejaVuSerif.ttf: \"DejaVu Serif\" \"Book\"".to_string()),
    ];
    let found = diagnostics_from_matches("linux", families.clone(), &outputs, None);
    assert_eq!(found.missing_families, vec!["Noto Serif".to_string()]);
    assert!(found.has_missing_fonts());
    let ctx = found.screenshot_artifact_context().unwrap();
    assert_eq!(ctx.resolved_matches[1].matched_font.as_deref(), Some("DejaVu Serif"));
    let failed = vec![Ok("NotoSans.ttf: \"Noto Sans\"".to_string()), Err("boom".to_string())];
    let partial = diagnostics_from_matches("linux", families, &failed, None);
    assert_eq!(partial.missing_families, vec!["Noto Serif".to_string()]);
    assert!(partial.resolved_matches[1].matched_font.is_none());
}
