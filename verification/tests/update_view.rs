use std::cmp::Ordering;

use lazyifconfig::model::RouteFamily;
use lazyifconfig::app::ViewMode;
use lazyifconfig::update::{
    compare_versions, evaluate_release, normalize_release_notes, parse_version_parts,
    release_api_url, select_release_asset, summarize_release_notes, CheckOutcome, ReleaseAsset,
    ReleaseInfo, UpdateStatus,
};
use lazyifconfig::view::{
    calculate_ipv4_subnet_u32, calculate_ipv6_subnet_arr, get_active_command, linux_os_label,
    os_release_value, prefix_len_to_ipv4_mask, render_title, route_family_label,
    route_path_command_error_message, summarize_release_notes_for_banner, truncate_release_notes,
    update_status_label,
};

#[test]
fn summarize_release_notes_uses_first_non_empty_lines() {
    let summary = summarize_release_notes(
        "\n## Highlights\n- Faster scans\n- Better update UI\nMore details later",
    );

    assert_eq!(summary, "Highlights | Faster scans");
}

#[test]
fn normalize_release_notes_falls_back_when_empty() {
    assert_eq!(
        normalize_release_notes("   \n"),
        "Release notes not provided."
    );
}

#[test]
fn release_api_url_points_to_latest_release_endpoint() {
    let url = release_api_url().unwrap();
    assert_eq!(
        url,
        "https://api.github.com/repos/choihunchul/lazyifconfig/releases/latest"
    );
}

#[test]
fn versions_compare_number_by_number() {
    assert_eq!(compare_versions("v1.10.0", "1.9.9"), Ordering::Greater);
    assert_eq!(compare_versions("1.2", "1.2.0"), Ordering::Equal);
    assert_eq!(compare_versions(" v0.3.1 ", "0.3.2"), Ordering::Less);
    assert_eq!(compare_versions("1.2.3-rc1", "1.2.3"), Ordering::Equal);
    assert_eq!(parse_version_parts("v2.0-7.x"), vec![2, 0, 7, 0]);
    assert_eq!(compare_versions("3.1", "3.1"), Ordering::Equal);
}

fn release(tag: &str, assets: &[&str], date: Option<&str>) -> ReleaseInfo {
    ReleaseInfo {
        tag_name: tag.to_string(),
        html_url: format!("https://github.com/choihunchul/lazyifconfig/releases/tag/{tag}"),
        body: "## Highlights\n- Faster scans".to_string(),
        assets: assets
            .iter()
            .map(|name| ReleaseAsset {
                name: name.to_string(),
                download_url: format!("https://example.com/{name}"),
            })
            .collect(),
        release_date: date.map(str::to_string),
    }
}

#[test]
fn newer_release_with_matching_asset_is_available() {
    let target = "x86_64-unknown-linux-gnu";
    let r = release(
        "v9.9.9",
        &["lazyifconfig-v9.9.9-x86_64-unknown-linux-gnu.zip", "lazyifconfig-v9.9.9-x86_64-unknown-linux-gnu.tar.gz"],
        Some("2026-01-01T12:34:56Z"),
    );
    let outcome = evaluate_release(r, "0.1.0", Some(target)).unwrap();
    let CheckOutcome::Available(update) = outcome else {
        panic!("expected available update");
    };
    assert_eq!(update.target_version, "9.9.9");
    assert_eq!(update.current_version, "0.1.0");
    assert_eq!(update.asset_name, "lazyifconfig-v9.9.9-x86_64-unknown-linux-gnu.tar.gz");
    assert!(update.release_notes.contains("Highlights"));
    assert_eq!(update.release_date, "2026-01-01T12:34:56Z");
}

#[test]
fn release_checks_report_their_errors() {
    let r = release("v9.9.9", &["lazyifconfig-v9.9.9-aarch64-apple-darwin.tar.gz"], None);
    assert_eq!(
        evaluate_release(r.clone(), "0.1.0", Some("x86_64-pc-windows-msvc")).unwrap_err(),
        "no release asset found for target x86_64-pc-windows-msvc"
    );
    assert_eq!(
        evaluate_release(r, "0.1.0", None).unwrap_err(),
        "unsupported platform for self-update"
    );
    let same = release("v0.1.0", &[], Some("d"));
    match evaluate_release(same, "0.1.0", None).unwrap() {
        CheckOutcome::UpToDate { current_version, release_date } => {
            assert_eq!(current_version, "0.1.0");
            assert_eq!(release_date, Some("d".to_string()));
        }
        CheckOutcome::Available(_) => panic!("expected up to date"),
    }
}

#[test]
fn zip_assets_are_used_when_there_is_no_tarball() {
    let r = release("v2", &["a-x86_64-apple-darwin.zip", "b-x86_64-apple-darwin.zip"], None);
    assert_eq!(select_release_asset(&r, "x86_64-apple-darwin").unwrap().name, "a-x86_64-apple-darwin.zip");
    assert!(select_release_asset(&r, "aarch64-apple-darwin").is_none());
}

#[test]
fn route_path_command_error_message_uses_literal_destination_label() {
    assert_eq!(
        route_path_command_error_message("lookup failed"),
        "destination could not be resolved by route command: lookup failed"
    );
}

#[test]
fn test_get_active_command() {
    for (os, interface_command, ports_command, route_command) in [
        ("linux", "ip -details -statistics address show", "ss -H -ltnp", "ip route show"),
        ("macos", "ifconfig", "lsof -iTCP -sTCP:LISTEN -P -n", "netstat -rn"),
    ] {
        assert_eq!(get_active_command(ViewMode::Interface, os), interface_command);
        assert_eq!(get_active_command(ViewMode::Network, os), interface_command);
        assert_eq!(get_active_command(ViewMode::Connections, os), "netstat -an");
        assert_eq!(get_active_command(ViewMode::Ports, os), ports_command);
        assert_eq!(get_active_command(ViewMode::Routes, os), route_command);
        assert_eq!(get_active_command(ViewMode::Timeline, os), "event-logger");
    }
}

#[test]
fn titles_and_labels() {
    assert_eq!(render_title(), "lazyifconfig");
    assert_eq!(route_family_label(RouteFamily::Ipv4), "IPv4");
    assert_eq!(route_family_label(RouteFamily::Ipv6), "IPv6");
    assert_eq!(route_family_label(RouteFamily::Unknown), "?");
    assert_eq!(update_status_label(&UpdateStatus::Idle, "0.1.0"), "v0.1.0");
    assert_eq!(
        update_status_label(&UpdateStatus::Checking { manual: true }, "0.1.0"),
        "update: checking(now)"
    );
    assert_eq!(
        update_status_label(&UpdateStatus::Available { version: "1.2.0".to_string() }, "0.1.0"),
        "update: v1.2.0 ready"
    );
    assert_eq!(
        update_status_label(&UpdateStatus::Error { message: "x".to_string() }, "0.1.0"),
        "update: error"
    );
}

#[test]
fn os_release_values_and_labels() {
    let contents = "NAME=\"Ubuntu\"\nVERSION_ID=\"24.04\"\nPRETTY_NAME=\"Ubuntu 24.04 LTS\"\n";
    assert_eq!(os_release_value(contents, "NAME"), Some("Ubuntu".to_string()));
    assert_eq!(os_release_value(contents, "ID"), None);
    assert_eq!(linux_os_label(contents), Some("Ubuntu 24.04 LTS".to_string()));
    assert_eq!(linux_os_label("VERSION_ID=12\n"), Some("Linux 12".to_string()));
    assert_eq!(linux_os_label("PRETTY_NAME=\"\"\n"), None);
}

#[test]
fn masks_and_subnets() {
    assert_eq!(prefix_len_to_ipv4_mask(24), "255.255.255.0");
    assert_eq!(prefix_len_to_ipv4_mask(0), "0.0.0.0");
    assert_eq!(prefix_len_to_ipv4_mask(33), "255.255.255.255");
    assert_eq!(prefix_len_to_ipv4_mask(20), "255.255.240.0");
    assert_eq!(calculate_ipv4_subnet_u32(0xC0A8_012A, 24), 0xC0A8_0100);
    let octets = [0x20u8, 0x01, 0x0d, 0xb8, 0x12, 0x34, 0x56, 0x78, 0, 0, 0, 0, 0, 0, 0, 1];
    let net = calculate_ipv6_subnet_arr(&octets, 36);
    assert_eq!(net, vec![0x20, 0x01, 0x0d, 0xb8, 0x10, 0, 0, 0, 0, 0, 0, 0, 0, 0, 0, 0]);
}

#[test]
fn banner_notes_are_summarised_and_cut() {
    assert_eq!(truncate_release_notes("abcdef", 3), "abc...");
    assert_eq!(truncate_release_notes("abc", 3), "abc");
    assert_eq!(
        summarize_release_notes_for_banner("## New\n* Faster\n- more", 100),
        "New | Faster"
    );
    assert_eq!(summarize_release_notes_for_banner("  ##  \n", 100), "##");
    assert_eq!(summarize_release_notes_for_banner("Long line here", 4), "Long...");
}

#[test]
fn evaluate_release_json_returns_available_update_for_newer_version() {
    let target = "x86_64-unknown-linux-gnu";
    let release = ReleaseInfo {
        tag_name: "v9.9.9".to_string(),
        html_url: "https://github.com/hunchulchoi/lazyifconfig/releases/tag/v9.9.9".to_string(),
        body: "## Highlights\n- Faster scans\n- Better update UI".to_string(),
        assets: vec![ReleaseAsset {
            name: format!("lazyifconfig-v9.9.9-{target}.tar.gz"),
            download_url: format!("https://example.com/lazyifconfig-v9.9.9-{target}.tar.gz"),
        }],
        release_date: Some("2026-01-01T12:34:56Z".to_string()),
    };

    let result = evaluate_release(release, "0.1.0", Some(target)).unwrap();
    let CheckOutcome::Available(update) = result else {
        panic!("expected available update");
    };

    assert_eq!(update.target_version, "9.9.9");
    assert_eq!(
        update.asset_name,
        format!("lazyifconfig-v9.9.9-{target}.tar.gz")
    );
    assert!(update.release_notes.contains("Highlights"));
    assert!(update.release_notes.contains("Faster scans"));
    assert_eq!(update.release_date, "2026-01-01T12:34:56Z");
}

#[test]
fn evaluate_release_json_returns_up_to_date_for_same_version() {
    let current = "0.1.0";
    let target = "x86_64-unknown-linux-gnu";
    let release = ReleaseInfo {
        tag_name: format!("v{current}"),
        html_url: format!("https://github.com/hunchulchoi/lazyifconfig/releases/tag/v{current}"),
        body: String::new(),
        assets: vec![ReleaseAsset {
            name: format!("lazyifconfig-v{current}-{target}.tar.gz"),
            download_url: format!("https://example.com/lazyifconfig-v{current}-{target}.tar.gz"),
        }],
        release_date: Some("2026-01-01T12:34:56Z".to_string()),
    };

    let result = evaluate_release(release, current, Some(target)).unwrap();
    match result {
        CheckOutcome::UpToDate {
            current_version,
            release_date,
        } => {
            assert_eq!(current_version, current);
            assert_eq!(release_date, Some("2026-01-01T12:34:56Z".to_string()));
        }
        CheckOutcome::Available(_) => panic!("expected up to date"),
    }
}
