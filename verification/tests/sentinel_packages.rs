use mavis_core::sentinel::change::{ChangeKind, Severity};
use mavis_core::sentinel::packages::{
    entries_since, none_to_empty, parse_dpkg_log, parse_pacman_log, parse_rpm_log, split_nevra,
    settle_with, to_changes, Action, LogLine, PackageManager, Stamp,
};
use mavis_core::sentinel::version::{compare_versions, is_probable_downgrade, tokenize_version};
use std::cmp::Ordering;
use std::collections::HashSet;

const PACMAN_SAMPLE: &str = "\
[2026-09-18T14:32:00+0545] [PACMAN] Running 'pacman -Syu'
[2026-09-18T14:32:01+0545] [ALPM] transaction started
[2026-09-18T14:32:01+0545] [ALPM] installed hyprland (0.41.2-1)
[2026-09-18T14:32:02+0545] [ALPM] upgraded firefox (140.0-1 -> 141.0-1)
[2026-09-18T14:32:03+0545] [ALPM] removed obsolete-thing (1.0-1)
[2026-09-18T14:32:04+0545] [ALPM] downgraded mesa (24.2-1 -> 24.1-1)
[2026-09-18T14:32:05+0545] [ALPM-SCRIPTLET] Updating icon cache...
[2026-09-18T14:32:06+0545] [ALPM] transaction completed
";

#[test]
fn pacman_parses_all_four_actions() {
    let entries = parse_pacman_log(PACMAN_SAMPLE);
    assert_eq!(entries.len(), 4, "got: {:#?}", entries);

    assert_eq!(entries[0].action, Action::Installed);
    assert_eq!(entries[0].name, "hyprland");
    assert_eq!(entries[0].new_version, "0.41.2-1");

    assert_eq!(entries[1].action, Action::Upgraded);
    assert_eq!(entries[1].name, "firefox");
    assert_eq!(entries[1].old_version, "140.0-1");
    assert_eq!(entries[1].new_version, "141.0-1");

    assert_eq!(entries[2].action, Action::Removed);
    assert_eq!(entries[2].name, "obsolete-thing");
    assert_eq!(entries[2].old_version, "1.0-1");

    assert_eq!(entries[3].action, Action::Downgraded);
    assert_eq!(entries[3].name, "mesa");
}

#[test]
fn pacman_ignores_non_transaction_lines() {
    let entries = parse_pacman_log(
        "[2026-09-18T14:32:00+0545] [PACMAN] Running 'pacman -Syu'\n\
         [2026-09-18T14:32:05+0545] [ALPM-SCRIPTLET] installed something odd\n\
         garbage line with no brackets\n\
         \n",
    );
    assert!(entries.is_empty(), "got: {:#?}", entries);
}

#[test]
fn pacman_accepts_the_pre_2019_timestamp_format() {
    let entries = parse_pacman_log("[2018-05-01 09:15] [ALPM] installed oldpkg (1.0-1)\n");
    assert_eq!(entries.len(), 1);
    assert_eq!(entries[0].name, "oldpkg");
}

#[test]
fn pacman_handles_hyphenated_package_names() {
    let entries = parse_pacman_log(
        "[2026-09-18T14:32:01+0545] [ALPM] installed xdg-desktop-portal-hyprland (1.3.1-2)\n",
    );
    assert_eq!(entries[0].name, "xdg-desktop-portal-hyprland");
    assert_eq!(entries[0].new_version, "1.3.1-2");
}

#[test]
fn pacman_survives_malformed_lines() {
    for line in [
        "[not a timestamp] [ALPM] installed foo (1.0)",
        "[2026-09-18T14:32:01+0545] [ALPM] installed",
        "[2026-09-18T14:32:01+0545] [ALPM] installed foo-no-parens",
        "[",
        "[]",
        "",
    ] {
        let _ = parse_pacman_log(line);
    }
}

const DPKG_SAMPLE: &str = "\
2026-09-20 09:50:40 status half-configured libasound2t64:amd64 1.2.11-1ubuntu0.2
2026-09-20 09:50:40 upgrade libasound2t64:amd64 1.2.11-1ubuntu0.2 1.2.11-1ubuntu0.3
2026-09-20 09:50:40 install libasound2-dev:amd64 <none> 1.2.11-1ubuntu0.3
2026-09-20 09:50:41 install libwayland-dev:amd64 <none> 1.22.0-2.1build1
2026-09-20 09:50:42 remove oldpkg:amd64 3.2.1-1 <none>
2026-09-20 09:50:42 purge oldpkg:amd64 3.2.1-1 <none>
2026-09-20 09:50:43 configure libwayland-dev:amd64 1.22.0-2.1build1 <none>
";

#[test]
fn dpkg_parses_installs_upgrades_and_removals() {
    let entries = parse_dpkg_log(DPKG_SAMPLE);
    assert_eq!(entries.len(), 4, "got: {:#?}", entries);

    assert_eq!(entries[0].action, Action::Upgraded);
    assert_eq!(entries[0].name, "libasound2t64");
    assert_eq!(entries[0].old_version, "1.2.11-1ubuntu0.2");

    assert_eq!(entries[1].action, Action::Installed);
    assert_eq!(entries[1].name, "libasound2-dev");
    assert_eq!(entries[1].old_version, "");

    assert_eq!(entries[3].action, Action::Removed);
    assert_eq!(entries[3].name, "oldpkg");
}

#[test]
fn dpkg_does_not_double_count_purge_after_remove() {
    let removals = parse_dpkg_log(DPKG_SAMPLE)
        .into_iter()
        .filter(|e| e.action == Action::Removed)
        .count();
    assert_eq!(removals, 1);
}

#[test]
fn dpkg_strips_the_architecture_suffix() {
    let entries = parse_dpkg_log("2026-09-20 09:50:40 install foo:arm64 <none> 1.0\n");
    assert_eq!(entries[0].name, "foo");
}

#[test]
fn dpkg_detects_a_downgrade_logged_as_an_upgrade() {
    let entries = parse_dpkg_log("2026-09-20 09:50:40 upgrade foo:amd64 2.0-1 1.9-1\n");
    assert_eq!(entries[0].action, Action::Downgraded);
}

#[test]
fn dpkg_does_not_guess_at_unfamiliar_version_schemes() {
    let entries = parse_dpkg_log("2026-09-20 09:50:40 upgrade foo:amd64 abc-xyz def-uvw\n");
    assert_eq!(entries[0].action, Action::Upgraded);
}

#[test]
fn dpkg_survives_malformed_lines() {
    for line in [
        "2026-09-20 09:50:40 install",
        "not a log line at all",
        "2026-13-45 99:99:99 install foo:amd64 <none> 1.0",
        "",
    ] {
        let _ = parse_dpkg_log(line);
    }
}

#[test]
fn rpm_parses_the_documented_format() {
    let entries = parse_rpm_log(
        "2026-09-20T10:00:00+0000 SUBDEBUG Installed: foo-1.0-1.fc40.x86_64\n\
         2026-09-20T10:00:01+0000 SUBDEBUG Upgraded: bar-2.0-1.fc40.x86_64\n\
         2026-09-20T10:00:02+0000 SUBDEBUG Erased: baz-1.0-1.fc40.x86_64\n\
         2026-09-20T10:00:03+0000 INFO --- logging initialized ---\n",
    );
    assert_eq!(entries.len(), 3, "got: {:#?}", entries);
    assert_eq!(entries[0].name, "foo");
    assert_eq!(entries[0].action, Action::Installed);
    assert_eq!(entries[2].action, Action::Removed);
}

#[test]
fn rpm_splits_hyphenated_names_correctly() {
    assert_eq!(
        split_nevra("xdg-desktop-portal-1.18.4-1.fc40.x86_64"),
        Some((
            "xdg-desktop-portal".to_string(),
            "1.18.4-1.fc40.x86_64".to_string()
        ))
    );
}

#[test]
fn rpm_survives_malformed_lines() {
    for line in ["2026-09-20T10:00:00+0000 SUBDEBUG Installed:", "nonsense", ""] {
        let _ = parse_rpm_log(line);
    }
}

#[test]
fn downgrade_detection_handles_real_distro_versions() {
    assert!(is_probable_downgrade("0.41.2-1", "0.41.1-1"));
    assert!(!is_probable_downgrade("0.41.1-1", "0.41.2-1"));
    assert!(is_probable_downgrade("1.2.11-1ubuntu0.3", "1.2.11-1ubuntu0.2"));
    assert!(!is_probable_downgrade("1.2.11-1ubuntu0.2", "1.2.11-1ubuntu0.3"));
    assert!(is_probable_downgrade("1.0-2.fc40", "1.0-1.fc40"));
    assert!(is_probable_downgrade("2.0", "1.9"));
    assert!(!is_probable_downgrade("1.9", "2.0"));
    assert!(!is_probable_downgrade("1.0", "1.0"));
    assert!(is_probable_downgrade("1:2.0", "1:1.0"));
}

#[test]
fn version_components_compare_numerically() {
    assert!(!is_probable_downgrade("9.0", "10.0"));
    assert!(is_probable_downgrade("10.0", "9.0"));
    assert!(!is_probable_downgrade("1.9.0", "1.10.0"));
}

#[test]
fn tilde_sorts_below_the_release_it_precedes() {
    assert!(is_probable_downgrade("1.0", "1.0~rc1"));
    assert!(!is_probable_downgrade("1.0~rc1", "1.0"));
}

#[test]
fn real_ubuntu_gcc_versions_are_not_downgrades() {
    for (old, new) in [
        ("14-20240412-0ubuntu1", "14.2.0-4ubuntu2~24.04.1"),
        ("14-20240412-0ubuntu1", "14.2.0-4ubuntu2~24.04.1"),
        ("14-20240412-0ubuntu1", "14.2.0-4ubuntu2~24.04.1"),
    ] {
        assert!(
            !is_probable_downgrade(old, new),
            "{} -> {} is an upgrade, not a downgrade",
            old,
            new
        );
        assert!(is_probable_downgrade(new, old));
    }
}

#[test]
fn separators_are_compared_not_discarded() {
    assert_eq!(compare_versions("14-1", "14.1"), Some(Ordering::Less));
    assert_eq!(compare_versions("14.1", "14-1"), Some(Ordering::Greater));
}

#[test]
fn downgrade_detection_stays_quiet_when_unsure() {
    assert!(!is_probable_downgrade("", "1.0"));
    assert!(!is_probable_downgrade("1.0", ""));
    assert_eq!(compare_versions("", ""), None);
}

#[test]
fn tokenizer_survives_odd_input() {
    for v in ["", "~", "...", "---", "1:", ":::", "\u{2019}", "99999999999999999999999"] {
        let _ = tokenize_version(v);
        let _ = compare_versions(v, "1.0");
    }
}

fn explicit(names: &[&str]) -> Vec<String> {
    names.iter().map(|s| s.to_string()).collect()
}

#[test]
fn a_dependency_pulled_in_by_an_update_is_notable() {
    let entries = parse_pacman_log(PACMAN_SAMPLE);
    let changes = to_changes(&entries, &explicit(&["firefox", "niri"]), "pacman");

    let hyprland = changes
        .iter()
        .find(|c| c.detail.contains("hyprland"))
        .expect("hyprland change present");
    assert_eq!(hyprland.severity, Severity::Notable);
    assert!(hyprland.detail.contains("didn't ask for it"));

    let firefox = changes
        .iter()
        .find(|c| c.detail.contains("firefox"))
        .expect("firefox change present");
    assert_eq!(firefox.severity, Severity::Routine);
}

#[test]
fn an_explicitly_installed_package_is_routine() {
    let entries =
        parse_pacman_log("[2026-09-18T14:32:01+0545] [ALPM] installed neovim (0.10-1)\n");
    let changes = to_changes(&entries, &explicit(&["neovim"]), "pacman");
    assert_eq!(changes[0].severity, Severity::Routine);
}

#[test]
fn an_unknown_explicit_set_reports_everything_as_requested() {
    let entries = parse_pacman_log(PACMAN_SAMPLE);
    let changes = to_changes(&entries, &[], "pacman");
    let installs: Vec<_> = changes
        .iter()
        .filter(|c| matches!(c.kind, ChangeKind::PackageInstalled { .. }))
        .collect();
    assert!(!installs.is_empty());
    assert!(installs.iter().all(|c| c.severity == Severity::Routine));
}

#[test]
fn entries_since_filters_by_time() {
    let entries = parse_pacman_log(PACMAN_SAMPLE);
    let cutoff = entries[2].occurred_at;
    let recent = entries_since(&entries, cutoff);
    assert_eq!(recent.len(), 2, "got: {:#?}", recent);
    assert_eq!(recent[0].name, "obsolete-thing");
}

#[test]
fn fingerprints_are_unique_across_a_real_transaction() {
    let entries = parse_pacman_log(PACMAN_SAMPLE);
    let changes = to_changes(&entries, &explicit(&["firefox"]), "pacman");
    let prints: HashSet<String> = changes.iter().map(|c| c.fingerprint()).collect();
    assert_eq!(prints.len(), changes.len(), "fingerprints must be unique");
}

#[test]
fn offset_timestamps_are_placed_exactly() {
    // 14:32:01 at +05:45 is 08:47:01 UTC.
    let entries = parse_pacman_log("[2026-09-18T14:32:01+0545] [ALPM] installed a (1)\n");
    assert_eq!(entries[0].occurred_at, 1_789_721_221);
    let rpm = parse_rpm_log("1970-01-01T00:01:00+0000 SUBDEBUG Erased: baz-1.0-1.x86_64\n");
    assert_eq!(rpm[0].occurred_at, 60);
    assert_eq!(rpm[0].name, "baz");
    assert_eq!(rpm[0].old_version, "1.0-1.x86_64");
}

#[test]
fn none_becomes_empty_and_everything_else_stays() {
    assert_eq!(none_to_empty("<none>"), "");
    assert_eq!(none_to_empty("1.0"), "1.0");
}

#[test]
fn a_nevra_without_a_version_does_not_split() {
    assert_eq!(split_nevra("nohyphen"), None);
}

#[test]
fn package_manager_detection_prefers_pacman_then_dpkg_then_rpm() {
    assert_eq!(PackageManager::detect_from(true, true, true, true), PackageManager::Pacman);
    assert_eq!(PackageManager::detect_from(false, true, true, false), PackageManager::Dpkg);
    assert_eq!(PackageManager::detect_from(false, false, false, true), PackageManager::Rpm);
    assert_eq!(PackageManager::detect_from(false, false, false, false), PackageManager::Unknown);
    assert_eq!(PackageManager::Dpkg.source_name(), "dpkg");
    assert_eq!(PackageManager::Unknown.log_path(), None);
    assert_eq!(PackageManager::Pacman.log_path(), Some("/var/log/pacman.log"));
}

#[test]
fn digit_free_versions_are_never_downgrades() {
    let t1 = parse_dpkg_log("2026-09-20 09:50:40 upgrade foo:amd64 abc-xyz def-uvw\n");
    let t2 = parse_dpkg_log("2026-09-20 09:50:40 upgrade foo:amd64 def-uvw abc-xyz\n");
    assert_eq!(t1[0].action, Action::Upgraded);
    assert_eq!(t2[0].action, Action::Upgraded);
    assert!(!is_probable_downgrade("def-uvw", "abc-xyz"));
    assert!(is_probable_downgrade("2.0-1", "1.9-1"));
}

#[test]
fn the_probed_logs_are_the_four_managers_logs() {
    assert_eq!(
        PackageManager::probed_logs(),
        vec!["/var/log/pacman.log", "/var/log/dpkg.log", "/var/log/dnf.rpm.log", "/var/log/dnf5.log"]
    );
}

fn log_line(name: &str, stamp: Stamp) -> LogLine {
    LogLine {
        action: Action::Installed,
        name: name.into(),
        old_version: String::new(),
        new_version: "1.0".into(),
        stamp,
    }
}

#[test]
fn placed_readings_take_their_instant_and_unplaceable_ones_drop() {
    let lines = vec![
        log_line("a", Stamp::Utc(100)),
        log_line("b", Stamp::Local(200)),
        log_line("c", Stamp::Local(300)),
    ];
    let out = settle_with(&lines, &[Some(999), Some(250), None]);
    assert_eq!(out.len(), 2);
    assert_eq!(out[0].name, "a");
    assert_eq!(out[0].occurred_at, 100);
    assert_eq!(out[1].name, "b");
    assert_eq!(out[1].occurred_at, 250);
    assert_eq!(out[1].new_version, "1.0");
}
