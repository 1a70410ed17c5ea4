use mavis_core::clock::clock_accepts;
use mavis_core::sentinel::change::{Change, ChangeKind, Severity};
use mavis_core::sentinel::summary::{
    day_phrase, group_transactions, relative_day_from, peak_severity, relative_day, summarize, summarize_all,
    summary_instant, summary_sentence, TRANSACTION_GAP_SECS,
};
use mavis_core::text::join_naturally;
use std::time::{SystemTime, UNIX_EPOCH};

fn now() -> i64 {
    SystemTime::now().duration_since(UNIX_EPOCH).unwrap().as_secs() as i64
}

fn at(secs: i64) -> i64 {
    now() - secs
}

fn installed(name: &str, requested: bool, secs: i64) -> Change {
    Change::new(
        ChangeKind::PackageInstalled {
            name: name.into(),
            version: "1.0".into(),
            requested,
        },
        "pacman",
        at(secs),
    )
}

fn upgraded(name: &str, secs: i64) -> Change {
    Change::new(
        ChangeKind::PackageUpgraded {
            name: name.into(),
            from: "1.0".into(),
            to: "2.0".into(),
        },
        "pacman",
        at(secs),
    )
}

fn removed(name: &str, secs: i64) -> Change {
    Change::new(
        ChangeKind::PackageRemoved {
            name: name.into(),
            version: "1.0".into(),
        },
        "pacman",
        at(secs),
    )
}

#[test]
fn one_update_is_one_group() {
    let changes = vec![
        installed("a", false, 10),
        installed("b", false, 11),
        upgraded("c", 12),
    ];
    assert_eq!(group_transactions(&changes, TRANSACTION_GAP_SECS).len(), 1);
}

#[test]
fn updates_far_apart_are_separate_groups() {
    let changes = vec![installed("a", false, 10), installed("b", false, 100_000)];
    assert_eq!(group_transactions(&changes, TRANSACTION_GAP_SECS).len(), 2);
}

#[test]
fn different_package_managers_never_merge() {
    let mut nix = installed("b", false, 10);
    nix.source = "nix".to_string();
    let changes = vec![installed("a", false, 10), nix];
    assert_eq!(group_transactions(&changes, TRANSACTION_GAP_SECS).len(), 2);
}

#[test]
fn grouping_does_not_require_sorted_input() {
    let changes = vec![
        installed("c", false, 10),
        installed("a", false, 30),
        installed("b", false, 20),
    ];
    let groups = group_transactions(&changes, TRANSACTION_GAP_SECS);
    assert_eq!(groups.len(), 1);
    assert_eq!(groups[0].len(), 3);
}

#[test]
fn grouping_handles_the_empty_case() {
    assert!(group_transactions(&[], TRANSACTION_GAP_SECS).is_empty());
}

#[test]
fn a_big_update_becomes_a_single_sentence() {
    let changes = vec![
        installed("hyprland", false, 14),
        installed("linux-firmware-amd", false, 13),
        installed("linux-firmware-ti", false, 12),
        upgraded("firefox", 11),
        upgraded("mesa", 10),
    ];
    let lines = summarize_all(&changes);
    assert_eq!(lines.len(), 1, "got: {:#?}", lines);
    let line = &lines[0];

    assert!(line.contains("3 packages you didn't ask for"), "{}", line);
    assert!(
        line.contains("hyprland, linux-firmware-amd and linux-firmware-ti"),
        "{}",
        line
    );
    assert!(!line.contains("firefox"), "{}", line);
    assert!(!line.contains("mesa"), "{}", line);
}

#[test]
fn packages_are_listed_oldest_first() {
    let changes = vec![
        installed("last", false, 10),
        installed("first", false, 30),
        installed("middle", false, 20),
    ];
    let line = summarize(&changes).unwrap();
    assert!(line.contains("first, middle and last"), "{}", line);
}

#[test]
fn a_single_pulled_in_package_reads_naturally() {
    let line = summarize(&[installed("hyprland", false, 10)]).unwrap();
    assert!(line.contains("pulled in hyprland, which you didn't ask for"), "{}", line);
}

#[test]
fn a_routine_update_produces_nothing() {
    let changes = vec![upgraded("firefox", 10), upgraded("mesa", 11)];
    assert!(summarize_all(&changes).is_empty());
    assert!(summarize(&changes).is_none());
}

#[test]
fn packages_the_user_asked_for_are_not_mentioned() {
    let changes = vec![installed("neovim", true, 10), installed("ripgrep", true, 11)];
    assert!(summarize_all(&changes).is_empty());
}

#[test]
fn removals_are_reported_alongside_pull_ins() {
    let changes = vec![installed("hyprland", false, 10), removed("oldthing", 11)];
    let line = summarize(&changes).unwrap();
    assert!(line.contains("hyprland"), "{}", line);
    assert!(line.contains("removed oldthing"), "{}", line);
    assert!(line.contains(" and "), "{}", line);
}

#[test]
fn empty_input_summarizes_to_nothing() {
    assert!(summarize(&[]).is_none());
    assert!(summarize_all(&[]).is_empty());
}

#[test]
fn summaries_are_speakable() {
    let changes = vec![installed("hyprland", false, 10), installed("foo", false, 11)];
    let line = summarize(&changes).unwrap();
    assert!(!line.contains('\n'));
    assert!(!line.contains('*'));
    assert!(!line.contains('#'));
    assert!(line.ends_with('.'), "{}", line);
}

#[test]
fn lists_are_joined_for_speech() {
    assert_eq!(join_naturally(&["a"]), "a");
    assert_eq!(join_naturally(&["a", "b"]), "a and b");
    assert_eq!(join_naturally(&["a", "b", "c"]), "a, b and c");
    assert_eq!(join_naturally(&[]), "");
}

#[test]
fn recent_days_are_named_not_dated() {
    assert_eq!(relative_day(now()), "today");
    let yesterday = relative_day(now() - 86_400);
    assert_eq!(yesterday, "yesterday");
    let midweek = relative_day(now() - 3 * 86_400);
    assert!(midweek.starts_with("on "), "{}", midweek);
    assert!(!midweek.chars().any(|c| c.is_ascii_digit()), "{}", midweek);
    let old = relative_day(now() - 30 * 86_400);
    assert!(old.chars().any(|c| c.is_ascii_digit()), "{}", old);
}

#[test]
fn peak_severity_picks_the_worst() {
    let changes = vec![upgraded("a", 10), installed("b", false, 11)];
    assert_eq!(peak_severity(&changes), Some(Severity::Notable));
    assert_eq!(peak_severity(&[]), None);
}

#[test]
fn a_whole_sentence_reads_exactly() {
    let changes = vec![
        installed("hyprland", false, 40),
        removed("oldthing", 30),
        Change::new(
            ChangeKind::PackageDowngraded {
                name: "mesa".into(),
                from: "2".into(),
                to: "1".into(),
            },
            "pacman",
            at(20),
        ),
    ];
    assert_eq!(
        summary_sentence(&changes, "today").unwrap(),
        "Your system update today pulled in hyprland, which you didn't ask for, \
         removed oldthing and put mesa back to an older version."
    );
    assert_eq!(summary_sentence(&[upgraded("a", 1)], "today"), None);
}

#[test]
fn day_phrases_follow_the_distance() {
    assert_eq!(day_phrase(0, "Monday", 3, "March"), "today");
    assert_eq!(day_phrase(1, "Monday", 3, "March"), "yesterday");
    assert_eq!(day_phrase(4, "Monday", 3, "March"), "on Monday");
    assert_eq!(day_phrase(9, "Monday", 3, "March"), "on 3 March");
    assert_eq!(day_phrase(-1, "Monday", 3, "March"), "on 3 March");
}

#[test]
fn the_gap_that_splits_transactions_is_exclusive_at_the_limit() {
    let a = installed("a", false, 1000);
    let b = installed("b", false, 1000 - TRANSACTION_GAP_SECS);
    let c = installed("c", false, 1000 - 2 * TRANSACTION_GAP_SECS - 1);
    let groups = group_transactions(&[a, b, c], TRANSACTION_GAP_SECS);
    assert_eq!(groups.len(), 2);
    assert_eq!(groups[0].len(), 2);
}

#[test]
fn the_sentence_names_the_day_of_the_earliest_change() {
    let a = installed("a", false, 100);
    let b = installed("b", false, 300);
    let t = b.occurred_at;
    assert_eq!(summary_instant(&[a, b]), Some(t));
    assert_eq!(summary_instant(&[]), None);
}

#[test]
fn the_order_changes_arrive_in_does_not_change_the_sentence() {
    let a = installed("libfoo", false, 3600);
    let b = removed("oldpkg", 3590);
    let c = upgraded("bash", 3580);
    let one = summarize(&[a.clone(), b.clone(), c.clone()]);
    let two = summarize(&[c, b, a]);
    assert!(one.is_some());
    assert_eq!(one, two);
}

#[test]
fn a_sentence_opens_with_the_update_and_names_each_notable_package() {
    let s = summarize(&[installed("lib#sharp", false, 100), removed("gone", 90), upgraded("quiet", 80)]).unwrap();
    assert!(s.starts_with("Your system update "));
    assert!(s.ends_with('.'));
    assert!(s.contains("lib#sharp"));
    assert!(s.contains("gone"));
    assert!(!s.contains("quiet"));
    assert!(!s.contains('\n'));
    assert!(!s.contains('*'));
}

#[test]
fn a_day_is_named_from_the_clocks_answers() {
    let now = 1_700_000_000;
    assert_eq!(relative_day_from(now, now, Some(0), Some("Tuesday"), Some(14), Some("November")), "today");
    assert_eq!(relative_day_from(now - 86_400 * 4, now, Some(4), Some("Friday"), Some(10), Some("November")), "on Friday");
    assert_eq!(relative_day_from(now - 86_400 * 40, now, Some(40), Some("Friday"), Some(6), Some("October")), "on 6 October");
    assert_eq!(relative_day_from(now, now, None, Some("Tuesday"), Some(14), Some("November")), "on an unknown day");
    assert_eq!(relative_day_from(i64::MAX, now, Some(0), Some("Tuesday"), Some(14), Some("November")), "on an unknown day");
    assert_eq!(relative_day_from(now, i64::MIN, Some(0), Some("Tuesday"), Some(14), Some("November")), "on an unknown day");
}

#[test]
fn an_instant_beyond_the_calendar_is_an_unknown_day() {
    assert_eq!(relative_day(i64::MAX), "on an unknown day");
    assert_eq!(relative_day(8_210_266_790_400), "on an unknown day");
    assert_eq!(relative_day(i64::MIN), "on an unknown day");
    assert_ne!(relative_day(8_210_266_790_399), "on an unknown day");
    assert_ne!(relative_day(-8_334_601_228_800), "on an unknown day");
}

#[test]
fn the_calendar_range_is_chronos_less_a_day_at_each_end() {
    assert!(clock_accepts(0));
    assert!(clock_accepts(8_210_266_790_399));
    assert!(!clock_accepts(8_210_266_790_400));
    assert!(clock_accepts(-8_334_601_228_800));
    assert!(!clock_accepts(-8_334_601_228_801));
}
