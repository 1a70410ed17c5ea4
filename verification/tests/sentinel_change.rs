use mavis_core::sentinel::change::{classify, describe, worst, Change, ChangeKind, Severity};

fn at(ts: i64) -> i64 {
    ts
}

#[test]
fn severity_orders_correctly() {
    assert!(Severity::Critical > Severity::Notable);
    assert!(Severity::Notable > Severity::Routine);
}

#[test]
fn severity_round_trips_through_strings() {
    for s in [Severity::Routine, Severity::Notable, Severity::Critical] {
        assert_eq!(Severity::from_str(s.as_str()), Some(s));
    }
    assert_eq!(Severity::from_str("nonsense"), None);
}

#[test]
fn unrequested_installs_are_notable_and_requested_ones_are_not() {
    let pulled_in = ChangeKind::PackageInstalled {
        name: "hyprland".into(),
        version: "0.41.2-1".into(),
        requested: false,
    };
    let asked_for = ChangeKind::PackageInstalled {
        name: "hyprland".into(),
        version: "0.41.2-1".into(),
        requested: true,
    };
    assert_eq!(classify(&pulled_in), Severity::Notable);
    assert_eq!(classify(&asked_for), Severity::Routine);
}

#[test]
fn routine_upgrades_stay_quiet() {
    let kind = ChangeKind::PackageUpgraded {
        name: "firefox".into(),
        from: "140.0-1".into(),
        to: "141.0-1".into(),
    };
    assert_eq!(classify(&kind), Severity::Routine);
}

#[test]
fn removals_and_downgrades_are_notable() {
    assert_eq!(
        classify(&ChangeKind::PackageRemoved {
            name: "foo".into(),
            version: "1.0".into()
        }),
        Severity::Notable
    );
    assert_eq!(
        classify(&ChangeKind::PackageDowngraded {
            name: "foo".into(),
            from: "2.0".into(),
            to: "1.0".into()
        }),
        Severity::Notable
    );
}

#[test]
fn descriptions_name_the_package_and_stay_speakable() {
    let c = Change::new(
        ChangeKind::PackageInstalled {
            name: "hyprland".into(),
            version: "0.41.2-1".into(),
            requested: false,
        },
        "pacman",
        at(1_700_000_000),
    );
    assert!(c.detail.contains("hyprland"));
    assert!(c.detail.contains("didn't ask for it"));
    assert!(!c.detail.contains('\n'));
    assert!(!c.detail.contains('*'));
}

#[test]
fn fingerprints_distinguish_different_changes() {
    let a = Change::new(
        ChangeKind::PackageInstalled {
            name: "hyprland".into(),
            version: "0.41.2-1".into(),
            requested: false,
        },
        "pacman",
        at(1_700_000_000),
    );
    let b = Change::new(
        ChangeKind::PackageInstalled {
            name: "hyprland".into(),
            version: "0.41.3-1".into(),
            requested: false,
        },
        "pacman",
        at(1_700_000_000),
    );
    let c = Change::new(
        ChangeKind::PackageInstalled {
            name: "hyprland".into(),
            version: "0.41.2-1".into(),
            requested: false,
        },
        "pacman",
        at(1_700_009_999),
    );
    assert_ne!(a.fingerprint(), b.fingerprint());
    assert_ne!(a.fingerprint(), c.fingerprint());
}

#[test]
fn identical_changes_share_a_fingerprint() {
    let mk = || {
        Change::new(
            ChangeKind::PackageRemoved {
                name: "foo".into(),
                version: "1.0".into(),
            },
            "dpkg",
            at(1_700_000_000),
        )
    };
    assert_eq!(mk().fingerprint(), mk().fingerprint());
}

#[test]
fn worst_picks_the_highest_severity() {
    let changes = vec![
        Change::new(
            ChangeKind::PackageUpgraded {
                name: "a".into(),
                from: "1".into(),
                to: "2".into(),
            },
            "dpkg",
            at(0),
        ),
        Change::new(
            ChangeKind::PackageInstalled {
                name: "b".into(),
                version: "1".into(),
                requested: false,
            },
            "dpkg",
            at(0),
        ),
    ];
    assert_eq!(worst(&changes), Some(Severity::Notable));
    assert_eq!(worst(&[]), None);
}

#[test]
fn every_description_has_its_exact_wording() {
    assert_eq!(
        describe(&ChangeKind::PackageInstalled {
            name: "vim".into(),
            version: "9.1".into(),
            requested: true
        }),
        "vim (9.1) was installed."
    );
    assert_eq!(
        describe(&ChangeKind::PackageRemoved {
            name: "vim".into(),
            version: "9.1".into()
        }),
        "vim (9.1) was removed."
    );
    assert_eq!(
        describe(&ChangeKind::PackageUpgraded {
            name: "vim".into(),
            from: "9.0".into(),
            to: "9.1".into()
        }),
        "vim was updated from 9.0 to 9.1."
    );
    assert_eq!(
        describe(&ChangeKind::PackageDowngraded {
            name: "vim".into(),
            from: "9.1".into(),
            to: "9.0".into()
        }),
        "vim went backwards from 9.1 to 9.0 \u{2014} that's unusual."
    );
}

#[test]
fn a_fingerprint_spells_out_collector_time_verb_and_versions() {
    let c = Change::new(
        ChangeKind::PackageUpgraded {
            name: "mesa".into(),
            from: "24.1".into(),
            to: "24.2".into(),
        },
        "pacman",
        -5,
    );
    assert_eq!(c.fingerprint(), "pacman:-5:upgraded:mesa:24.1>24.2");
    assert_eq!(c.severity, Severity::Routine);
    assert_eq!(c.source, "pacman");
    assert_eq!(c.occurred_at, -5);
}

#[test]
fn severity_ranks_and_names() {
    assert_eq!(Severity::Routine.rank_of(), 0);
    assert_eq!(Severity::Critical.rank_of(), 2);
    assert_eq!(Severity::Notable.as_str(), "notable");
    assert_eq!(Severity::from_str("critical"), Some(Severity::Critical));
    assert_eq!(Severity::from_str("Critical"), None);
}

#[test]
fn a_hash_in_a_package_name_does_not_break_a_description_into_lines() {
    let d = describe(&ChangeKind::PackageRemoved {
        name: "mono-c#-tools".into(),
        version: "6.12".into(),
    });
    assert_eq!(d, "mono-c#-tools (6.12) was removed.");
    assert!(!d.contains('\n'));
    assert!(!d.contains('*'));
}
