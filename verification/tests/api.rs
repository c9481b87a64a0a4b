//! What a box tells about itself, and what it answers.

use hemsd::clock::{Instant, HOUR, SECOND};
use hemsd::runtime::api::{
    approve_peer, clear_override, connect_manager, connect_manager_with, forget_peer, list_overrides, list_trusted, may_be_named,
    quarter_hour, refuse_peer, series, set_override, status, withdrawn, Approval, Asked,
    OverrideBody, BAD_REQUEST, INTERNAL_SERVER_ERROR, NOT_FOUND, NO_CONTENT,
};
use hemsd::runtime::access::{LocalAccess, NoEntropy};
use hemsd::runtime::control::{Exposure, RoofHealth, Status};
use hemsd::runtime::overrides::{Overrides, UserOverride};
use hemsd::runtime::ship::{identity, waiting, ShipSettings, Trust};

/// 2026-01-15 12:00:00 UTC.
const NOW: Instant = 1_768_478_400 * SECOND;

#[test]
fn what_the_box_learned_about_its_own_exposure_reaches_the_page() {
    let held = Status {
        exposure: Some(Exposure {
            days_of_record: 90,
            seconds_reduced: 41_400,
            busiest_quarter_hour: Some(71),
            busiest_frequency_ppm: 800_000,
            typical_ceiling_mw: Some(4_200_000),
        }),
        ..Status::default()
    };

    let body = status(&held, "haus", None);
    let seen = body.exposure.expect("an exposure that was set");

    assert_eq!(seen.days_of_record, 90);
    assert_eq!(seen.seconds_reduced, 41_400, "eleven hours and a half");
    assert_eq!(seen.busiest_frequency_ppm, 800_000);
    assert_eq!(seen.typical_ceiling_mw, Some(4_200_000));
    assert_eq!(seen.busiest_quarter_hour.as_deref(), Some("17:45"));
}

#[test]
fn a_box_with_no_record_reports_nothing_rather_than_a_clean_sheet() {
    let body = status(&Status::default(), "haus", None);
    assert!(body.exposure.is_none());
}

#[test]
fn a_box_that_keeps_no_series_says_so_rather_than_answering_nothing() {
    let outcome = series(false, Asked { from: None, to: None }, NOW);
    assert_eq!(outcome.err(), Some(NOT_FOUND));
}

#[test]
fn no_window_is_the_last_hour_and_an_empty_one_is_no_window() {
    assert_eq!(series(true, Asked { from: None, to: None }, NOW), Ok((NOW - HOUR, NOW)));
    assert_eq!(
        series(true, Asked { from: Some(NOW), to: Some(NOW) }, NOW),
        Err(BAD_REQUEST)
    );
    assert_eq!(
        series(true, Asked { from: None, to: Some(NOW - HOUR) }, NOW),
        Ok((NOW - 2 * HOUR, NOW - HOUR))
    );
}

#[test]
fn a_page_shows_every_figure_it_is_given() {
    let mut held = Status {
        at: Some(NOW),
        silent: vec!["pv".to_string()],
        assumed_available: vec!["battery".to_string()],
        undriven: vec!["waermepumpe".to_string()],
        assumed_nominal: vec!["wallbox".to_string()],
        steuve_ceiling_mw: Some(4_200_000),
        steuve_budget_mw: Some(4_100_000),
        netzwirksam_mw: Some(3_000_000),
        balance_residual_mw: Some(-12),
        minutes_without_a_plan: i64::MAX,
        plan_expected_eur: Some(1_250_000),
        plan_baseline_eur: Some(2_000_000),
        overruns: 3,
        roof_health: Some(RoofHealth {
            performance_ratio_ppm: 640_000,
            baseline_ppm: 820_000,
            verdict: "degraded".to_string(),
        }),
        ..Status::default()
    };
    held.commanded.insert("wallbox".to_string(), 3_700_000);
    held.disobedient.insert("battery".to_string(), "held".to_string());
    held.overriding.insert("wallbox".to_string(), "steuve".to_string());
    held.cem.connected.push("wallbox".to_string());
    held.cem.overridden.push(("wallbox".to_string(), "steuve".to_string()));
    held.cem.refused = 2;

    let body = status(&held, "haus", Some("0011"));

    assert_eq!(body.site, "haus");
    assert_eq!(body.ski.as_deref(), Some("0011"));
    assert_eq!(body.at.as_deref(), Some("2026-01-15T12:00:00Z"));
    assert_eq!(body.commanded_mw.get("wallbox"), Some(&3_700_000));
    assert_eq!(body.silent, vec!["pv".to_string()]);
    assert_eq!(body.assumed_available, vec!["battery".to_string()]);
    assert_eq!(body.undriven, vec!["waermepumpe".to_string()]);
    assert_eq!(body.assumed_nominal, vec!["wallbox".to_string()]);
    assert_eq!(body.disobedient.get("battery").map(String::as_str), Some("held"));
    assert_eq!(body.overriding.get("wallbox").map(String::as_str), Some("steuve"));
    assert_eq!(body.cem.connected, vec!["wallbox".to_string()]);
    assert_eq!(body.cem.overridden.len(), 1);
    assert_eq!(body.cem.refused, 2);
    assert_eq!(body.steuve_ceiling_mw, Some(4_200_000));
    assert_eq!(body.steuve_budget_mw, Some(4_100_000));
    assert_eq!(body.netzwirksam_mw, Some(3_000_000));
    assert_eq!(body.balance_residual_mw, Some(-12));
    assert_eq!(body.minutes_without_a_plan, None, "there has never been one");
    assert_eq!(body.plan_expected_eur, Some(1_250_000));
    assert_eq!(body.plan_baseline_eur, Some(2_000_000));
    assert_eq!(body.overruns, 3);
    let roof = body.roof_health.expect("a roof");
    assert_eq!((roof.performance_ratio_ppm, roof.baseline_ppm), (640_000, 820_000));
    assert_eq!(roof.verdict, "degraded");
}

#[test]
fn a_quarter_hour_is_a_clock_face() {
    assert_eq!(quarter_hour(0), "00:00");
    assert_eq!(quarter_hour(95), "23:45");
}

#[test]
fn a_manager_needs_a_name_a_household_would_recognise() {
    assert!(may_be_named("Acme").is_ok());
    assert_eq!(may_be_named(" \t ").expect_err("it says nothing").status, BAD_REQUEST);
    assert!(may_be_named(&"x".repeat(64)).is_ok());
    assert!(may_be_named(&"x".repeat(65)).is_err());
    assert!(may_be_named(&"ü".repeat(64)).is_ok(), "the length is counted in characters");
    assert!(may_be_named(&"ü".repeat(65)).is_err());
    assert_eq!(withdrawn(true), NO_CONTENT);
    assert_eq!(withdrawn(false), NOT_FOUND);
}

#[test]
fn an_override_is_set_listed_and_withdrawn() {
    let mut overrides = Overrides::new();
    let body = OverrideBody { what: UserOverride::Boost, minutes: Some(90) };
    assert_eq!(set_override(&mut overrides, "a b", false, body, NOW).err(), Some(BAD_REQUEST));
    assert!(list_overrides(&mut overrides, NOW).is_empty());
    let view = set_override(&mut overrides, "wallbox", true, body, NOW).expect("a device");
    assert_eq!(view.asset, "wallbox");
    assert_eq!(view.until, "2026-01-15T13:30:00Z");
    let listed = list_overrides(&mut overrides, NOW);
    assert_eq!(listed.len(), 1);
    assert_eq!(listed[0].until, view.until);
    assert_eq!(clear_override(&mut overrides, "wallbox", false, NOW), BAD_REQUEST);
    assert_eq!(clear_override(&mut overrides, "wallbox", true, NOW), NO_CONTENT);
    assert_eq!(clear_override(&mut overrides, "wallbox", true, NOW), NOT_FOUND);
    assert!(list_overrides(&mut overrides, NOW).is_empty());
}

#[test]
fn a_box_without_an_identity_has_nothing_to_pair() {
    let mut none: Option<Trust> = None;
    let approval = Approval { ski: "00".repeat(20) };
    assert_eq!(approve_peer(&mut none, &approval, NOW).expect_err("nothing").status, NOT_FOUND);
    assert_eq!(forget_peer(&mut none, &approval.ski).expect_err("nothing").status, NOT_FOUND);
    assert_eq!(refuse_peer(&none, &approval.ski).expect_err("nothing").status, NOT_FOUND);
    let page = list_trusted(None, None, vec![waiting(&[7; 20], "f")]);
    assert!(page.ski.is_none() && page.trusted.is_empty() && page.waiting.is_empty());
}

#[test]
fn a_peer_is_approved_listed_and_forgotten() {
    let own = identity(&ShipSettings::default(), None, NOW).expect("a fresh identity");
    let mut trust = Some(Trust::new(own.trust, true, own.keep.ship_id, own.key_pem));
    let approval = Approval { ski: "AB".repeat(20) };
    let keep = approve_peer(&mut trust, &approval, NOW).expect("a SKI").expect("it is kept");
    assert!(keep.trusted.to_lowercase().contains("abab"));
    let page = list_trusted(Some("own"), trust.as_ref(), vec![waiting(&[7; 20], "f")]);
    assert_eq!(page.trusted.len(), 1);
    assert_eq!(page.waiting.len(), 1);
    assert_eq!(
        approve_peer(&mut trust, &Approval { ski: "nonsense".to_string() }, NOW)
            .expect_err("no SKI")
            .said,
        "`nonsense` is not a SKI: forty hexadecimal characters, as printed on the peer"
    );
    assert_eq!(refuse_peer(&trust, &approval.ski).expect("a SKI"), [0xab; 20]);
    forget_peer(&mut trust, &approval.ski).expect("a SKI");
    assert!(list_trusted(None, trust.as_ref(), vec![]).trusted.is_empty());
}

#[test]
fn a_refused_name_issues_no_credential() {
    let mut access = LocalAccess::for_testing("haus", "own");
    let long = "n".repeat(65);
    for name in ["", "  ", long.as_str()] {
        let refused = connect_manager_with(&mut access, name, Ok("aa".to_string())).expect_err("no name");
        assert_eq!(refused.status, BAD_REQUEST);
        assert_eq!(connect_manager(&mut access, name).expect_err("no name").status, BAD_REQUEST);
        assert!(access.managers().is_empty());
        assert!(access.authority(Some("Bearer aa")).is_none());
    }
    let dry = connect_manager_with(&mut access, "aggregator", Err(NoEntropy)).expect_err("no token");
    assert_eq!(dry.status, INTERNAL_SERVER_ERROR);
    assert_eq!(dry.said, "the machine has no entropy to give");
    assert!(access.managers().is_empty());
}

#[test]
fn the_token_a_manager_is_told_is_the_one_that_opens() {
    let mut access = LocalAccess::for_testing("haus", "own");
    let first = connect_manager(&mut access, "aggregator").expect("a manager");
    assert_eq!(first.name, "aggregator");
    assert_eq!(first.token.len(), 64);
    let header = |token: &str| format!("Bearer {token}");
    assert!(access.authority(Some(&header(&first.token))).is_some());
    let second = connect_manager_with(&mut access, "aggregator", Ok("bb".to_string())).expect("again");
    assert_eq!(second.token, "bb");
    assert!(access.authority(Some("Bearer bb")).is_some());
    assert!(access.authority(Some(&header(&first.token))).is_none(), "the old one is rotated out");
    assert_eq!(access.managers().len(), 1);
}
