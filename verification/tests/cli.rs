//! What a person at a terminal is told.

use hemsd::backtest::{Calibration, Spread};
use hemsd::cli::{
    clock, judged, moved_message, policies, print_backtest, print_risk, record_day, scenario_for,
    secret_for, sent_message, simulated, Asked, Checked, Day, Judged, Named, PolicyRow, Risk,
};
use hemsd::config::{Modul3Settings, RiskModel};
use hemsd::report::Sent;
use hemsd::runtime::access::{How, Issued};
use hemsd::site::{BatteryConfig, EvseConfig, GeoPoint, HouseholdConfig, Para9Status, PvConfig};

const BAND: Calibration = Calibration {
    coverage: 796_000,
    crps: 212_400_000,
    bias: -15_600_000,
    samples: 720,
    skipped: 1_200,
    episodes: 20,
    well_calibrated: true,
};

fn spread(savings_eur: Vec<i64>) -> Spread {
    Spread {
        unserved_eur: vec![0; savings_eur.len()],
        savings_eur,
        seconds: 12_300_000,
        pv_forecast: BAND,
        load_forecast: BAND,
    }
}

fn household() -> HouseholdConfig {
    HouseholdConfig {
        pv: Some(PvConfig {
            kwp: 10_000_000,
            ac_nominal: 8_000_000,
            para9: Para9Status { imsys_since: None, relieved: false },
        }),
        battery: Some(BatteryConfig { kwh: 1, power: 2, reserve_soc: 3, wear_eur_per_kwh: 4 }),
        evse: Some(EvseConfig { max_current: 16, switchable: false, charge_limit: None }),
        heat_pump: None,
        dhw: None,
        fuse: 35,
        location: GeoPoint { latitude: 0, longitude: 0, altitude_m: 0 },
        dishwasher: None,
    }
}

const ORDINARY: Asked = Asked {
    wear_eur_per_kwh: None,
    no_phase_switching: false,
    imsys: false,
    heat_pump_on_off: false,
    perfect_foresight: false,
    risk: Risk::Median,
    co2_eur_per_kg: None,
    autarky_eur_per_kwh: None,
    uniform_weights: false,
    sharing: false,
};

#[test]
fn every_day_has_its_own_scenario() {
    let days = [
        (Day::Winter, Named::WinterWithGridEvent),
        (Day::Summer, Named::SummerSurplus),
        (Day::Deadline, Named::WinterEveningDeadline),
        (Day::Shared, Named::WinterEveningNoStore),
        (Day::Offline, Named::SummerWithoutAPlanner),
        (Day::Autumn, Named::AutumnWithoutAPlanner),
        (Day::Capped, Named::SummerCapped),
    ];
    for (day, named) in days {
        assert_eq!(scenario_for(day), named);
    }
}

#[test]
fn an_adaptive_policy_starts_with_one_median() {
    assert_eq!(
        policies().iter().map(|p| (p.model(), p.adaptive(), p.label())).collect::<Vec<_>>(),
        vec![
            (RiskModel::Deterministic, false, "one median"),
            (RiskModel::Expected, false, "three futures"),
            (RiskModel::Hedged, false, "…and the tail"),
            (RiskModel::Deterministic, true, "only when at risk"),
        ]
    );
}

#[test]
fn a_simulated_day_changes_what_was_asked_and_nothing_else() {
    let plain = simulated(Day::Winter, &ORDINARY, household());
    assert_eq!((plain.config.pv, plain.config.battery), (household().pv, household().battery));
    assert!(plain.config.evse.expect("a charge point").switchable, "it can unless it was said");
    assert!(plain.per_asset_weights && plain.community_kwp.is_none());
    assert_eq!(plain.risk, RiskModel::Deterministic);

    let asked = Asked {
        wear_eur_per_kwh: Some(50_000),
        no_phase_switching: true,
        imsys: true,
        perfect_foresight: true,
        risk: Risk::Adaptive,
        co2_eur_per_kg: Some(90_000),
        uniform_weights: true,
        sharing: true,
        ..ORDINARY
    };
    let s = simulated(Day::Summer, &asked, household());
    assert_eq!(s.named, Named::SummerSurplus);
    assert_eq!(s.config.battery.expect("a battery").wear_eur_per_kwh, 50_000);
    assert!(!s.config.evse.expect("a charge point").switchable);
    assert!(s.config.pv.expect("a roof").para9.relieved);
    assert_eq!(s.community_kwp, Some(30_000_000));
    assert!(s.adaptive_risk && s.perfect_foresight && !s.per_asset_weights);
    assert_eq!((s.carbon_price, s.autarky_premium), (Some(90_000), None));
    let dark = simulated(Day::Summer, &asked, HouseholdConfig { pv: None, ..household() });
    assert_eq!(dark.community_kwp, Some(0));
}

#[test]
fn a_band_is_judged_over_enough_days() {
    let s = spread(vec![1]);
    assert_eq!(judged(&s), Judged::Calibrated);
    let off = Calibration { well_calibrated: false, ..BAND };
    assert_eq!(judged(&Spread { load_forecast: off, ..spread(vec![1]) }), Judged::WrongWidth);
    let few = Calibration { episodes: 19, ..off };
    assert_eq!(judged(&Spread { pv_forecast: few, ..spread(vec![1]) }), Judged::TooFewDays);
}

#[test]
fn a_back_test_is_printed_whole() {
    let s = spread(vec![1_000_000, 2_000_000]);
    assert_eq!(
        print_backtest("2026-01-15", &s),
        "\n  2026-01-15 — 2 weathers, the band scored against every one of them\n\n  \
         band               covered      CRPS     bias    scored     dark\n  \
         production             80%      212W     -16W       720     1200\n  \
         household load         80%      212W     -16W       720     1200\n\n  \
         a 10–90 band should cover 80 %; `dark` is the quarter hours where\n  \
         there was nothing to forecast and which are therefore not scored.\n\n  \
         calibrated — over enough independent days to say so.\n\n"
    );
}

#[test]
fn a_comparison_is_printed_whole() {
    let rows = vec![
        PolicyRow { policy: Risk::Median, spread: spread(vec![1_000_000, -500_000]) },
        PolicyRow { policy: Risk::Hedged, spread: spread(vec![]) },
    ];
    let text = print_risk("2026-01-15", &rows);
    let line = |label: &str, rest: &str| format!("  {label:<16}{rest}\n");
    assert!(text.starts_with(
        "\n  2026-01-15 — 2 weathers, the same household under each policy\n\n  \
         policy                mean     worst      best    unserved     solve\n"
    ));
    assert!(text.contains(
        line("one median", "     0.25€    -0.50€     1.00€       0.00€       12s").as_str()
    ));
    assert!(
        text.contains(
            line("…and the tail", "     0.00€      inf€     -inf€       0.00€       12s").as_str()
        ),
        "{text}"
    );
    let band = format!("{:>9}%{:>9}W{:>12}", 80, 212, 20);
    assert!(text.contains(line("production", band.as_str()).as_str()));
    assert!(text.contains("a 10–90 band should cover 80 %. It does, over enough days to say so.\n"));
    assert!(text.ends_with("worth having, which is a result rather than a failure.\n\n"));
    let none = print_risk("2026-01-15", &vec![]);
    assert!(none.contains("— 0 weathers") && !none.contains("band"));
}

#[test]
fn a_check_says_what_an_installer_carries_away() {
    let m = Modul3Settings {
        id: "VNB-2026".to_string(),
        year: 2026,
        hochtarif_minutes: [1020, 1260],
        niedertarif_minutes: [0, 1440],
        billed_quarters: vec!["Q1".to_string(), "Q4".to_string()],
        ht_ct_per_kwh: 0,
        st_ct_per_kwh: 0,
        nt_ct_per_kwh: 0,
        source: Some("Preisblatt 2026".to_string()),
    };
    let checked = Checked {
        ski: Some("ab cd".to_string()),
        issued: Issued { token: "0f".to_string(), how: How::Ephemeral },
        assets: 5,
        drivers: 4,
        described: 3,
        undescribed: 2,
        modul3: Some(m),
    };
    assert_eq!(
        checked.message(),
        "🔑 SKI  ab cd\n   give this to the metering point operator, so the Steuerbox trusts it\n\
         🔑 API  0f\n   this box keeps no store, so this token lasts until it restarts\n\
         ✅ 5 assets, 4 drivers, 3 resources described in S2, 2 it cannot express\n\
         📅 Modul 3 `VNB-2026` for 2026 conforms — HT 17:00–21:00, NT 00:00–00:00, \
         billed in Q1, Q4\n   transcribed from Preisblatt 2026\n"
    );
    let bare = Checked {
        ski: None,
        issued: Issued { token: "0f".to_string(), how: How::Configured },
        undescribed: 0,
        modul3: None,
        ..checked
    };
    assert_eq!(bare.message(), "✅ 5 assets, 4 drivers, 3 resources described in S2\n");
    assert_eq!(clock(65), "01:05");
}

#[test]
fn a_day_is_kept_and_sent_and_the_terminal_says_so() {
    assert_eq!(
        record_day("/var/lib/hemsd", 2, 96),
        "\n  kept in /var/lib/hemsd\n  …waiting for the fleet      2 events, 96 quarter hours\n"
    );
    assert_eq!(secret_for(None, None), Ok(None));
    assert_eq!(secret_for(Some("u"), Some("k")), Ok(Some(("u", "k"))));
    assert!(secret_for(Some("u"), None).is_err(), "the fleet will not take an unsigned day");
    let queued = "\n  the day is queued and `hemsd run` will try again\n";
    assert_eq!(sent_message(Sent::Taken, "e", "202"), "\n  reported to e — HTTP 202\n");
    assert_eq!(sent_message(Sent::Queued, "e", "503"), format!("\n  e answered HTTP 503{queued}"));
    assert_eq!(
        sent_message(Sent::Unreachable, "e", "no route"),
        format!("\n  could not report to e: no route{queued}")
    );
    assert_eq!(sent_message(Sent::Lost, "e", "x"), "\n  could not report to e: x\n");
    assert_eq!(
        moved_message("2026-06-01", "2026-06-15"),
        "  § 42c reaches this household from 2026-06-01, so the same day runs on 2026-06-15\n"
    );
}
