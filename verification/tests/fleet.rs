//! What a box asks the fleet, and what it makes of the answers.

use hemsd::clock::{Horizon, Instant, Slot, SECOND, SLOT};
use hemsd::config::FleetSettings;
use hemsd::runtime::fleet::{
    prices_url, received, undecodable, urlencode, Answer, Exact, Fleet, FleetError, PricePoint,
    Prices, Sky, SkyPoint,
};

/// 2026-01-15 00:00:00 UTC.
const MIDNIGHT: Instant = 1_768_435_200 * SECOND;

/// The answer `tariffd` gave.
fn answer() -> Prices {
    Prices {
        points: vec![
            PricePoint { slot: MIDNIGHT, price_ct: "8.42".to_string() },
            PricePoint { slot: MIDNIGHT + SLOT, price_ct: "-1.5".to_string() },
        ],
        coverage_ppm: 500_000,
        contiguous_until: Some(MIDNIGHT + SLOT),
    }
}

#[test]
fn a_price_curve_survives_the_wire_as_an_exact_decimal() {
    let spot = answer().spot();
    assert_eq!(spot.len(), 2);
    let values: Vec<String> = spot
        .values()
        .map(|e| rust_decimal::Decimal::from_i128_with_scale(e.mantissa, e.scale).to_string())
        .collect();
    assert_eq!(values, vec!["8.42".to_string(), "-1.5".to_string()]);
    assert_eq!(
        spot.get(&Slot::containing(MIDNIGHT).index),
        Some(&Exact { mantissa: 842, scale: 2 })
    );
}

#[test]
fn a_partial_answer_is_read_as_partial_rather_than_as_zero() {
    let prices = answer();
    assert_eq!(prices.coverage_ppm, 500_000);
    assert_eq!(prices.points.len(), 2);
    assert!(prices.contiguous_until.is_some());
    assert_eq!(prices.spot().get(&Slot::containing(MIDNIGHT + 2 * SLOT).index), None);
}

#[test]
fn the_sky_is_read_with_and_without_a_cloud_cover() {
    let sky = Sky {
        fetched_at: MIDNIGHT + 120 * SECOND,
        published_minutes: 15,
        points: vec![
            SkyPoint {
                slot: MIDNIGHT + 44 * SLOT,
                ghi_w_per_m2: 420_000_000,
                temperature_c: 3_500_000,
                cloud_cover: Some(200_000),
            },
            SkyPoint {
                slot: MIDNIGHT + 45 * SLOT,
                ghi_w_per_m2: 380_000_000,
                temperature_c: 3_700_000,
                cloud_cover: None,
            },
        ],
    };
    let by_slot = sky.by_slot();
    assert_eq!(by_slot.len(), 2);
    let first = by_slot.values().next().expect("a point");
    assert_eq!(first.cloud_cover, Some(200_000));
    let second = by_slot.values().nth(1).expect("a second point");
    assert_eq!(second.cloud_cover, None);
}

#[test]
fn a_box_with_nothing_configured_asks_nobody() {
    let fleet = Fleet::new(&FleetSettings::default());
    assert!(!fleet.is_configured());
    assert!(!fleet.has_prices());
    assert!(!fleet.has_weather());
    assert_eq!(fleet.prices(Horizon::new(MIDNIGHT, 96)), None);
    assert_eq!(fleet.sky(), None);
}

#[test]
fn an_instant_and_a_location_are_encoded_for_a_query_string() {
    assert_eq!(urlencode("2026-01-15T00:00:00Z"), "2026-01-15T00%3A00%3A00Z");
    assert_eq!(urlencode("berlin-mitte"), "berlin-mitte");
    assert_eq!(urlencode("Köln/Süd"), "K%C3%B6ln%2FS%C3%BCd");
}

#[test]
fn a_question_names_the_first_quarter_hour_and_how_many_there_are() {
    let fleet = Fleet::new(&FleetSettings {
        tariffd_url: Some("http://tariffd:8080/".to_string()),
        forecastd_url: Some("http://forecastd:8080".to_string()),
        location: Some("Köln".to_string()),
        request_timeout_s: 0,
    });
    assert!(fleet.is_configured() && fleet.has_prices() && fleet.has_weather());
    assert_eq!(fleet.timeout_s(), 1, "a request that may take no time is never made");
    assert_eq!(
        fleet.prices(Horizon::new(MIDNIGHT + 1, 96)).as_deref(),
        Some("http://tariffd:8080/v1/prices?from=2026-01-15T00%3A00%3A00Z&slots=96")
    );
    assert_eq!(
        fleet.sky().as_deref(),
        Some("http://forecastd:8080/v1/weather/K%C3%B6ln")
    );
    assert_eq!(
        prices_url("http://x//", "a b", 3),
        "http://x/v1/prices?from=a%20b&slots=3"
    );
}

#[test]
fn an_unreadable_price_is_absent_and_the_later_one_stands() {
    let prices = Prices {
        points: vec![
            PricePoint { slot: MIDNIGHT, price_ct: "free".to_string() },
            PricePoint { slot: MIDNIGHT + SLOT, price_ct: "1".to_string() },
            PricePoint { slot: MIDNIGHT + SLOT + 1, price_ct: "2.50".to_string() },
        ],
        coverage_ppm: 1_000_000,
        contiguous_until: None,
    };
    let spot = prices.spot();
    assert_eq!(spot.len(), 1);
    assert_eq!(
        spot.get(&Slot::containing(MIDNIGHT + SLOT).index),
        Some(&Exact { mantissa: 250, scale: 2 })
    );
}

#[test]
fn every_way_of_not_answering_says_which() {
    let silent = received("prices", "http://x", Answer::Silent("no route".to_string()))
        .expect_err("nobody answered");
    assert!(matches!(silent, FleetError::Unreachable { .. }));
    assert_eq!(silent.message(), "prices could not be fetched from http://x: no route");

    let refused = received(
        "prices",
        "http://x",
        Answer::Replied { status: 404, shown: "404 Not Found".to_string(), body: Ok(vec![]) },
    )
    .expect_err("it was refused");
    assert!(matches!(refused, FleetError::Unreadable { .. }));
    assert_eq!(
        refused.message(),
        "prices from http://x was not readable: the service answered 404 Not Found"
    );

    let broken = received(
        "prices",
        "http://x",
        Answer::Replied { status: 200, shown: "200 OK".to_string(), body: Err("reset".to_string()) },
    )
    .expect_err("it broke off");
    assert!(matches!(broken, FleetError::Unreachable { .. }));

    let whole = received(
        "prices",
        "http://x",
        Answer::Replied { status: 200, shown: "200 OK".to_string(), body: Ok(vec![123, 125]) },
    );
    assert_eq!(whole.expect("a body"), vec![123, 125]);
}

#[test]
fn what_cannot_be_decoded_is_quoted_up_to_its_beginning() {
    let said = undecodable("the sky", "http://x", "expected value", b"<html>\"\xff").message();
    assert_eq!(
        said,
        "the sky from http://x was not readable: expected value — the first bytes were \"<html>\\\"\u{fffd}\""
    );
    let long = vec![b'a'; 500];
    let said = undecodable("the sky", "http://x", "?", &long).message();
    assert!(said.ends_with(&format!("\"{}\"", "a".repeat(120))));
}
