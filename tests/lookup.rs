use std::io::Write;

use zipcodes::{
    clean_zipcode, dataset_text, filter_by, is_real, list_all, matching, Database, Error, Zipcode,
};

fn record(code: &str, city: &str, state: &str, kind: &str, active: bool) -> Zipcode {
    Zipcode {
        acceptable_cities: vec![],
        active,
        area_codes: vec!["203".to_string()],
        city: city.to_string(),
        country: "US".to_string(),
        county: "Fairfield County".to_string(),
        lat: "41.05".to_string(),
        long: "-73.54".to_string(),
        state: state.to_string(),
        timezone: "America/New_York".to_string(),
        unacceptable_cities: vec![],
        world_region: "NA".to_string(),
        zip_code: code.to_string(),
        zip_code_type: kind.to_string(),
    }
}

fn sample_db() -> Database {
    Database::new(vec![
        record("06902", "Stamford", "CT", "STANDARD", true),
        record("06903", "Stamford", "CT", "STANDARD", true),
        record("06904", "Stamford", "CT", "PO BOX", true),
        record("06903", "Stamford", "CT", "UNIQUE", false),
        record("77429", "Cypress", "TX", "STANDARD", true),
    ])
}

fn codes(v: &[Zipcode]) -> Vec<String> {
    v.iter().map(|z| z.zip_code.clone()).collect()
}

fn kinds(v: &[Zipcode]) -> Vec<String> {
    v.iter().map(|z| z.zip_code_type.clone()).collect()
}

#[test]
fn should_find_real_zipcodes() {
    let db = sample_db();
    assert!(is_real(&db, "06903").unwrap())
}

#[test]
fn should_return_no_zipcodes() {
    let db = sample_db();
    for zc in &["00000", "00000-0000", "00000 0000"] {
        assert!(matching(&db, zc, None).unwrap().is_empty())
    }
}

#[test]
fn should_fail_to_find_zipcodes_not_included_in_overrides() {
    let db = sample_db();
    let zc = "06903";
    matching(&db, zc, None).unwrap();
    assert!(matching(&db, zc, Some(matching(&db, "06904", None).unwrap()))
        .unwrap()
        .is_empty());
}

#[test]
fn clean_accepts_plain_and_plus_four_forms() {
    assert_eq!(clean_zipcode("06903").unwrap(), "06903");
    assert_eq!(clean_zipcode("06903-1234").unwrap(), "06903");
    assert_eq!(clean_zipcode("06903 1234").unwrap(), "06903");
    assert_eq!(clean_zipcode("  06903\t\n").unwrap(), "06903");
    assert_eq!(clean_zipcode("06903abc").unwrap(), "06903");
}

#[test]
fn clean_rejects_short_input() {
    assert_eq!(clean_zipcode(""), Err(Error::InvalidFormat));
    assert_eq!(clean_zipcode("1234"), Err(Error::InvalidFormat));
    assert_eq!(clean_zipcode("   1234   "), Err(Error::InvalidFormat));
    assert_eq!(clean_zipcode("ab"), Err(Error::InvalidFormat));
}

#[test]
fn clean_rejects_non_digits() {
    assert_eq!(clean_zipcode("0690a"), Err(Error::InvalidCharacters));
    assert_eq!(clean_zipcode("abcde-1234"), Err(Error::InvalidCharacters));
    assert_eq!(clean_zipcode("069-031234"), Err(Error::InvalidCharacters));
    assert_eq!(clean_zipcode("０６９０３"), Err(Error::InvalidCharacters));
}

#[test]
fn error_messages_name_the_expected_shape() {
    assert!(Error::InvalidFormat.message().contains("#####-####"));
    assert!(Error::InvalidCharacters.message().contains("digits"));
}

#[test]
fn matching_keeps_duplicates_in_order() {
    let db = sample_db();
    let found = matching(&db, " 06903-0001 ", None).unwrap();
    assert_eq!(codes(&found), vec!["06903", "06903"]);
    assert_eq!(kinds(&found), vec!["STANDARD", "UNIQUE"]);
    assert!(!found[1].active);
}

#[test]
fn matching_propagates_validation_errors() {
    let db = sample_db();
    assert_eq!(matching(&db, "069", None).unwrap_err(), Error::InvalidFormat);
    assert_eq!(matching(&db, "o6903", None).unwrap_err(), Error::InvalidCharacters);
    assert_eq!(is_real(&db, "").unwrap_err(), Error::InvalidFormat);
    assert_eq!(is_real(&db, "x0000").unwrap_err(), Error::InvalidCharacters);
}

#[test]
fn matching_searches_only_the_override() {
    let db = sample_db();
    let over = vec![record("10001", "New York", "NY", "STANDARD", true)];
    assert_eq!(codes(&matching(&db, "10001", Some(over.clone())).unwrap()), vec!["10001"]);
    assert!(matching(&db, "10001", None).unwrap().is_empty());
    assert!(matching(&db, "06903", Some(over)).unwrap().is_empty());
}

#[test]
fn is_real_agrees_with_matching() {
    let db = sample_db();
    for zc in ["06902", "06903-1111", "77429", "00000", "99999 0000"] {
        assert_eq!(is_real(&db, zc).unwrap(), !matching(&db, zc, None).unwrap().is_empty());
    }
    assert!(!is_real(&db, "00000").unwrap());
}

#[test]
fn filter_by_with_no_filters_lists_everything() {
    let db = sample_db();
    let none: Vec<fn(&Zipcode) -> bool> = vec![];
    let all = filter_by(&db, none, None).unwrap();
    assert_eq!(codes(&all), codes(&list_all(&db)));
    assert_eq!(all.len(), 5);
}

#[test]
fn filter_by_ands_its_filters_in_order() {
    let db = sample_db();
    let by_state: fn(&Zipcode) -> bool = |z| z.state == "CT";
    let by_active: fn(&Zipcode) -> bool = |z| z.active;
    let both = filter_by(&db, vec![by_state, by_active], None).unwrap();
    let first = filter_by(&db, vec![by_state], None).unwrap();
    let second = filter_by(&db, vec![by_active], None).unwrap();
    assert_eq!(codes(&both), vec!["06902", "06903", "06904"]);
    assert_eq!(codes(&filter_by(&db, vec![by_active], Some(first)).unwrap()), codes(&both));
    assert_eq!(codes(&filter_by(&db, vec![by_state], Some(second)).unwrap()), codes(&both));
}

#[test]
fn filter_by_stops_at_the_first_failing_filter() {
    let db = sample_db();
    let calls = std::cell::Cell::new(0u32);
    let reject = |_: &Zipcode| false;
    let count = |_: &Zipcode| {
        calls.set(calls.get() + 1);
        true
    };
    let filters: Vec<&dyn Fn(&Zipcode) -> bool> = vec![&reject, &count];
    assert!(filter_by(&db, filters, None).unwrap().is_empty());
    assert_eq!(calls.get(), 0);
}

#[test]
fn filter_by_uses_the_override() {
    let db = sample_db();
    let over = vec![record("10001", "New York", "NY", "STANDARD", true)];
    let any: fn(&Zipcode) -> bool = |_| true;
    assert_eq!(codes(&filter_by(&db, vec![any], Some(over)).unwrap()), vec!["10001"]);
}

#[test]
fn list_all_returns_an_independent_copy() {
    let db = sample_db();
    let mut first = list_all(&db);
    first[0].city = "Changed".to_string();
    first.clear();
    let second = list_all(&db);
    assert_eq!(second.len(), 5);
    assert_eq!(second[0].city, "Stamford");
    assert_eq!(codes(&second), vec!["06902", "06903", "06904", "06903", "77429"]);
}

#[test]
fn queries_repeat_identically() {
    let db = sample_db();
    assert_eq!(codes(&matching(&db, "06903", None).unwrap()), codes(&matching(&db, "06903", None).unwrap()));
    assert_eq!(is_real(&db, "77429").unwrap(), is_real(&db, "77429").unwrap());
    assert_eq!(codes(&list_all(&db)), codes(&list_all(&db)));
    assert_eq!(db.len(), 5);
}

#[test]
fn dataset_text_decompresses_bzip2() {
    let text = "[{\"zip_code\": \"06903\"}]";
    let mut enc = bzip2::write::BzEncoder::new(Vec::new(), bzip2::Compression::best());
    enc.write_all(text.as_bytes()).unwrap();
    let compressed = enc.finish().unwrap();
    assert_ne!(compressed, text.as_bytes());
    assert_eq!(dataset_text(&compressed).unwrap(), text);
}

#[test]
fn dataset_text_rejects_other_bytes() {
    assert_eq!(dataset_text(b"not a bzip2 stream"), None);
}
