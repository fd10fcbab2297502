use adif::hamqth::{after_answer, renewal, take_connection, Answer, Failure, Renewal, Step};
use adif::location::{
    falls_back_to_prefix, kept_source, location_step, LocationSource, LocationStep,
};
use adif::n1mm::{bool_from_int, bool_from_string, empty_str_as_none, hz_from_freq};
use adif::prefix::{
    best_match, coordinate, get_location_for_callsign, lookup, parse_prefix_data, part,
    pattern_for, place, Coordinate, PlaceError, TableError,
};
use adif::publish::{announces, ids_match, should_publish, skips_publish};

#[test]
fn location_source_names() {
    assert_eq!(LocationSource::NoLocation.as_str(), "NoLocation");
    assert_eq!(LocationSource::Prefix.as_str(), "Prefix");
    assert_eq!(LocationSource::HamQTH.as_str(), "HamQTH");
    for source in [
        LocationSource::NoLocation,
        LocationSource::Prefix,
        LocationSource::HamQTH,
    ] {
        assert_eq!(LocationSource::from_name(source.as_str()), Some(source));
    }
    assert_eq!(LocationSource::from_name("prefix"), None);
    assert_eq!(LocationSource::from_name(""), None);
    assert_eq!(LocationSource::from_name("HamQTH "), None);
}

#[test]
fn source_is_kept_for_the_same_station() {
    assert_eq!(
        kept_source(Some(("W9YB", LocationSource::HamQTH)), "W9YB"),
        Some(LocationSource::HamQTH)
    );
    assert_eq!(
        kept_source(Some(("W9YB", LocationSource::HamQTH)), "W9YC"),
        None
    );
    assert_eq!(kept_source(None, "W9YB"), None);
}

#[test]
fn location_steps() {
    assert_eq!(location_step(None), LocationStep::Lookup);
    assert_eq!(
        location_step(Some(LocationSource::NoLocation)),
        LocationStep::FromPrefix
    );
    assert_eq!(
        location_step(Some(LocationSource::Prefix)),
        LocationStep::Nothing
    );
    assert_eq!(
        location_step(Some(LocationSource::HamQTH)),
        LocationStep::Nothing
    );
    assert!(!falls_back_to_prefix::<()>(&Ok(true)));
    assert!(falls_back_to_prefix::<()>(&Ok(false)));
    assert!(falls_back_to_prefix(&Err("offline")));
}

#[test]
fn truth_values_of_broadcasts() {
    assert_eq!(bool_from_int(0), Ok(false));
    assert_eq!(bool_from_int(1), Ok(true));
    assert_eq!(bool_from_int(2), Err(2));
    assert_eq!(bool_from_int(255), Err(255));
    assert_eq!(bool_from_string("False"), Some(false));
    assert_eq!(bool_from_string("True"), Some(true));
    assert_eq!(bool_from_string("true"), None);
    assert_eq!(bool_from_string("TRUE"), None);
    assert_eq!(bool_from_string(""), None);
}

#[test]
fn frequencies_of_broadcasts() {
    assert_eq!(hz_from_freq(0), 0);
    assert_eq!(hz_from_freq(1_402_500), 14_025_000);
    assert_eq!(hz_from_freq(-3), -30);
    assert_eq!(hz_from_freq(i64::MAX / 10), i64::MAX / 10 * 10);
}

#[test]
fn empty_text_is_none() {
    assert_eq!(empty_str_as_none(None), None);
    assert_eq!(empty_str_as_none(Some("")), None);
    assert_eq!(empty_str_as_none(Some(" ")), Some(" "));
    assert_eq!(empty_str_as_none(Some("EN60")), Some("EN60"));
}

#[test]
fn changes_that_are_passed_over() {
    // a change that may have moved the front is never passed over
    assert!(!skips_publish(Some("a"), Some(Some("b")), true));
    // a change to a contact that is not the one sent last is
    assert!(skips_publish(Some("a"), Some(Some("b")), false));
    // a change to the contact sent last is not
    assert!(!skips_publish(Some("a"), Some(Some("a")), false));
    // nothing is known: look
    assert!(!skips_publish(None, Some(Some("b")), false));
    assert!(!skips_publish(Some("a"), None, false));
    assert!(!skips_publish(Some("a"), Some(None), false));
}

#[test]
fn newest_contact_is_sent() {
    assert!(!should_publish(None, None, true));
    assert!(!should_publish(None, None, false));
    assert!(should_publish(None, Some(Some("a")), false));
    assert!(should_publish(Some(Some("a")), None, false));
    assert!(should_publish(Some(Some("a")), Some(Some("b")), false));
    assert!(!should_publish(Some(Some("a")), Some(Some("a")), false));
    assert!(should_publish(Some(Some("a")), Some(Some("a")), true));
    assert!(!should_publish(Some(None), Some(None), false));
    assert!(should_publish(Some(None), Some(Some("a")), false));
    assert!(ids_match(None, None));
    assert!(ids_match(Some("x"), Some("x")));
    assert!(!ids_match(Some("x"), Some("y")));
    assert!(!ids_match(Some("x"), None));
    assert!(announces(true, 1));
    assert!(!announces(true, 0));
    assert!(!announces(false, 3));
}

#[test]
fn connections_are_counted() {
    assert_eq!(take_connection(0), Some(1));
    assert_eq!(take_connection(15), Some(16));
    assert_eq!(take_connection(16), None);
    assert_eq!(take_connection(255), None);
}

#[test]
fn answers_of_the_callbook() {
    assert_eq!(after_answer(Answer::Search, None, "s1"), Step::Found);
    assert_eq!(
        after_answer(Answer::Session(Some("Callsign not found")), None, "s1"),
        Step::NotFound
    );
    assert_eq!(
        after_answer(
            Answer::Session(Some("Session does not exist or expired")),
            None,
            "s1"
        ),
        Step::Renew
    );
    assert_eq!(
        after_answer(
            Answer::Session(Some("Session does not exist or expired")),
            Some("s0"),
            "s1"
        ),
        Step::Renew
    );
    assert_eq!(
        after_answer(
            Answer::Session(Some("Session does not exist or expired")),
            Some("s1"),
            "s1"
        ),
        Step::Fail(Failure::Expired)
    );
    assert_eq!(
        after_answer(Answer::Session(Some("Wrong user name or password")), None, "s1"),
        Step::Fail(Failure::Unrecognized)
    );
    assert_eq!(
        after_answer(Answer::Session(None), Some("s1"), "s1"),
        Step::Fail(Failure::Empty)
    );
    assert_eq!(renewal("s1", "s1"), Renewal::Authenticate);
    assert_eq!(renewal("s1", "s2"), Renewal::TakeCurrent);
}

#[test]
fn patterns_of_prefixes() {
    assert_eq!(pattern_for("W9"), "^W9");
    assert_eq!(pattern_for("K#"), "^K\\d");
    assert_eq!(pattern_for("VE%"), "^VE.");
    assert_eq!(pattern_for("#%#"), "^\\d.\\d");
    assert_eq!(pattern_for(""), "^");
    assert_eq!(pattern_for("UA9/Ö"), "^UA9/Ö");
}

const TABLE: &str = "\
W K N|United States|NA|38.0N|97.0W|5
\n   \n\
W9 K9|Indiana  area|NA|40.0N|86.0W|5
VE#|Canada|NA|45.0N|75.0W|5
";

#[test]
fn table_of_prefixes() {
    let table = parse_prefix_data(TABLE).unwrap();
    let prefixes: Vec<&str> = table.iter().map(|e| e.prefix()).collect();
    assert_eq!(prefixes, ["W", "K", "N", "W9", "K9", "VE#"]);
    assert_eq!(table[0].data(), "United States|NA|38.0N|97.0W|5");
    assert_eq!(table[2].data(), "United States|NA|38.0N|97.0W|5");
    assert_eq!(table[4].data(), "Indiana  area|NA|40.0N|86.0W|5");
    assert_eq!(table[5].data(), "Canada|NA|45.0N|75.0W|5");

    assert!(parse_prefix_data("").unwrap().is_empty());
    assert!(parse_prefix_data("\n\n").unwrap().is_empty());
    assert_eq!(parse_prefix_data("|x").unwrap().len(), 0);
    assert_eq!(parse_prefix_data("  A   B  |x").unwrap().len(), 2);
}

#[test]
fn broken_tables() {
    assert!(matches!(
        parse_prefix_data("W K N\n"),
        Err(TableError::NoData)
    ));
    assert!(matches!(
        parse_prefix_data("W|x\nK\nN|y"),
        Err(TableError::NoData)
    ));
    assert!(matches!(
        parse_prefix_data("W( |x"),
        Err(TableError::Pattern(_))
    ));
}

#[test]
fn longest_match_wins() {
    let table = parse_prefix_data(TABLE).unwrap();
    assert_eq!(
        lookup(&table, "W9YB"),
        Some("Indiana  area|NA|40.0N|86.0W|5")
    );
    assert_eq!(
        lookup(&table, "W1AW"),
        Some("United States|NA|38.0N|97.0W|5")
    );
    assert_eq!(lookup(&table, "VE3XYZ"), Some("Canada|NA|45.0N|75.0W|5"));
    assert_eq!(lookup(&table, "VEX"), None);
    assert_eq!(lookup(&table, "DL1ABC"), None);
    assert_eq!(lookup(&table, ""), None);
    assert_eq!(lookup(&Vec::new(), "W9YB"), None);
}

#[test]
fn best_of_the_matches() {
    assert_eq!(best_match(&vec![]), None);
    assert_eq!(best_match(&vec![None, None]), None);
    assert_eq!(best_match(&vec![None, Some(0)]), Some(1));
    assert_eq!(best_match(&vec![Some(1), Some(2), Some(2), Some(1)]), Some(1));
    assert_eq!(best_match(&vec![Some(3), None, Some(3)]), Some(0));
    assert_eq!(best_match(&vec![None, Some(1), None, Some(4)]), Some(3));
}

#[test]
fn parts_of_a_line() {
    let data = "Indiana|NA|W9|40.0N|86.0W|5";
    assert_eq!(part(data, 0), Some("Indiana"));
    assert_eq!(part(data, 3), Some("40.0N"));
    assert_eq!(part(data, 4), Some("86.0W"));
    assert_eq!(part(data, 5), Some("5"));
    assert_eq!(part(data, 6), None);
    assert_eq!(part("", 0), Some(""));
    assert_eq!(part("", 1), None);
    assert_eq!(part("a||b|", 1), Some(""));
    assert_eq!(part("a||b|", 3), Some(""));
    assert_eq!(part("a||b|", 4), None);
}

#[test]
fn coordinates() {
    assert_eq!(
        coordinate("40.0N", 'N', 'S'),
        Ok(Coordinate {
            degrees: "40.0",
            negative: false
        })
    );
    assert_eq!(
        coordinate("33.5S", 'N', 'S'),
        Ok(Coordinate {
            degrees: "33.5",
            negative: true
        })
    );
    assert_eq!(
        coordinate("W", 'E', 'W'),
        Ok(Coordinate {
            degrees: "",
            negative: true
        })
    );
    assert_eq!(
        coordinate("1é0E", 'E', 'W'),
        Ok(Coordinate {
            degrees: "1é0",
            negative: false
        })
    );
    assert_eq!(coordinate("", 'N', 'S'), Err(PlaceError::Empty));
    assert_eq!(coordinate("40.0", 'N', 'S'), Err(PlaceError::Letter('0')));
    assert_eq!(coordinate("40.0n", 'N', 'S'), Err(PlaceError::Letter('n')));
    assert_eq!(coordinate("40.0E", 'N', 'S'), Err(PlaceError::Letter('E')));
    assert_eq!(coordinate("12é", 'N', 'S'), Err(PlaceError::Letter('é')));
}

#[test]
fn place_of_a_line() {
    let (latitude, longitude) = place("Indiana|NA|W9|40.0N|86.0W|5").unwrap();
    assert_eq!(latitude.degrees, "40.0");
    assert!(!latitude.negative);
    assert_eq!(longitude.degrees, "86.0");
    assert!(longitude.negative);

    let (latitude, longitude) = place("|||33.9S|151.2E").unwrap();
    assert_eq!(latitude.degrees, "33.9");
    assert!(latitude.negative);
    assert_eq!(longitude.degrees, "151.2");
    assert!(!longitude.negative);

    assert_eq!(place("a|b|c"), Err(PlaceError::MissingPart(3)));
    assert_eq!(place("a|b|c|1N"), Err(PlaceError::MissingPart(4)));
    assert_eq!(place("a|b|c||1E"), Err(PlaceError::Empty));
    assert_eq!(place("a|b|c|1N|"), Err(PlaceError::Empty));
    assert_eq!(place("a|b|c|1E|1E"), Err(PlaceError::Letter('E')));
    assert_eq!(place("a|b|c|1N|1N"), Err(PlaceError::Letter('N')));
}

#[test]
fn place_of_a_callsign() {
    let table = parse_prefix_data("W K|USA|NA|x|38.0N|97.0W\nW9|Indiana|NA|x|40.0N|86.0W\nZZ|bad").unwrap();
    let (latitude, longitude) = get_location_for_callsign(&table, "W9YB").unwrap().unwrap();
    assert_eq!(latitude.degrees, "40.0");
    assert_eq!(longitude.degrees, "86.0");
    assert!(longitude.negative);
    let (latitude, _) = get_location_for_callsign(&table, "K1ABC").unwrap().unwrap();
    assert_eq!(latitude.degrees, "38.0");
    assert!(get_location_for_callsign(&table, "DL1ABC").is_none());
    assert_eq!(
        get_location_for_callsign(&table, "ZZ1A"),
        Some(Err(PlaceError::MissingPart(3)))
    );
}
