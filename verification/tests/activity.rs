use adif::activity::{window, Activity, WindowError};
use adif::reader::{DeserializeRecordsIter, Reader};
use adif::record::Record;

fn bits(activity: &Activity) -> Vec<bool> {
    activity.to_bytes().iter().map(|b| *b == 1).collect()
}

fn pattern(runs: &[(bool, usize)]) -> Vec<bool> {
    let mut all = Vec::new();
    for (bit, n) in runs {
        for _ in 0..*n {
            all.push(*bit);
        }
    }
    all
}

#[test]
fn no_contacts() {
    let activity = Activity::from_contacts(&vec![]);
    assert_eq!(activity.start(), 0);
    assert_eq!(activity.end(), 0);
    assert_eq!(activity.len(), 1);
    assert_eq!(bits(&activity), vec![false]);
}

#[test]
fn one_contact() {
    let activity = Activity::from_contacts(&vec![77]);
    assert_eq!(activity.start(), 77);
    assert_eq!(activity.end(), 77);
    assert_eq!(bits(&activity), vec![true]);
}

#[test]
fn contacts_of_one_minute() {
    let activity = Activity::from_contacts(&vec![5, 5, 5]);
    assert_eq!(activity.start(), 5);
    assert_eq!(activity.end(), 5);
    assert_eq!(bits(&activity), vec![true]);
}

#[test]
fn short_gaps_are_active_and_long_ones_are_not() {
    // a contact in each of the minutes 100 to 110, and one eleven minutes later
    let mut contacts: Vec<u64> = (100..=110).collect();
    contacts.push(121);
    let activity = Activity::from_contacts(&contacts);
    assert_eq!(activity.start(), 100);
    assert_eq!(activity.end(), 121);
    assert_eq!(activity.len(), 22);
    assert_eq!(
        bits(&activity),
        pattern(&[(true, 11), (false, 10), (true, 1)])
    );
    assert!(activity.is_active(110));
    assert!(!activity.is_active(111));
    assert!(!activity.is_active(120));
    assert!(activity.is_active(121));
    assert!(!activity.is_active(99));
    assert!(!activity.is_active(122));
}

#[test]
fn gap_of_ten_minutes_is_short() {
    let activity = Activity::from_contacts(&vec![0, 10, 21]);
    assert_eq!(
        bits(&activity),
        pattern(&[(true, 11), (false, 10), (true, 1)])
    );
    let activity = Activity::from_contacts(&vec![0, 0, 11, 11, 12]);
    assert_eq!(
        bits(&activity),
        pattern(&[(true, 1), (false, 10), (true, 2)])
    );
}

#[test]
fn start_is_moved() {
    let activity = Activity::from_contacts(&vec![10, 12, 30]);
    let whole = pattern(&[(true, 3), (false, 17), (true, 1)]);
    assert_eq!(bits(&activity), whole);

    let same = activity.adjust_start(10).unwrap();
    assert_eq!(same, activity);

    let earlier = activity.adjust_start(7).unwrap();
    assert_eq!(earlier.start(), 7);
    assert_eq!(earlier.end(), 30);
    assert_eq!(
        bits(&earlier),
        pattern(&[(false, 3), (true, 3), (false, 17), (true, 1)])
    );

    let later = activity.adjust_start(12).unwrap();
    assert_eq!(later.start(), 12);
    assert_eq!(later.end(), 30);
    assert_eq!(bits(&later), pattern(&[(true, 1), (false, 17), (true, 1)]));

    let last = activity.adjust_start(30).unwrap();
    assert_eq!(bits(&last), vec![true]);
    assert_eq!(last.len(), 1);

    assert!(activity.adjust_start(31).is_none());
    assert!(activity.adjust_start(0).is_some());
}

#[test]
fn end_is_moved() {
    let activity = Activity::from_contacts(&vec![10, 12, 30]);

    let same = activity.adjust_end(30).unwrap();
    assert_eq!(same, activity);

    let later = activity.adjust_end(33).unwrap();
    assert_eq!(later.start(), 10);
    assert_eq!(later.end(), 33);
    assert_eq!(
        bits(&later),
        pattern(&[(true, 3), (false, 17), (true, 1), (false, 3)])
    );

    let earlier = activity.adjust_end(12).unwrap();
    assert_eq!(earlier.start(), 10);
    assert_eq!(earlier.end(), 12);
    assert_eq!(bits(&earlier), vec![true, true, true]);

    let first = activity.adjust_end(10).unwrap();
    assert_eq!(bits(&first), vec![true]);

    assert!(activity.adjust_end(9).is_none());
}

#[test]
fn window_too_long_for_the_bits() {
    let activity = Activity::from_contacts(&vec![u64::MAX - 1]);
    assert!(activity.adjust_start(0).is_none());
    let activity = Activity::from_contacts(&vec![0]);
    assert!(activity.adjust_end(u64::MAX).is_none());
}

#[test]
fn bytes_round_trip() {
    let activity = Activity::from_contacts(&vec![3, 4, 20]);
    let bytes = activity.to_bytes();
    assert_eq!(bytes.len(), 18);
    assert_eq!(bytes[0], 1);
    assert_eq!(bytes[2], 0);
    assert_eq!(bytes[17], 1);
    let back = Activity::from_bytes(3, 20, &bytes).unwrap();
    assert_eq!(back, activity);
    assert_eq!(back.clone(), activity);

    let loud: Vec<u8> = bytes.iter().map(|b| b * 200).collect();
    assert_eq!(Activity::from_bytes(3, 20, &loud).unwrap(), activity);
}

#[test]
fn bytes_must_fit_the_minutes() {
    assert!(Activity::from_bytes(3, 20, &[1; 17]).is_none());
    assert!(Activity::from_bytes(3, 20, &[1; 19]).is_none());
    assert!(Activity::from_bytes(3, 2, &[]).is_none());
    assert!(Activity::from_bytes(3, 3, &[]).is_none());
    assert!(Activity::from_bytes(0, u64::MAX, &[]).is_none());
    assert!(Activity::from_bytes(3, 3, &[0]).is_some());
}

#[test]
fn window_from_length() {
    assert_eq!(window(None, None, None), Ok((None, None)));
    assert_eq!(window(Some(5), None, None), Ok((Some(5), None)));
    assert_eq!(window(None, Some(9), None), Ok((None, Some(9))));
    assert_eq!(window(Some(5), Some(9), None), Ok((Some(5), Some(9))));
    assert_eq!(window(Some(5), None, Some(30)), Ok((Some(5), Some(35))));
    assert_eq!(window(None, Some(50), Some(30)), Ok((Some(20), Some(50))));
    assert_eq!(window(None, Some(30), Some(30)), Ok((Some(0), Some(30))));
    assert_eq!(
        window(None, None, Some(30)),
        Err(WindowError::InvalidCombination)
    );
    assert_eq!(
        window(Some(1), Some(2), Some(3)),
        Err(WindowError::InvalidCombination)
    );
}

#[test]
fn activity_is_cut_to_a_window() {
    let activity = Activity::from_contacts(&vec![10, 12, 30]);
    let cut = activity.clone().restrict(Some(11), Some(13)).unwrap();
    assert_eq!(cut.start(), 11);
    assert_eq!(cut.end(), 13);
    assert_eq!(bits(&cut), vec![true, true, false]);

    let whole = activity.clone().restrict(None, None).unwrap();
    assert_eq!(whole, activity);

    assert_eq!(
        activity.clone().restrict(Some(31), None),
        Err(WindowError::Start(31))
    );
    assert_eq!(
        activity.clone().restrict(None, Some(9)),
        Err(WindowError::End(9))
    );
    assert_eq!(
        activity.clone().restrict(Some(20), Some(15)),
        Err(WindowError::End(15))
    );
    let wide = activity.clone().restrict(Some(0), Some(40)).unwrap();
    assert_eq!(wide.len(), 41);
    assert_eq!(
        bits(&wide),
        pattern(&[(false, 10), (true, 3), (false, 17), (true, 1), (false, 10)])
    );
}

/// The minute of the day at which a contact of the log was made.
fn minute_of(record: &Record) -> u64 {
    let time = record
        .fields
        .iter()
        .find(|field| field.name == "time_on")
        .unwrap()
        .value;
    let hours: u64 = time[0..2].parse().unwrap();
    let minutes: u64 = time[2..4].parse().unwrap();
    hours * 60 + minutes
}

#[test]
fn conversion() {
    let mut log = String::from("log of a test\n<EOH>\n");
    for minute in (0..=10).chain(21..=21) {
        let time = format!("18{:02}{:02}", minute, (7 * minute) % 60);
        log.push_str(&format!(
            "<CALL:4>W9YB <QSO_DATE:8>20230624 <TIME_ON:6>{} <TIME_OFF:6>{} <EOR>\n",
            time, time
        ));
    }
    let stream: DeserializeRecordsIter<Record> =
        Reader::from_str(&log).unwrap().deserialize().unwrap();
    let mut contacts: Vec<u64> = Vec::new();
    let mut stream = stream;
    while let Some(record) = stream.next() {
        contacts.push(minute_of(&record.unwrap()));
    }
    assert_eq!(contacts.len(), 12);

    let activity = Activity::from_contacts(&contacts);
    assert_eq!(
        bits(&activity),
        core::iter::repeat(true)
            .take(11)
            .chain(core::iter::repeat(false).take(10))
            .chain(core::iter::once(true))
            .collect::<Vec<bool>>()
    );

    let value = activity.to_bytes();
    assert_eq!(
        Activity::from_bytes(activity.start(), activity.end(), &value).unwrap(),
        activity
    );
}
