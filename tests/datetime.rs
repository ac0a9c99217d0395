use sit_timetable::{try_parse_string_to_start_end_dt, CivilDateTime, DateTimeError};

fn at(year: u16, month: u8, day: u8, hour: u8, minute: u8) -> CivilDateTime {
    CivilDateTime { year, month, day, hour, minute }
}

#[test]
fn parses_morning_meeting() {
    let r = try_parse_string_to_start_end_dt("Mo 9:00AM - 11:00AM 15/01/2024");
    assert_eq!(r, Ok((at(2024, 1, 15, 9, 0), at(2024, 1, 15, 11, 0))));
}

#[test]
fn parses_afternoon_and_noon() {
    let r = try_parse_string_to_start_end_dt("Th 12:30PM - 2:15PM 29/02/2024 ");
    assert_eq!(r, Ok((at(2024, 2, 29, 12, 30), at(2024, 2, 29, 14, 15))));
}

#[test]
fn midnight_hour_and_lowercase_suffix() {
    let r = try_parse_string_to_start_end_dt("Fr 12:05am - 1:00am 01/12/2023");
    assert_eq!(r, Ok((at(2023, 12, 1, 0, 5), at(2023, 12, 1, 1, 0))));
}

#[test]
fn start_before_end_for_valid_text() {
    let (s, e) = try_parse_string_to_start_end_dt("We 10:00AM - 10:01AM 31/12/2025").unwrap();
    assert!((s.hour, s.minute) < (e.hour, e.minute));
    assert_eq!((s.year, s.month, s.day), (e.year, e.month, e.day));
}

#[test]
fn wrong_token_counts_fail_as_unknown_format() {
    for text in [
        "",
        "   ",
        "TBA",
        "Mo 9:00AM - 11:00AM",
        "9:00AM - 11:00AM 15/01/2024",
        "Mo 9:00AM - 11:00AM 15/01/2024 extra",
        "Mo 9:00AM-11:00AM 15/01/2024",
    ] {
        assert_eq!(try_parse_string_to_start_end_dt(text), Err(DateTimeError::UnknownFormat));
    }
}

#[test]
fn bad_start_or_end_is_reported() {
    assert_eq!(
        try_parse_string_to_start_end_dt("Mo 13:00PM - 11:00AM 15/01/2024"),
        Err(DateTimeError::InvalidStart)
    );
    assert_eq!(
        try_parse_string_to_start_end_dt("Mo 9:00AM - 11:60AM 15/01/2024"),
        Err(DateTimeError::InvalidEnd)
    );
    assert_eq!(
        try_parse_string_to_start_end_dt("Mo 9:00AM - 11:00AM 30/02/2024"),
        Err(DateTimeError::InvalidStart)
    );
    assert_eq!(
        try_parse_string_to_start_end_dt("Mo 9:00AM - 11:00AM 29/02/2023"),
        Err(DateTimeError::InvalidStart)
    );
    assert_eq!(
        try_parse_string_to_start_end_dt("Mo 9:00 - 11:00AM 15/01/2024"),
        Err(DateTimeError::InvalidStart)
    );
}

#[test]
fn other_whitespace_separates_tokens() {
    let r = try_parse_string_to_start_end_dt("Tu\t8:00AM\n-  9:00AM\r\n15/01/2024");
    assert_eq!(r, Ok((at(2024, 1, 15, 8, 0), at(2024, 1, 15, 9, 0))));
}

#[test]
fn end_not_after_start_is_refused() {
    assert_eq!(
        try_parse_string_to_start_end_dt("Mo 11:00AM - 9:00AM 15/01/2024"),
        Err(DateTimeError::EndNotAfterStart)
    );
    assert_eq!(
        try_parse_string_to_start_end_dt("Mo 9:00AM - 9:00AM 15/01/2024"),
        Err(DateTimeError::EndNotAfterStart)
    );
    assert_eq!(
        try_parse_string_to_start_end_dt("Mo 12:00PM - 12:30AM 15/01/2024"),
        Err(DateTimeError::EndNotAfterStart)
    );
}
