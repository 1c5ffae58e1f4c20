use server_monitor::datetime::{dotted_timestamp_text, local_now, timestamp_text, unix_timestamp};
use server_monitor::text::{decimal_text, i32_text};
use server_monitor::{MsgDateTime, MsgPayload, SrvMsg, Variant, SE_MON, SE_PRJ, SE_UNK};

fn at(y: i32, mo: u32, d: u32, h: u32, mi: u32, s: u32) -> MsgDateTime {
    MsgDateTime::from_parts(y, mo, d, h, mi, s).expect("valid date")
}

#[test]
fn message_kind_constants() {
    assert_eq!(SE_UNK, 0);
    assert_eq!(SE_PRJ, 3);
    assert_eq!(SE_MON, 7);
}

#[test]
fn decimal_and_integer_text() {
    assert_eq!(decimal_text(0), "0");
    assert_eq!(decimal_text(1234567890), "1234567890");
    assert_eq!(i32_text(0), "0");
    assert_eq!(i32_text(-42), "-42");
    assert_eq!(i32_text(i32::MAX), "2147483647");
    assert_eq!(i32_text(i32::MIN), "-2147483648");
}

#[test]
fn variant_display_text() {
    assert_eq!(Variant::Empty.display_text().as_deref(), Some("Null"));
    assert_eq!(Variant::Integer(-7).display_text().as_deref(), Some("-7"));
    assert_eq!(Variant::String("abc".to_string()).display_text().as_deref(), Some("abc"));
    assert_eq!(Variant::Boolean(true).display_text().as_deref(), Some("True"));
    assert_eq!(Variant::Boolean(false).display_text().as_deref(), Some("False"));
    assert_eq!(Variant::Float(1.5f64.to_bits()).display_text(), None);
}

#[test]
fn date_parts_are_validated() {
    assert!(MsgDateTime::from_parts(2024, 2, 29, 0, 0, 0).is_some());
    assert!(MsgDateTime::from_parts(2023, 2, 29, 0, 0, 0).is_none());
    assert!(MsgDateTime::from_parts(1900, 2, 29, 0, 0, 0).is_none());
    assert!(MsgDateTime::from_parts(2000, 2, 29, 0, 0, 0).is_some());
    assert!(MsgDateTime::from_parts(2024, 4, 31, 0, 0, 0).is_none());
    assert!(MsgDateTime::from_parts(2024, 13, 1, 0, 0, 0).is_none());
    assert!(MsgDateTime::from_parts(2024, 1, 0, 0, 0, 0).is_none());
    assert!(MsgDateTime::from_parts(2024, 1, 1, 24, 0, 0).is_none());
    assert!(MsgDateTime::from_parts(2024, 1, 1, 23, 60, 0).is_none());
    assert!(MsgDateTime::from_parts(2024, 1, 1, 23, 59, 60).is_none());
    assert!(MsgDateTime::from_parts(262143, 1, 1, 0, 0, 0).is_none());
    let dt = at(2024, 3, 5, 7, 8, 9);
    assert_eq!((dt.year(), dt.month(), dt.day()), (2024, 3, 5));
    assert_eq!((dt.hour(), dt.minute(), dt.second()), (7, 8, 9));
}

#[test]
fn timestamp_texts() {
    let dt = at(2024, 3, 5, 7, 8, 9);
    assert_eq!(timestamp_text(&dt), "2024-03-05 07:08:09");
    assert_eq!(dotted_timestamp_text(&dt), "05.03.2024 07:08:09");
    assert_eq!(timestamp_text(&at(33, 12, 31, 23, 59, 59)), "0033-12-31 23:59:59");
    assert_eq!(timestamp_text(&at(-5, 1, 1, 0, 0, 0)), "-0005-01-01 00:00:00");
    assert_eq!(timestamp_text(&at(12345, 6, 7, 1, 2, 3)), "+12345-06-07 01:02:03");
}

#[test]
fn message_getters() {
    let payload = MsgPayload::ErrLog { msg_str: "disk full".to_string(), bug_type: 2 };
    let m = SrvMsg::new_at(SE_PRJ, 4, 17, "Alkali".to_string(), payload, at(2023, 11, 2, 14, 5, 0));
    assert_eq!(m.msg, SE_PRJ);
    assert_eq!(m.index, 4);
    assert!(m.sender_id.is_none());
    assert!(matches!(m.get_client_id(), Variant::Integer(17)));
    match m.get_prj_name() {
        Variant::String(s) => assert_eq!(s, "Alkali"),
        other => panic!("unexpected {:?}", other),
    }
    match m.get_msg_date_time() {
        Variant::String(s) => assert_eq!(s, "2023-11-02 14:05:00"),
        other => panic!("unexpected {:?}", other),
    }
}

#[test]
fn new_message_is_stamped_with_a_valid_time() {
    let m = SrvMsg::new(SE_MON, 0, 1, "P".to_string(), MsgPayload::Generic { val: Variant::Empty })
        .expect("the clock reads a date chrono can hold");
    assert_eq!((m.msg, m.index, m.client_id, m.prj_name.as_str()), (SE_MON, 0, 1, "P"));
    let dt = m.msg_date_time;
    assert!(MsgDateTime::from_parts(dt.year(), dt.month(), dt.day(), dt.hour(), dt.minute(), dt.second()).is_some());
    match m.get_msg_date_time() {
        Variant::String(s) => {
            assert_eq!(s.len(), 19);
            assert_eq!(&s[4..5], "-");
            assert_eq!(&s[10..11], " ");
        }
        other => panic!("unexpected {:?}", other),
    }
}

#[test]
fn integer_text_reads_back() {
    for v in [0, 7, -7, 10, 100, -1000, i32::MAX, i32::MIN] {
        let t = Variant::Integer(v).display_text().unwrap();
        assert_eq!(t.parse::<i32>(), Ok(v));
    }
}

#[test]
fn unix_timestamps_of_clock_readings() {
    assert_eq!(unix_timestamp(Ok((1_700_000_000, 5))), Some((1_700_000_000, 5)));
    assert_eq!(unix_timestamp(Err((10, 0))), Some((-10, 0)));
    assert_eq!(unix_timestamp(Err((10, 250_000_000))), Some((-11, 750_000_000)));
    assert_eq!(unix_timestamp(Ok((u64::MAX, 0))), None);
    assert_eq!(unix_timestamp(Err((i64::MAX as u64, 1))), None);
    assert_eq!(unix_timestamp(Err((i64::MAX as u64, 0))), Some((-i64::MAX, 0)));
}

#[test]
fn local_clock_gives_a_valid_date() {
    let dt = local_now().expect("the clock reads a date chrono can hold");
    assert!(MsgDateTime::from_parts(dt.year(), dt.month(), dt.day(), dt.hour(), dt.minute(), dt.second()).is_some());
    assert!(dt.year() >= 1970);
}
