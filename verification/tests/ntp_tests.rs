use rust_in_action::ntp::{
    clock_adjustment_ms, ntp_result, NTPMessage, NTPResult, NTPTimestamp, UnixTime,
};

#[test]
fn client_request_bytes() {
    let m = NTPMessage::client();
    assert_eq!(m.data[0], 0x1B);
    assert!(m.data[1..].iter().all(|b| *b == 0));
    assert!(NTPMessage::new().data.iter().all(|b| *b == 0));
}

#[test]
fn parses_big_endian_timestamps() {
    let mut m = NTPMessage::new();
    m.data[32..40].copy_from_slice(&[0x83, 0xAA, 0x7E, 0x80, 0x80, 0, 0, 0]);
    m.data[40..48].copy_from_slice(&[0, 0, 0, 1, 0, 0, 0, 2]);
    let rx = m.rx_time();
    assert_eq!(rx.seconds, 0x83AA7E80);
    assert_eq!(rx.fraction, 0x8000_0000);
    let tx = m.tx_time();
    assert_eq!(tx, NTPTimestamp { seconds: 1, fraction: 2 });
}

#[test]
fn ntp_epoch_of_unix_zero() {
    let t = UnixTime::from(NTPTimestamp { seconds: 2_208_988_800, fraction: 0x8000_0000 });
    assert_eq!(t, UnixTime { secs: 0, nanos: 500_000_000 });
    let back = NTPTimestamp::from(t);
    assert_eq!(back, NTPTimestamp { seconds: 2_208_988_800, fraction: 0x8000_0000 });
}

#[test]
fn fraction_rounds_down() {
    let t = UnixTime::from(NTPTimestamp { seconds: 0, fraction: 5 });
    assert_eq!(t.nanos, 1);
    assert_eq!(t.secs, -2_208_988_800);
    let f = NTPTimestamp::from(UnixTime { secs: 0, nanos: 1 });
    assert_eq!(f.fraction, 4);
    let cap = NTPTimestamp::from(UnixTime { secs: 0, nanos: 1_999_999_999 });
    assert_eq!(cap.fraction, u32::MAX);
}

#[test]
fn offset_and_delay() {
    let at = |s: i64| UnixTime { secs: s, nanos: 0 };
    let r = NTPResult { t1: at(100), t2: at(110), t3: at(111), t4: at(103) };
    assert_eq!(r.offset(), 1);
    assert_eq!(r.delay(), 4);
    let r2 = NTPResult { t1: at(100), t2: at(99), t3: at(99), t4: at(98) };
    assert_eq!(r2.offset(), -1);
    let r3 = NTPResult { t1: at(100), t2: at(100), t3: at(100), t4: at(99) };
    assert_eq!(r3.offset(), 0);
}

#[test]
fn result_from_reply() {
    let mut m = NTPMessage::new();
    m.data[32..36].copy_from_slice(&(2_208_988_800u32 + 50).to_be_bytes());
    m.data[40..44].copy_from_slice(&(2_208_988_800u32 + 51).to_be_bytes());
    let t1 = UnixTime { secs: 40, nanos: 0 };
    let t4 = UnixTime { secs: 42, nanos: 0 };
    let r = ntp_result(t1, &m, t4);
    assert_eq!(r.t2.secs, 50);
    assert_eq!(r.t3.secs, 51);
    assert_eq!(r.offset(), 0);
    assert_eq!(r.delay(), 3);
}

#[test]
fn adjustment_is_capped() {
    assert_eq!(clock_adjustment_ms(-1000), 40);
    assert_eq!(clock_adjustment_ms(12), 2);
    assert_eq!(clock_adjustment_ms(0), 0);
    assert_eq!(clock_adjustment_ms(199), 39);
}

#[test]
fn seconds_wrap_like_a_cast() {
    let far = NTPTimestamp::from(UnixTime { secs: i64::MAX, nanos: 0 });
    assert_eq!(far.seconds, (i64::MAX as i128 + 2_208_988_800) as u32);
    let before_1900 = NTPTimestamp::from(UnixTime { secs: -2_208_988_801, nanos: 0 });
    assert_eq!(before_1900.seconds, u32::MAX);
}

#[test]
fn nanos_round_trip_within_one() {
    for n in [0u32, 1, 999_999_999, 123_456_789, 500_000_000] {
        let back = UnixTime::from(NTPTimestamp::from(UnixTime { secs: 5, nanos: n }));
        assert_eq!(back.secs, 5);
        assert!(back.nanos == n || back.nanos + 1 == n);
    }
}
