use pesn::{create_message, format_duration, format_timestamp, WebhookPayload};

// 2023-01-01T00:00:00Z
const T0: i64 = 1672531200;
// 2023-01-02T01:02:03Z
const T1: i64 = 1672621323;

#[test]
fn timestamp_renders_in_utc() {
    assert_eq!(format_timestamp(T0), "2023/01/01 00:00:00 UTC");
    assert_eq!(format_timestamp(T1), "2023/01/02 01:02:03 UTC");
    assert_eq!(format_timestamp(0), "1970/01/01 00:00:00 UTC");
}

#[test]
fn timestamp_handles_leap_years() {
    // 2024-02-29T12:30:45Z
    assert_eq!(format_timestamp(1709209845), "2024/02/29 12:30:45 UTC");
    // 2000-02-29T00:00:00Z (a leap year despite the century rule)
    assert_eq!(format_timestamp(951782400), "2000/02/29 00:00:00 UTC");
}

#[test]
fn duration_breaks_into_units() {
    assert_eq!(format_duration(T1 - T0), "1d 1h 2m 3s");
    assert_eq!(format_duration(0), "0d 0h 0m 0s");
    assert_eq!(format_duration(59), "0d 0h 0m 59s");
}

#[test]
fn duration_wraps_at_day_boundaries() {
    // 25 hours: the hours wrap into a day instead of counting past 24.
    assert_eq!(format_duration(25 * 3600), "1d 1h 0m 0s");
}

#[test]
fn start_message_has_no_end_lines() {
    let msg = create_message(1234, "sleep 60", T0, None);
    assert_eq!(
        msg,
        "Start (Monitoring) Process\n- Pid: `1234`\n- Cmd: `sleep 60`\n- Start: `2023/01/01 00:00:00 UTC`"
    );
}

#[test]
fn end_message_carries_end_and_duration() {
    let msg = create_message(1234, "sleep 60", T0, Some(T1));
    assert_eq!(
        msg,
        "End (Monitoring) Process\n- Pid: `1234`\n- Cmd: `sleep 60`\n- Start: `2023/01/01 00:00:00 UTC`\n- End: `2023/01/02 01:02:03 UTC`\n- Duration: `1d 1h 2m 3s`"
    );
}

#[test]
fn message_renders_negative_pids() {
    let msg = create_message(-1, "cmd", 0, None);
    assert!(msg.contains("- Pid: `-1`"));
}

#[test]
fn message_formatting_is_deterministic() {
    let a = create_message(77, "python train.py --epochs 3", T0, Some(T1));
    let b = create_message(77, "python train.py --epochs 3", T0, Some(T1));
    assert_eq!(a, b);
}

#[test]
fn payload_wraps_text_field() {
    assert_eq!(
        WebhookPayload::create("hello").unwrap(),
        "{\"text\":\"hello\"}"
    );
}

#[test]
fn payload_escapes_quotes_backslashes_and_newlines() {
    assert_eq!(
        WebhookPayload::create("a\"b\\c\nd").unwrap(),
        "{\"text\":\"a\\\"b\\\\c\\nd\"}"
    );
}

#[test]
fn payload_escapes_control_characters() {
    assert_eq!(
        WebhookPayload::create("x\u{1}y\ty\r\u{c}\u{8}").unwrap(),
        "{\"text\":\"x\\u0001y\\ty\\r\\f\\b\"}"
    );
}

#[test]
fn payload_passes_unicode_through() {
    assert_eq!(
        WebhookPayload::create("héllo wörld ✓").unwrap(),
        "{\"text\":\"héllo wörld ✓\"}"
    );
}

#[test]
fn payload_of_empty_message_is_an_empty_text_field() {
    assert_eq!(WebhookPayload::create("").unwrap(), "{\"text\":\"\"}");
}
