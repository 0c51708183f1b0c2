use pesn::{resolve_configuration, Error, Monitor, Phase};

const URL: &str = "https://hooks.slack.com/services/T000/B000/XXXX";
// 2023-01-01T00:00:00Z
const T0: i64 = 1672531200;
// 2023-01-02T01:02:03Z
const T1: i64 = 1672621323;

#[test]
fn absent_process_aborts_before_any_notification() {
    let config = resolve_configuration("7", URL, None).unwrap();
    let mut m = Monitor::new(config);
    let r = m.verify(None);
    assert_eq!(r, Err(Error::ProcessNotFound));
    assert_eq!(m.failure, Some(Error::ProcessNotFound));
}

#[test]
fn complete_run_posts_start_then_end() {
    let config = resolve_configuration("1", URL, None).unwrap();
    let mut m = Monitor::new(config);
    assert_eq!(m.verify(Some("sleep 5".to_string())), Ok(()));

    let start_body = m.notify_start(T0);
    assert_eq!(
        start_body,
        "{\"text\":\"Start (Monitoring) Process\\n- Pid: `1`\\n- Cmd: `sleep 5`\\n- Start: `2023/01/01 00:00:00 UTC`\"}"
    );
    assert_eq!(m.report_send(true), Ok(()));

    m.poll(true);
    m.poll(true);
    m.poll(false);

    let end_body = m.notify_end(T1);
    assert_eq!(
        end_body,
        "{\"text\":\"End (Monitoring) Process\\n- Pid: `1`\\n- Cmd: `sleep 5`\\n- Start: `2023/01/01 00:00:00 UTC`\\n- End: `2023/01/02 01:02:03 UTC`\\n- Duration: `1d 1h 2m 3s`\"}"
    );
    assert_eq!(m.report_send(true), Ok(()));
}

#[test]
fn failed_start_send_aborts_the_run() {
    let config = resolve_configuration("1", URL, None).unwrap();
    let mut m = Monitor::new(config);
    m.verify(Some("cmd".to_string())).unwrap();
    let _ = m.notify_start(T0);
    assert_eq!(m.report_send(false), Err(Error::Network));
    assert_eq!(m.failure, Some(Error::Network));
}

#[test]
fn failed_end_send_aborts_the_run() {
    let config = resolve_configuration("1", URL, None).unwrap();
    let mut m = Monitor::new(config);
    m.verify(Some("cmd".to_string())).unwrap();
    let _ = m.notify_start(T0);
    m.report_send(true).unwrap();
    m.poll(false);
    let _ = m.notify_end(T1);
    assert_eq!(m.report_send(false), Err(Error::Network));
}

#[test]
fn phases_walk_the_documented_lifecycle() {
    let config = resolve_configuration("1", URL, None).unwrap();
    let mut m = Monitor::new(config);
    assert_eq!(m.phase, Phase::Verifying);
    m.verify(Some("cmd".to_string())).unwrap();
    assert_eq!(m.phase, Phase::NotifyingStart);
    let _ = m.notify_start(T0);
    assert_eq!(m.phase, Phase::AwaitingStartSend);
    m.report_send(true).unwrap();
    assert_eq!(m.phase, Phase::Polling);
    m.poll(false);
    assert_eq!(m.phase, Phase::NotifyingEnd);
    let _ = m.notify_end(T1);
    assert_eq!(m.phase, Phase::AwaitingEndSend);
    m.report_send(true).unwrap();
    assert_eq!(m.phase, Phase::Done);
}
