use mailcode::receiver::{EmailReceiver, EmailStatus};

fn qualifying_message() -> Vec<u8> {
    let raw: &str = "From: AWS <no-reply@login.awsapps.com>\r\n\
        To: user@example.com\r\n\
        Subject: Your verification code\r\n\
        Date: Thu, 1 Jan 2026 00:00:00 +0000\r\n\
        Content-Type: text/plain\r\n\
        \r\n\
        Hello,\r\n...<div class=3D\"code\">148885</div>...\r\n";
    raw.as_bytes().to_vec()
}

fn unrelated_sender_message() -> Vec<u8> {
    let raw: &str = "From: Someone <newsletter@example.com>\r\n\
        To: user@example.com\r\n\
        Subject: Weekly digest\r\n\
        Content-Type: text/plain\r\n\
        \r\n\
        Your lucky number today is 148885.\r\n";
    raw.as_bytes().to_vec()
}

#[test]
fn start_with_port_110_fails_with_fixed_message() {
    let r = EmailReceiver::new();
    let res = EmailReceiver::validate_port(110);
    assert_eq!(
        res.unwrap_err(),
        "Port 110 (plain POP3) is not supported. Please use port 995 (POP3 over SSL/TLS)"
    );
    // no loop was spawned; the receiver is still idle
    assert_eq!(r.get_status().status, EmailStatus::Idle);
    assert!(!r.is_running);
}

#[test]
fn port_995_is_accepted() {
    assert!(EmailReceiver::validate_port(995).is_ok());
}

#[test]
fn one_qualifying_message_yields_one_code() {
    let mut r = EmailReceiver::new();
    r.mark_starting(1000);
    r.mark_connected();
    assert!(r.begin_iteration());
    r.check_emails(&vec![qualifying_message()], 1000);
    r.end_iteration_success(2000);

    let codes = r.get_codes();
    assert_eq!(codes.len(), 1);
    assert_eq!(codes[0].code, "148885");
    assert_eq!(codes[0].from, "no-reply@login.awsapps.com");
    assert_eq!(codes[0].subject, "Your verification code");
    let expected_ts = chrono::DateTime::parse_from_rfc2822("Thu, 1 Jan 2026 00:00:00 +0000")
        .unwrap()
        .timestamp_millis();
    assert_eq!(codes[0].timestamp, expected_ts);

    let st = r.get_status();
    assert_eq!(st.codes_count, 1);
    assert_eq!(st.status, EmailStatus::Receiving);
    assert_eq!(st.error_message, None);
    assert_eq!(st.last_check_time, Some(2000));
}

#[test]
fn message_without_date_gets_receipt_time() {
    let raw: &str = "From: AWS <no-reply@login.awsapps.com>\r\n\
        Subject: code\r\n\
        Content-Type: text/plain\r\n\
        \r\n\
        <div class=3D\"code\">4711</div>\r\n";
    let mut r = EmailReceiver::new();
    r.mark_starting(1000);
    r.mark_connected();
    assert!(r.begin_iteration());
    r.check_emails(&vec![raw.as_bytes().to_vec()], 777_000);
    let codes = r.get_codes();
    assert_eq!(codes.len(), 1);
    assert_eq!(codes[0].code, "4711");
    assert_eq!(codes[0].timestamp, 777_000);
}

#[test]
fn unrelated_sender_changes_nothing() {
    let mut r = EmailReceiver::new();
    r.mark_starting(1000);
    r.mark_connected();
    assert!(r.begin_iteration());
    r.check_emails(&vec![unrelated_sender_message()], 1000);
    r.end_iteration_success(2000);

    assert_eq!(r.get_codes().len(), 0);
    let st = r.get_status();
    assert_eq!(st.status, EmailStatus::Receiving);
    assert_eq!(st.error_message, None);
    assert_eq!(st.codes_count, 0);
}

#[test]
fn same_code_across_iterations_is_kept_once() {
    let mut r = EmailReceiver::new();
    r.mark_starting(1000);
    r.mark_connected();
    assert!(r.begin_iteration());
    r.check_emails(&vec![qualifying_message()], 1000);
    r.end_iteration_success(2000);
    assert!(r.begin_iteration());
    r.check_emails(&vec![qualifying_message()], 3000);
    r.end_iteration_success(4000);
    assert_eq!(r.get_codes().len(), 1);
}

#[test]
fn stop_sets_stopped_and_clears_error_whatever_came_before() {
    // from a fresh receiver
    let mut r = EmailReceiver::new();
    r.stop_receiving();
    let st = r.get_status();
    assert_eq!(st.status, EmailStatus::Stopped);
    assert_eq!(st.error_message, None);
    assert!(st.last_check_time.is_some());
    assert!(!r.is_running);

    // from a running receiver that has just recorded a failure
    let mut r2 = EmailReceiver::new();
    r2.mark_starting(1000);
    r2.mark_connected();
    assert!(r2.begin_iteration());
    assert!(r2.end_iteration_failure("connection reset".to_string()));
    assert_eq!(
        r2.get_status().error_message,
        Some("connection reset".to_string())
    );
    r2.stop_receiving();
    let st2 = r2.get_status();
    assert_eq!(st2.status, EmailStatus::Stopped);
    assert_eq!(st2.error_message, None);
    assert!(!r2.is_running);

    // stopping is idempotent
    r2.stop_receiving();
    assert_eq!(r2.get_status().status, EmailStatus::Stopped);
}

#[test]
fn stop_flag_ends_the_loop_at_the_next_iteration() {
    let mut r = EmailReceiver::new();
    r.mark_starting(1000);
    r.mark_connected();
    assert!(r.begin_iteration());
    r.stop_receiving();
    assert!(!r.begin_iteration());
}

#[test]
fn three_consecutive_failures_escalate_to_error() {
    let mut r = EmailReceiver::new();
    r.mark_starting(1000);
    r.mark_connected();

    assert!(r.begin_iteration());
    assert!(r.end_iteration_failure("fail one".to_string()));
    assert_eq!(r.get_status().status, EmailStatus::Receiving);

    assert!(r.begin_iteration());
    assert!(r.end_iteration_failure("fail two".to_string()));
    assert_eq!(r.get_status().status, EmailStatus::Receiving);

    assert!(r.begin_iteration());
    // the third consecutive failure is terminal: the loop must not go on
    assert!(!r.end_iteration_failure("fail three".to_string()));
    let st = r.get_status();
    assert_eq!(st.status, EmailStatus::Error);
    assert_eq!(st.error_message, Some("fail three".to_string()));
}

#[test]
fn success_resets_the_failure_counter() {
    let mut r = EmailReceiver::new();
    r.mark_starting(1000);
    r.mark_connected();
    assert!(r.begin_iteration());
    assert!(r.end_iteration_failure("fail one".to_string()));
    assert!(r.begin_iteration());
    assert!(r.end_iteration_failure("fail two".to_string()));
    assert!(r.begin_iteration());
    r.check_emails(&vec![], 5000);
    r.end_iteration_success(5000);
    assert_eq!(r.consecutive_errors, 0);
    // two more failures no longer reach the threshold
    assert!(r.begin_iteration());
    assert!(r.end_iteration_failure("fail".to_string()));
    assert!(r.begin_iteration());
    assert!(r.end_iteration_failure("fail".to_string()));
    assert_eq!(r.get_status().status, EmailStatus::Receiving);
}

#[test]
fn garbage_bytes_yield_no_code_and_no_error() {
    let mut r = EmailReceiver::new();
    r.mark_starting(1000);
    r.mark_connected();
    assert!(r.begin_iteration());
    r.check_emails(&vec![vec![0xff, 0xfe, 0x00, 0x12]], 1000);
    r.end_iteration_success(2000);
    assert_eq!(r.get_codes().len(), 0);
    assert_eq!(r.get_status().error_message, None);
}

#[test]
fn messages_processed_in_listing_order() {
    let one: &str = "From: a <no-reply@login.awsapps.com>\r\n\
        Subject: one\r\nContent-Type: text/plain\r\n\r\n\
        <div class=3D\"code\">111111</div>\r\n";
    let two: &str = "From: a <no-reply@login.awsapps.com>\r\n\
        Subject: two\r\nContent-Type: text/plain\r\n\r\n\
        <div class=3D\"code\">222222</div>\r\n";
    let mut r = EmailReceiver::new();
    r.mark_starting(1000);
    r.mark_connected();
    assert!(r.begin_iteration());
    r.check_emails(
        &vec![one.as_bytes().to_vec(), two.as_bytes().to_vec()],
        1000,
    );
    let codes = r.get_codes();
    assert_eq!(codes.len(), 2);
    assert_eq!(codes[0].code, "222222");
    assert_eq!(codes[1].code, "111111");
}
