use logibar::hid::error::HidError;
use logibar::hid::exchange::{
    send_recv, send_recv_with, Exchange, ExchangeAction, Expect, Verdict,
};
use logibar::hid::protocol::{get_battery_status, ping};
use logibar::hid::receiver::{
    connected_count, enable_notifications, poke_announce, request_connected_count,
};

const ANSWER: [u8; 7] = [0x11, 1, 6, 0x0A, 80, 0, 1];
const NOTIFICATION: [u8; 7] = [0x11, 1, 6, 0x00, 80, 0, 1];

fn write_all(exchange: &mut Exchange) {
    if let ExchangeAction::Write { .. } = exchange.action() {
        exchange.on_write(true);
    }
}

#[test]
fn a_request_goes_out_as_a_long_report() {
    let exchange = send_recv(get_battery_status(1, 6));
    assert_eq!(exchange.request[..7], [0x11, 1, 6, 0x0A, 0, 0, 0]);
    assert_eq!(exchange.request.len(), 20);
    assert_eq!(exchange.retries, 5);
    assert_eq!(exchange.timeout_ms, 500);
    assert_eq!(exchange.action(), ExchangeAction::Write { pause_ms: 0 });
}

#[test]
fn unrelated_reports_are_passed_over() {
    let mut exchange = send_recv(get_battery_status(1, 6));
    exchange.on_write(true);
    assert_eq!(exchange.action(), ExchangeAction::Read { timeout_ms: 500 });
    exchange.on_report(&NOTIFICATION);
    exchange.on_report(&[0x11, 1, 7, 0x0A, 0, 0, 0]);
    exchange.on_report(&[0x11, 1]);
    assert_eq!(exchange.action(), ExchangeAction::Read { timeout_ms: 500 });
    exchange.on_report(&ANSWER);
    assert_eq!(exchange.action(), ExchangeAction::Done(Ok(ANSWER)));
    exchange.on_report(&NOTIFICATION);
    exchange.on_write(false);
    exchange.on_read_failure();
    assert_eq!(exchange.action(), ExchangeAction::Done(Ok(ANSWER)));
}

#[test]
fn a_byte_in_front_of_the_answer_is_skipped() {
    let mut exchange = send_recv(get_battery_status(1, 6));
    exchange.on_write(true);
    exchange.on_report(&[0x00, 0x11, 1, 6, 0x0A, 80, 0, 1]);
    assert_eq!(exchange.action(), ExchangeAction::Done(Ok(ANSWER)));
}

#[test]
fn timeouts_use_up_the_attempts() {
    let mut exchange = send_recv_with(ping(2, 0x57), 300, 2);
    write_all(&mut exchange);
    exchange.on_report(&[]);
    assert_eq!(exchange.action(), ExchangeAction::Write { pause_ms: 100 });
    write_all(&mut exchange);
    exchange.on_report(&NOTIFICATION);
    exchange.on_report(&[]);
    assert_eq!(
        exchange.action(),
        ExchangeAction::Done(Err(HidError::NoResponse { retries: 2, feature: 0 }))
    );
}

#[test]
fn no_attempts_means_no_answer() {
    let exchange = send_recv_with(ping(2, 0x57), 300, 0);
    assert_eq!(
        exchange.action(),
        ExchangeAction::Done(Err(HidError::NoResponse { retries: 0, feature: 0 }))
    );
}

#[test]
fn an_error_report_ends_a_request() {
    let mut exchange = send_recv(get_battery_status(1, 6));
    exchange.on_write(true);
    exchange.on_report(&[0x10, 1, 0x8F, 6, 0x0A, 8, 0]);
    assert_eq!(
        exchange.action(),
        ExchangeAction::Done(Err(HidError::ErrorResponse { feature: 6 }))
    );
}

#[test]
fn a_busy_device_is_asked_again() {
    let mut exchange = send_recv(get_battery_status(1, 6));
    exchange.on_write(true);
    exchange.on_report(&[0x11, 0x01, 0xFF, 0x06, 0x0A, 0x08, 0]);
    assert_eq!(exchange.action(), ExchangeAction::Write { pause_ms: 100 });
    exchange.on_write(true);
    let answer = [0x11, 0x01, 0x06, 0x0A, 50, 0, 0];
    exchange.on_report(&answer);
    assert_eq!(exchange.action(), ExchangeAction::Done(Ok(answer)));
}

#[test]
fn a_device_that_stays_busy_is_given_up() {
    let mut exchange = send_recv(get_battery_status(1, 6));
    let mut writes = 0;
    while let ExchangeAction::Write { .. } = exchange.action() {
        writes += 1;
        exchange.on_write(true);
        exchange.on_report(&[0x11, 0x01, 0xFF, 0x06, 0x0A, 0x08, 0]);
    }
    assert_eq!(writes, 5);
    assert_eq!(
        exchange.action(),
        ExchangeAction::Done(Err(HidError::NoResponse { retries: 5, feature: 6 }))
    );
}

#[test]
fn other_errors_of_a_device_are_not_tried_again() {
    for report in [[0x11, 1, 0xFF, 6, 0x0A, 0x05, 0], [0x10, 1, 0x8F, 6, 0x0A, 0x08, 0]] {
        let mut exchange = send_recv(get_battery_status(1, 6));
        exchange.on_write(true);
        exchange.on_report(&report);
        assert_eq!(
            exchange.action(),
            ExchangeAction::Done(Err(HidError::ErrorResponse { feature: 6 }))
        );
    }
}

#[test]
fn failing_interfaces_end_a_request() {
    let mut exchange = send_recv(get_battery_status(1, 6));
    exchange.on_write(false);
    assert_eq!(exchange.action(), ExchangeAction::Done(Err(HidError::WriteFailed)));
    let mut exchange = send_recv(get_battery_status(1, 6));
    exchange.on_write(true);
    exchange.on_read_failure();
    assert_eq!(exchange.action(), ExchangeAction::Done(Err(HidError::ReadFailed)));
}

#[test]
fn registers_are_acknowledged_by_sub_id_and_register() {
    let mut exchange = request_connected_count();
    assert_eq!(exchange.request, vec![0x10, 0xFF, 0x81, 0x02, 0, 0, 0]);
    exchange.on_write(true);
    assert_eq!(exchange.action(), ExchangeAction::Read { timeout_ms: 600 });
    exchange.on_report(&[0x10, 1, 0x41, 0x11, 0x32, 0x99, 0x40]);
    exchange.on_report(&[0x10, 0xFF, 0x80, 0x02, 0, 0, 0]);
    exchange.on_report(&[0x10, 0xFF, 0x81, 0x00, 9, 9, 9]);
    assert_eq!(exchange.action(), ExchangeAction::Read { timeout_ms: 600 });
    let ack = [0x10, 0xFF, 0x81, 0x02, 0x00, 0x01, 0x00];
    exchange.on_report(&ack);
    assert_eq!(exchange.action(), ExchangeAction::Done(Ok(ack)));
    assert_eq!(connected_count(&ack), 1);
}

#[test]
fn register_requests_fail_with_their_own_errors() {
    let mut exchange = enable_notifications();
    assert_eq!(exchange.request, vec![0x10, 0xFF, 0x80, 0x00, 0x10, 0x09, 0x00]);
    exchange.on_write(true);
    exchange.on_report(&[0x10, 0xFF, 0x8F, 0x80, 0, 0, 0]);
    assert_eq!(
        exchange.action(),
        ExchangeAction::Done(Err(HidError::RegisterRejected { register: 0 }))
    );
    let mut exchange = request_connected_count();
    for _ in 0..3 {
        write_all(&mut exchange);
        exchange.on_report(&[]);
    }
    assert_eq!(
        exchange.action(),
        ExchangeAction::Done(Err(HidError::RegisterUnacknowledged { register: 2 }))
    );
    let mut exchange = request_connected_count();
    exchange.on_write(false);
    assert_eq!(
        exchange.action(),
        ExchangeAction::Done(Err(HidError::RegisterWriteFailed))
    );
    let mut exchange = request_connected_count();
    exchange.on_write(true);
    exchange.on_report(&[]);
    assert_eq!(exchange.action(), ExchangeAction::Write { pause_ms: 50 });
    exchange.on_write(true);
    exchange.on_read_failure();
    assert_eq!(
        exchange.action(),
        ExchangeAction::Done(Err(HidError::RegisterReadFailed))
    );
}

#[test]
fn announcements_are_asked_for_in_register_two() {
    assert_eq!(poke_announce(), [0x10, 0xFF, 0x80, 0x02, 0x02, 0x00, 0x00]);
}

#[test]
fn echoed_requests_answer_themselves() {
    let exchange = send_recv(ping(1, 0x54));
    let header = [0x11, 1, 0, 0x1A, 0, 0, 0x54];
    assert_eq!(exchange.expect.judge(&exchange.request), Verdict::Answer(header));
    let register = Expect::Register { register: 2, sub_id: 0x81 };
    assert_eq!(
        register.judge(&[0x10, 0xFF, 0x81, 0x02, 0, 0, 0]),
        Verdict::Answer([0x10, 0xFF, 0x81, 0x02, 0, 0, 0])
    );
    assert_eq!(register.judge(&[0x10]), Verdict::Unrelated);
}
