use traffic_light::command::{Channel, Command, DesiredState};
use traffic_light::parse::parse_request;

fn parse(line: &str) -> Option<Command> {
    parse_request(line.as_bytes())
}

#[test]
fn parse_red_on() {
    let r = parse("GET /set/red/on HTTP/1.1\r\nHost: somewhere\r\n\r\n");
    assert_eq!(r, Some(Command { channel: Channel::Red, state: DesiredState::On }));
}

#[test]
fn parse_red_off() {
    let r = parse("GET /set/red/off HTTP/1.1\r\n\r\n");
    assert_eq!(r, Some(Command { channel: Channel::Red, state: DesiredState::Off }));
}

#[test]
fn parse_is_case_insensitive() {
    let r = parse("GET /set/YELLOW/Off HTTP/1.1\r\n\r\n");
    assert_eq!(r, Some(Command { channel: Channel::Yellow, state: DesiredState::Off }));
}

#[test]
fn parse_green_blinking() {
    let r = parse("GET /set/green/blinking/200/100 HTTP/1.1\r\n\r\n");
    assert_eq!(
        r,
        Some(Command {
            channel: Channel::Green,
            state: DesiredState::Blinking { off_ms: 200, on_ms: 100 },
        })
    );
}

#[test]
fn parse_accepts_plus_prefixed_durations() {
    let r = parse("GET /set/green/blinking/+50/+70 HTTP/1.1\r\n\r\n");
    assert_eq!(
        r,
        Some(Command {
            channel: Channel::Green,
            state: DesiredState::Blinking { off_ms: 50, on_ms: 70 },
        })
    );
}

#[test]
fn parse_ignores_extra_segments() {
    let r = parse("GET /set/red/on/ignored/tail HTTP/1.1\r\n\r\n");
    assert_eq!(r, Some(Command { channel: Channel::Red, state: DesiredState::On }));
}

#[test]
fn parse_rejects_unknown_channel() {
    assert_eq!(parse("GET /set/blue/on HTTP/1.1\r\n\r\n"), None);
}

#[test]
fn parse_rejects_unknown_state() {
    assert_eq!(parse("GET /set/red/dimmed HTTP/1.1\r\n\r\n"), None);
}

#[test]
fn parse_rejects_missing_state() {
    assert_eq!(parse("GET /set/red HTTP/1.1\r\n\r\n"), None);
}

#[test]
fn parse_rejects_missing_marker() {
    assert_eq!(parse("GET /other/red/on HTTP/1.1\r\n\r\n"), None);
}

#[test]
fn parse_rejects_missing_line_end() {
    assert_eq!(parse("GET /set/red/on"), None);
}

#[test]
fn parse_rejects_missing_blink_duration() {
    assert_eq!(parse("GET /set/red/blinking/50 HTTP/1.1\r\n\r\n"), None);
}

#[test]
fn parse_rejects_zero_duration() {
    assert_eq!(parse("GET /set/red/blinking/0/50 HTTP/1.1\r\n\r\n"), None);
    assert_eq!(parse("GET /set/red/blinking/50/0 HTTP/1.1\r\n\r\n"), None);
}

#[test]
fn parse_rejects_non_numeric_duration() {
    assert_eq!(parse("GET /set/red/blinking/5x/50 HTTP/1.1\r\n\r\n"), None);
    assert_eq!(parse("GET /set/red/blinking//50 HTTP/1.1\r\n\r\n"), None);
    assert_eq!(parse("GET /set/red/blinking/+/50 HTTP/1.1\r\n\r\n"), None);
}

#[test]
fn parse_rejects_oversized_duration() {
    assert_eq!(parse("GET /set/red/blinking/18446744073709551616/1 HTTP/1.1\r\n\r\n"), None);
}

#[test]
fn parse_accepts_largest_duration() {
    let r = parse("GET /set/red/blinking/18446744073709551615/1 HTTP/1.1\r\n\r\n");
    assert_eq!(
        r,
        Some(Command {
            channel: Channel::Red,
            state: DesiredState::Blinking { off_ms: u64::MAX, on_ms: 1 },
        })
    );
}

#[test]
fn parse_rejects_empty_input() {
    assert_eq!(parse(""), None);
}
