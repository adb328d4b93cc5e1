use hisiflash::monitor::{
    contains_reset_evidence, format_monitor_output, format_monitor_output_at, monitor_key_action, reset_pulse, split_utf8, KeyMods, MonitorAction,
    MonitorKey, PinStep, ResetCheck, ResetVerdict,
};

// ---- split_utf8 ----

#[test]
fn test_split_utf8_valid_ascii() {
    let (valid, remainder) = split_utf8(b"hello world");
    assert_eq!(valid, "hello world");
    assert!(remainder.is_empty());
}

#[test]
fn test_split_utf8_valid_multibyte() {
    let input = "你好世界".as_bytes();
    let (valid, remainder) = split_utf8(input);
    assert_eq!(valid, "你好世界");
    assert!(remainder.is_empty());
}

#[test]
fn test_split_utf8_partial_multibyte() {
    // '你' is 3 bytes: 0xE4, 0xBD, 0xA0
    let input = &[0xE4, 0xBD];
    let (valid, remainder) = split_utf8(input);
    assert_eq!(valid, "");
    assert_eq!(remainder, &[0xE4, 0xBD]);
}

#[test]
fn test_split_utf8_mixed_valid_and_partial() {
    let mut input = Vec::new();
    input.extend_from_slice(b"AB");
    input.push(0xE4);
    input.push(0xBD);
    let (valid, remainder) = split_utf8(&input);
    assert_eq!(valid, "AB");
    assert_eq!(remainder, &[0xE4, 0xBD]);
}

#[test]
fn test_split_utf8_empty() {
    let (valid, remainder) = split_utf8(b"");
    assert_eq!(valid, "");
    assert!(remainder.is_empty());
}

#[test]
fn test_split_utf8_single_invalid_byte() {
    let input = &[0xFF];
    let (valid, remainder) = split_utf8(input);
    assert_eq!(valid, "");
    assert_eq!(remainder, &[0xFF]);
}

// ---- format_monitor_output ----

#[test]
fn test_format_output_no_timestamp_plain() {
    let mut at_line_start = true;
    let result = format_monitor_output("hello", false, &mut at_line_start);
    assert_eq!(result, "hello");
}

#[test]
fn test_format_output_no_timestamp_newline_normalization() {
    let mut at_line_start = true;
    let result = format_monitor_output("line1\nline2", false, &mut at_line_start);
    assert_eq!(result, "line1\r\nline2");
}

#[test]
fn test_format_output_no_timestamp_crlf_normalization() {
    let mut at_line_start = true;
    let result = format_monitor_output("line1\r\nline2", false, &mut at_line_start);
    assert_eq!(result, "line1\r\nline2");
}

#[test]
fn test_format_output_no_timestamp_standalone_cr() {
    let mut at_line_start = true;
    let result = format_monitor_output("abc\rdef", false, &mut at_line_start);
    assert_eq!(result, "abc\r\ndef");
}

#[test]
fn test_format_output_with_timestamp_inserts_prefix() {
    let mut at_line_start = true;
    let result = format_monitor_output("hello", true, &mut at_line_start);
    assert!(result.contains("\x1b[90m["));
    assert!(result.contains("]\x1b[0m hello"));
    assert!(!at_line_start);
}

#[test]
fn test_format_output_with_timestamp_only_at_line_start() {
    let mut at_line_start = false;
    let result = format_monitor_output("continuation", true, &mut at_line_start);
    assert!(!result.contains("\x1b[90m"));
    assert_eq!(result, "continuation");
}

#[test]
fn test_format_output_with_timestamp_after_newline() {
    let mut at_line_start = true;
    let result = format_monitor_output("line1\nline2", true, &mut at_line_start);
    assert!(result.contains("line1\r\n"));
    let parts: Vec<&str> = result.split("\r\n").collect();
    assert_eq!(parts.len(), 2);
    assert!(parts[0].contains("line1"));
    assert!(parts[1].contains("line2"));
}

#[test]
fn test_format_output_empty_string() {
    let mut at_line_start = true;
    let result = format_monitor_output("", false, &mut at_line_start);
    assert_eq!(result, "");
}

#[test]
fn test_format_output_only_newlines() {
    let mut at_line_start = true;
    let result = format_monitor_output("\n\n", false, &mut at_line_start);
    assert_eq!(result, "\r\n\r\n");
}

#[test]
fn test_contains_reset_evidence_boot_pattern() {
    assert!(contains_reset_evidence("boot.\n"));
}

#[test]
fn test_contains_reset_evidence_flash_init_pattern() {
    assert!(contains_reset_evidence("Flash Init Fail! ret = 0x80001341"));
}

#[test]
fn test_contains_reset_evidence_verify_pattern() {
    assert!(contains_reset_evidence("verify_public_rootkey secure verify disable!"));
}

#[test]
fn test_contains_reset_evidence_negative_case() {
    assert!(!contains_reset_evidence("normal runtime log line"));
}

// ---- keys, reset pulse and reset check ----


fn sent(action: MonitorAction) -> Option<String> {
    match action {
        MonitorAction::Send(s) => Some(s),
        _ => None,
    }
}

#[test]
fn monitor_keys_control_actions() {
    assert!(matches!(monitor_key_action(MonitorKey::Char('c', KeyMods::Control)), MonitorAction::Exit));
    assert!(matches!(monitor_key_action(MonitorKey::Char('r', KeyMods::Control)), MonitorAction::Reset));
    assert!(matches!(monitor_key_action(MonitorKey::Char('t', KeyMods::Control)), MonitorAction::ToggleTimestamps));
    assert!(matches!(monitor_key_action(MonitorKey::Char('x', KeyMods::Control)), MonitorAction::Ignore));
    assert!(matches!(monitor_key_action(MonitorKey::Char('c', KeyMods::Other)), MonitorAction::Ignore));
    assert!(matches!(monitor_key_action(MonitorKey::Other), MonitorAction::Ignore));
}

#[test]
fn monitor_keys_send_text() {
    assert_eq!(sent(monitor_key_action(MonitorKey::Enter)).as_deref(), Some("\r\n"));
    assert_eq!(sent(monitor_key_action(MonitorKey::Char('a', KeyMods::Plain))).as_deref(), Some("a"));
    assert_eq!(sent(monitor_key_action(MonitorKey::Char('A', KeyMods::Shift))).as_deref(), Some("A"));
    assert_eq!(sent(monitor_key_action(MonitorKey::Char('中', KeyMods::Plain))).as_deref(), Some("中"));
    assert_eq!(sent(monitor_key_action(MonitorKey::Backspace)).map(|s| s.into_bytes()), Some(vec![0x08]));
    assert_eq!(sent(monitor_key_action(MonitorKey::Tab)).map(|s| s.into_bytes()), Some(vec![0x09]));
    assert_eq!(sent(monitor_key_action(MonitorKey::Esc)).map(|s| s.into_bytes()), Some(vec![0x1B]));
}

#[test]
fn monitor_reset_pulse_order() {
    assert_eq!(
        reset_pulse(),
        vec![
            PinStep::Dtr(false),
            PinStep::Rts(false),
            PinStep::WaitMs(100),
            PinStep::Dtr(true),
            PinStep::Rts(true),
            PinStep::WaitMs(100),
            PinStep::Dtr(false),
        ]
    );
}

#[test]
fn reset_check_sees_evidence() {
    let mut c = ResetCheck::new(1000, 900, 2);
    assert_eq!(c.poll(1050, 2, 900), ResetVerdict::Pending);
    assert_eq!(c.poll(1100, 3, 1090), ResetVerdict::Evidence);
}

#[test]
fn reset_check_weak_after_pause() {
    let mut c = ResetCheck::new(1000, 990, 0);
    // Data keeps flowing: no pause yet.
    assert_eq!(c.poll(1050, 0, 1040), ResetVerdict::Pending);
    assert!(!c.saw_silence_gap);
    assert_eq!(c.last_seen_rx_ms, 1040);
    // The device goes quiet for 120 ms.
    assert_eq!(c.poll(1200, 0, 1040), ResetVerdict::Pending);
    assert!(c.saw_silence_gap);
    // Then data arrives again.
    assert_eq!(c.poll(1250, 0, 1240), ResetVerdict::Weak);
}

#[test]
fn reset_check_times_out() {
    let mut c = ResetCheck::new(1000, 0, 0);
    assert_eq!(c.poll(2999, 0, 0), ResetVerdict::Pending);
    assert_eq!(c.poll(3000, 5, 2999), ResetVerdict::Unconfirmed);
    // A clock that went backwards counts as no time elapsed.
    let mut d = ResetCheck::new(1000, 0, 0);
    assert_eq!(d.poll(10, 0, 0), ResetVerdict::Pending);
}

#[test]
fn format_in_pieces_matches_format_at_once() {
    let text = "boot\r\nline two\nthree\rfour";
    for timestamps in [false, true] {
        let mut start = true;
        let whole = format_monitor_output_at(text, timestamps, &mut start, 3_723_004);
        for cut in 0..=text.len() {
            if !text.is_char_boundary(cut) || (text[..cut].ends_with('\r') && text[cut..].starts_with('\n')) {
                continue;
            }
            let mut at = true;
            let mut out = format_monitor_output_at(&text[..cut], timestamps, &mut at, 3_723_004);
            out.push_str(&format_monitor_output_at(&text[cut..], timestamps, &mut at, 3_723_004));
            assert_eq!(out, whole, "cut at {cut}");
            assert_eq!(at, start);
        }
    }
    // Split between "\r" and "\n": each piece shows its own line end.
    let mut at = true;
    let mut out = format_monitor_output_at("a\r", false, &mut at, 0);
    out.push_str(&format_monitor_output_at("\nb", false, &mut at, 0));
    assert_eq!(out, "a\r\n\r\nb");
}
