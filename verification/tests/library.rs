use shell_protector_osc::icon::get_icon;
use shell_protector_osc::options::Options;
use shell_protector_osc::osc::{
    get_osc_address_name, get_osc_message, get_parameter_name, key_messages, scaled_level_of,
    send_round, SendRound,
};
use shell_protector_osc::task::{handle_ui_event, Effect};
use shell_protector_osc::text::{decimal_string, parse_unsigned_at_most, text_equals, trimmed};
use shell_protector_osc::tray::{menu_event, tray_icon_event, TrayClick, TrayEvent};
use shell_protector_osc::ui::{
    apply_settings_form, options_changed_event, settings_form, toggle_started, SettingsForm,
    UIEvent, PASSWORD_LENGTHS,
};
use shell_protector_osc::window::is_app_window;

fn sample_options() -> Options {
    Options {
        refresh_rate: 250,
        password: "abc".to_string(),
        password_length: 4,
        port: 9001,
        start_tray: true,
    }
}

#[test]
fn parameter_names() {
    assert_eq!(get_parameter_name(0), "SHELL_PROTECTOR_saved_key0");
    assert_eq!(get_parameter_name(7), "SHELL_PROTECTOR_saved_key7");
    assert_eq!(get_parameter_name(15), "SHELL_PROTECTOR_saved_key15");
    assert_eq!(get_parameter_name(1234567), "SHELL_PROTECTOR_saved_key1234567");
}

#[test]
fn address_names() {
    assert_eq!(get_osc_address_name(0), "/avatar/parameters/SHELL_PROTECTOR_saved_key0");
    assert_eq!(get_osc_address_name(31), "/avatar/parameters/SHELL_PROTECTOR_saved_key31");
}

#[test]
fn decimal_strings() {
    assert_eq!(decimal_string(0), "0");
    assert_eq!(decimal_string(9), "9");
    assert_eq!(decimal_string(10), "10");
    assert_eq!(decimal_string(65535), "65535");
    assert_eq!(decimal_string(u64::MAX), u64::MAX.to_string());
}

#[test]
fn parse_accepts_what_std_accepts() {
    assert_eq!(parse_unsigned_at_most("9000", 65535), Some(9000));
    assert_eq!(parse_unsigned_at_most("+5", 65535), Some(5));
    assert_eq!(parse_unsigned_at_most("065535", 65535), Some(65535));
    assert_eq!(parse_unsigned_at_most("18446744073709551615", u64::MAX), Some(u64::MAX));
}

#[test]
fn parse_rejects_what_std_rejects() {
    assert_eq!(parse_unsigned_at_most("", 65535), None);
    assert_eq!(parse_unsigned_at_most("+", 65535), None);
    assert_eq!(parse_unsigned_at_most("-1", 65535), None);
    assert_eq!(parse_unsigned_at_most("65536", 65535), None);
    assert_eq!(parse_unsigned_at_most(" 5", 65535), None);
    assert_eq!(parse_unsigned_at_most("5x", 65535), None);
    assert_eq!(parse_unsigned_at_most("18446744073709551616", u64::MAX), None);
    assert_eq!(parse_unsigned_at_most("99999999999999999999x", u64::MAX), None);
}

#[test]
fn parse_agrees_with_std_on_samples() {
    for text in ["0", "1", "+0", "00012", "65535", "65536", "", "+", "++1", "1+", "٣", "12a", "-0"] {
        assert_eq!(
            parse_unsigned_at_most(text, 65535),
            text.parse::<u16>().ok().map(|v| v as u64),
            "text {:?}",
            text
        );
    }
}

#[test]
fn formatted_numbers_parse_back() {
    for n in [0u64, 1, 9, 10, 99, 100, 12345, 65535] {
        assert_eq!(parse_unsigned_at_most(&decimal_string(n), 65535), Some(n));
    }
    assert_eq!(parse_unsigned_at_most(&decimal_string(u64::MAX), u64::MAX), Some(u64::MAX));
}

#[test]
fn trimming() {
    assert_eq!(trimmed("  ShellProtectorOSC \t\n"), "ShellProtectorOSC");
    assert_eq!(trimmed("\u{3000}a b\u{a0}"), "a b");
    assert_eq!(trimmed("   "), "");
    assert_eq!(trimmed(""), "");
    assert_eq!(trimmed("x"), "x");
}

#[test]
fn text_comparison() {
    assert!(text_equals("quit", "quit"));
    assert!(!text_equals("quit", "quiet"));
    assert!(!text_equals("", "a"));
    assert!(text_equals("", ""));
}

#[test]
fn levels_of_bytes() {
    assert_eq!(scaled_level_of(0), 10000);
    assert_eq!(scaled_level_of(1), 9922);
    assert_eq!(scaled_level_of(64), 5000);
    assert_eq!(scaled_level_of(127), 78);
    assert_eq!(scaled_level_of(128), 0);
    assert_eq!(scaled_level_of(129), -78);
    assert_eq!(scaled_level_of(192), -5000);
    assert_eq!(scaled_level_of(255), -9922);
}

#[test]
fn levels_are_distinct() {
    let mut levels: Vec<i32> = (0..=255u8).map(scaled_level_of).collect();
    levels.sort();
    levels.dedup();
    assert_eq!(levels.len(), 256);
}

#[test]
fn message_masks_key_byte() {
    let hash = [0x0fu8, 0xf0, 0x00, 0xff];
    let message = get_osc_message(0, b"a", &hash);
    assert_eq!(message.address, "/avatar/parameters/SHELL_PROTECTOR_saved_key0");
    assert_eq!(message.scaled_level, scaled_level_of(b'a' ^ 0x0f));
    let past_end = get_osc_message(3, b"a", &hash);
    assert_eq!(past_end.scaled_level, scaled_level_of(0xff));
    assert_eq!(past_end.scaled_level, -9922);
}

#[test]
fn messages_for_each_slot() {
    let hash = [1u8, 2, 3];
    let messages = key_messages(b"xy", &hash, 3);
    assert_eq!(messages.len(), 3);
    assert_eq!(messages[1].address, "/avatar/parameters/SHELL_PROTECTOR_saved_key1");
    assert_eq!(messages[1].scaled_level, scaled_level_of(b'y' ^ 2));
    assert_eq!(messages[2].scaled_level, scaled_level_of(3));
    assert!(key_messages(b"xy", &hash, 0).is_empty());
}

#[test]
fn send_round_uses_digest_of_empty_key() {
    let mut options = Options::default();
    options.password_length = 4;
    match send_round(true, &options) {
        SendRound::Send { messages, hash_exhausted } => {
            assert!(!hash_exhausted);
            let levels: Vec<i32> = messages.iter().map(|m| m.scaled_level).collect();
            assert_eq!(levels, vec![-7734, -3750, -5313, 4844]);
        }
        SendRound::Stop => panic!("socket is open"),
    }
}

#[test]
fn send_round_uses_digest_of_key() {
    let options = sample_options();
    match send_round(true, &options) {
        SendRound::Send { messages, hash_exhausted } => {
            assert!(!hash_exhausted);
            let levels: Vec<i32> = messages.iter().map(|m| m.scaled_level).collect();
            assert_eq!(levels, vec![-7109, 7969, 859, -4922]);
            assert_eq!(messages[3].address, "/avatar/parameters/SHELL_PROTECTOR_saved_key3");
        }
        SendRound::Stop => panic!("socket is open"),
    }
}

#[test]
fn send_round_stops_without_socket() {
    assert!(matches!(send_round(false, &sample_options()), SendRound::Stop));
}

#[test]
fn send_round_with_too_many_slots() {
    let mut options = sample_options();
    options.password_length = 40;
    match send_round(true, &options) {
        SendRound::Send { messages, hash_exhausted } => {
            assert!(hash_exhausted);
            assert_eq!(messages.len(), 32);
        }
        SendRound::Stop => panic!("socket is open"),
    }
    options.password_length = 32;
    match send_round(true, &options) {
        SendRound::Send { messages, hash_exhausted } => {
            assert!(!hash_exhausted);
            assert_eq!(messages.len(), 32);
        }
        SendRound::Stop => panic!("socket is open"),
    }
}

#[test]
fn default_options() {
    let options = Options::default();
    assert_eq!(options.refresh_rate, 1000);
    assert_eq!(options.password, "");
    assert_eq!(options.password_length, 12);
    assert_eq!(options.port, 9000);
    assert!(!options.start_tray);
}

#[test]
fn startup_keeps_loaded_options() {
    let startup = Options::load_or_default(Some(sample_options()));
    assert!(!startup.save);
    assert!(startup.options.same_as(&sample_options()));
}

#[test]
fn startup_falls_back_to_defaults() {
    let startup = Options::load_or_default(None);
    assert!(startup.save);
    assert!(startup.options.same_as(&Options::default()));
}

#[test]
fn options_comparison() {
    let a = sample_options();
    let mut b = sample_options();
    assert!(a.same_as(&b));
    b.password.push('d');
    assert!(!a.same_as(&b));
}

#[test]
fn untouched_form_changes_nothing() {
    let options = sample_options();
    let form = settings_form(&options);
    assert_eq!(form.port_text, "9001");
    assert_eq!(form.refresh_rate_text, "250");
    let edited = apply_settings_form(&options, &form);
    assert!(edited.same_as(&options));
    assert!(options_changed_event(&options, edited).is_none());
}

#[test]
fn edited_form_changes_settings() {
    let options = sample_options();
    let form = SettingsForm {
        password: "secret".to_string(),
        password_length: 16,
        port_text: "9002".to_string(),
        refresh_rate_text: "not a number".to_string(),
    };
    let edited = apply_settings_form(&options, &form);
    assert_eq!(edited.password, "secret");
    assert_eq!(edited.password_length, 16);
    assert_eq!(edited.port, 9002);
    assert_eq!(edited.refresh_rate, 250);
    assert!(edited.start_tray);
    match options_changed_event(&options, edited) {
        Some(UIEvent::OptionsChanged(o)) => assert_eq!(o.port, 9002),
        other => panic!("unexpected {:?}", other),
    }
}

#[test]
fn port_out_of_range_is_ignored() {
    let options = sample_options();
    let mut form = settings_form(&options);
    form.port_text = "70000".to_string();
    assert_eq!(apply_settings_form(&options, &form).port, 9001);
}

#[test]
fn length_choices() {
    assert_eq!(PASSWORD_LENGTHS, [4, 8, 12, 16]);
}

#[test]
fn start_stop_button() {
    let (started, event) = toggle_started(false);
    assert!(started);
    assert!(matches!(event, UIEvent::Start));
    let (started, event) = toggle_started(true);
    assert!(!started);
    assert!(matches!(event, UIEvent::Stop));
}

#[test]
fn event_effects() {
    let options = sample_options();
    match handle_ui_event(UIEvent::Start, &options) {
        Effect::OpenSocket { bind_address, target } => {
            assert_eq!(bind_address, "0.0.0.0:0");
            assert_eq!(target, "127.0.0.1:9001");
        }
        _ => panic!("start opens a socket"),
    }
    assert!(matches!(handle_ui_event(UIEvent::Stop, &options), Effect::CloseSocket));
    assert!(matches!(handle_ui_event(UIEvent::Hide, &options), Effect::SetVisible(false)));
    assert!(matches!(handle_ui_event(UIEvent::Show, &options), Effect::SetVisible(true)));
    assert!(matches!(handle_ui_event(UIEvent::Quit, &options), Effect::Exit));
    match handle_ui_event(UIEvent::OptionsChanged(Options::default()), &options) {
        Effect::SaveOptions(o) => assert!(o.same_as(&Options::default())),
        _ => panic!("changed options are saved"),
    }
}

#[test]
fn tray_events() {
    assert!(matches!(menu_event("open"), Some(TrayEvent::ShowWindow)));
    assert!(matches!(menu_event("quit"), Some(TrayEvent::Quit)));
    assert!(menu_event("other").is_none());
    assert!(matches!(tray_icon_event(TrayClick::DoubleClick), Some(TrayEvent::ShowWindow)));
    assert!(tray_icon_event(TrayClick::Other).is_none());
}

#[test]
fn app_window_lookup() {
    assert!(is_app_window(42, 42, "ShellProtectorOSC"));
    assert!(is_app_window(42, 42, " ShellProtectorOSC\r\n"));
    assert!(!is_app_window(41, 42, "ShellProtectorOSC"));
    assert!(!is_app_window(42, 42, "ShellProtectorOSC2"));
}

#[test]
fn icon_header() {
    let buffer = [2u8, 0, 0, 0, 1, 1, 0, 0, 9, 8, 7];
    let (width, height, pixels) = get_icon(&buffer);
    assert_eq!(width, 2);
    assert_eq!(height, 257);
    assert_eq!(pixels, vec![9, 8, 7]);
    let (w, h, p) = get_icon(&[0xff, 0xff, 0xff, 0xff, 0, 0, 0, 1]);
    assert_eq!(w, u32::MAX);
    assert_eq!(h, 1 << 24);
    assert!(p.is_empty());
}
