//! What the settings window decides: the text its fields show, the settings
//! that its edited fields stand for, and the events it sends to the
//! background task.
use vstd::prelude::*;

use crate::options::{Options, OptionsView};
use crate::text::{decimal, decimal_string, lemma_parse_decimal, parse_unsigned, parse_unsigned_at_most};

verus! {

/// The key lengths offered in the length box.
pub const PASSWORD_LENGTHS: [usize; 4] = [4, 8, 12, 16];

/// What the window asks of the background task.
#[derive(Clone, Debug)]
pub enum UIEvent {
    /// Start sending.
    Start,
    /// Stop sending.
    Stop,
    /// The user changed the settings to these.
    OptionsChanged(Options),
    /// Hide the window.
    Hide,
    /// Show the window.
    Show,
    /// Quit the program.
    Quit,
}

/// The content of the settings fields: the key and its length as they are,
/// the port and the refresh rate as editable text.
pub struct SettingsForm {
    pub password: String,
    pub password_length: usize,
    pub port_text: String,
    pub refresh_rate_text: String,
}

/// The settings that the fields stand for: key and length as entered; the
/// port and the refresh rate as parsed from their text, each kept as it
/// was when its text does not parse; everything else unchanged.
pub open spec fn applied_settings(
    options: OptionsView,
    password: Seq<char>,
    password_length: usize,
    port_text: Seq<char>,
    refresh_rate_text: Seq<char>,
) -> OptionsView {
    OptionsView {
        refresh_rate: match parse_unsigned(refresh_rate_text, u64::MAX as nat) {
            Some(v) => v as u64,
            None => options.refresh_rate,
        },
        password: password,
        password_length: password_length,
        port: match parse_unsigned(port_text, u16::MAX as nat) {
            Some(v) => v as u16,
            None => options.port,
        },
        start_tray: options.start_tray,
    }
}

/// The fields as the window first shows them for `options`.
pub fn settings_form(options: &Options) -> (res: SettingsForm)
    ensures
        res.password@ == options.password@,
        res.password_length == options.password_length,
        res.port_text@ == decimal(options.port as nat),
        res.refresh_rate_text@ == decimal(options.refresh_rate as nat),
{
    SettingsForm {
        password: options.password.clone(),
        password_length: options.password_length,
        port_text: decimal_string(options.port as u64),
        refresh_rate_text: decimal_string(options.refresh_rate),
    }
}

/// The settings that the fields of `form` stand for, starting from `options`.
pub fn apply_settings_form(options: &Options, form: &SettingsForm) -> (res: Options)
    ensures
        res@ == applied_settings(
            options@,
            form.password@,
            form.password_length,
            form.port_text@,
            form.refresh_rate_text@,
        ),
        res.password@ == form.password@,
        res.password_length == form.password_length,
        res.start_tray == options.start_tray,
        parse_unsigned(form.port_text@, u16::MAX as nat) matches Some(v) ==> res.port == v,
        parse_unsigned(form.port_text@, u16::MAX as nat) is None ==> res.port == options.port,
        parse_unsigned(form.refresh_rate_text@, u64::MAX as nat) matches Some(v) ==> res.refresh_rate
            == v,
        parse_unsigned(form.refresh_rate_text@, u64::MAX as nat) is None ==> res.refresh_rate
            == options.refresh_rate,
{
    proof {
        lemma_applied_settings_fields(
            options@,
            form.password@,
            form.password_length,
            form.port_text@,
            form.refresh_rate_text@,
        );
    }
    let port = match parse_unsigned_at_most(form.port_text.as_str(), 65535) {
        Some(v) => v as u16,
        None => options.port,
    };
    let refresh_rate = match parse_unsigned_at_most(form.refresh_rate_text.as_str(), u64::MAX) {
        Some(v) => v,
        None => options.refresh_rate,
    };
    Options {
        refresh_rate,
        password: form.password.clone(),
        password_length: form.password_length,
        port,
        start_tray: options.start_tray,
    }
}

/// The event a frame sends for its edits: `OptionsChanged` with the edited
/// settings when they differ from the current ones, and nothing otherwise.
pub fn options_changed_event(current: &Options, edited: Options) -> (res: Option<UIEvent>)
    ensures
        current@ == edited@ ==> res is None,
        current@ != edited@ ==> (res matches Some(UIEvent::OptionsChanged(o)) && o@ == edited@),
{
    if current.same_as(&edited) {
        None
    } else {
        Some(UIEvent::OptionsChanged(edited))
    }
}

/// A click on the start/stop button: the new running state, and the event
/// that asks for it.
pub fn toggle_started(started: bool) -> (res: (bool, UIEvent))
    ensures
        res.0 == !started,
        !started ==> res.1 is Start,
        started ==> res.1 is Stop,
{
    if started {
        (false, UIEvent::Stop)
    } else {
        (true, UIEvent::Start)
    }
}

/// Applying the fields takes the key and the length exactly as chosen,
/// whatever the settings were before; the port and the refresh rate are the
/// values their texts parse to, or the old ones when a text does not parse;
/// the tray choice is never touched.
pub proof fn lemma_applied_settings_fields(
    options: OptionsView,
    password: Seq<char>,
    password_length: usize,
    port_text: Seq<char>,
    refresh_rate_text: Seq<char>,
)
    ensures
        ({
            let res = applied_settings(
                options,
                password,
                password_length,
                port_text,
                refresh_rate_text,
            );
            &&& res.password == password
            &&& res.password_length == password_length
            &&& res.start_tray == options.start_tray
            &&& parse_unsigned(port_text, u16::MAX as nat) matches Some(v) ==> res.port == v
            &&& parse_unsigned(port_text, u16::MAX as nat) is None ==> res.port == options.port
            &&& parse_unsigned(refresh_rate_text, u64::MAX as nat) matches Some(v)
                ==> res.refresh_rate == v
            &&& parse_unsigned(refresh_rate_text, u64::MAX as nat) is None ==> res.refresh_rate
                == options.refresh_rate
        }),
{
}

/// A frame in which the user edits nothing changes nothing: the settings
/// that the untouched fields stand for are the settings they were filled
/// from, so no `OptionsChanged` is sent.
pub proof fn lemma_untouched_form_keeps_settings(options: OptionsView)
    ensures
        applied_settings(
            options,
            options.password,
            options.password_length,
            decimal(options.port as nat),
            decimal(options.refresh_rate as nat),
        ) == options,
{
    lemma_parse_decimal(options.port as nat, u16::MAX as nat);
    lemma_parse_decimal(options.refresh_rate as nat, u64::MAX as nat);
}

} // verus!
