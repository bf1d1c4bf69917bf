//! The background task's answer to each event from the window: what it
//! does to the settings, the socket and the window.
use vstd::prelude::*;

use crate::options::Options;
use crate::text::{decimal, lemma_parse_decimal, parse_unsigned, push_decimal};
use crate::ui::UIEvent;

verus! {

/// The address the sending socket is bound to: any interface, any port.
pub open spec fn any_local_address() -> Seq<char> {
    "0.0.0.0:0"@
}

/// The address of the OSC receiver on this machine at `port`.
pub open spec fn receiver_address(port: nat) -> Seq<char> {
    "127.0.0.1:"@ + decimal(port)
}

/// The receiver address is the local host followed by text that parses
/// back to the port itself, for every port.
pub proof fn lemma_receiver_address_names_port(port: u16)
    ensures
        receiver_address(port as nat).take(10) == "127.0.0.1:"@,
        parse_unsigned(receiver_address(port as nat).skip(10), u16::MAX as nat) == Some(port as nat),
{
    reveal_strlit("127.0.0.1:");
    assert("127.0.0.1:"@.len() == 10);
    lemma_parse_decimal(port as nat, u16::MAX as nat);
    assert(receiver_address(port as nat).take(10) =~= "127.0.0.1:"@);
    assert(receiver_address(port as nat).skip(10) =~= decimal(port as nat));
}

/// What the background task does for one event.
pub enum Effect {
    /// Write these settings to the settings file; once written, they become
    /// the current settings.
    SaveOptions(Options),
    /// Bind a UDP socket to `bind_address`, connect it to `target`, keep it
    /// as the open socket and start the sending loop.
    OpenSocket { bind_address: String, target: String },
    /// Drop the open socket, which ends the sending loop.
    CloseSocket,
    /// Show or hide the window, when there is one, and repaint it.
    SetVisible(bool),
    /// End the program with exit status 0.
    Exit,
}

/// The effect of `event`, with `options` the current settings.
pub fn handle_ui_event(event: UIEvent, options: &Options) -> (res: Effect)
    ensures
        match event {
            UIEvent::OptionsChanged(o) => res matches Effect::SaveOptions(p) && p@ == o@,
            UIEvent::Start => res matches Effect::OpenSocket { bind_address, target } && bind_address@
                == any_local_address() && target@ == receiver_address(options.port as nat),
            UIEvent::Stop => res is CloseSocket,
            UIEvent::Hide => res matches Effect::SetVisible(v) && !v,
            UIEvent::Show => res matches Effect::SetVisible(v) && v,
            UIEvent::Quit => res is Exit,
        },
        event is Start ==> (res matches Effect::OpenSocket { target, .. } && target@.take(10)
            == "127.0.0.1:"@ && parse_unsigned(target@.skip(10), u16::MAX as nat) == Some(
            options.port as nat,
        )),
{
    proof {
        lemma_receiver_address_names_port(options.port);
    }
    match event {
        UIEvent::OptionsChanged(o) => Effect::SaveOptions(o),
        UIEvent::Start => {
            let mut target = "127.0.0.1:".to_owned();
            push_decimal(&mut target, options.port as u64);
            Effect::OpenSocket { bind_address: "0.0.0.0:0".to_owned(), target }
        },
        UIEvent::Stop => Effect::CloseSocket,
        UIEvent::Hide => Effect::SetVisible(false),
        UIEvent::Show => Effect::SetVisible(true),
        UIEvent::Quit => Effect::Exit,
    }
}

} // verus!
