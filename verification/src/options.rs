//! The user's settings, their defaults, and the decision taken on start-up
//! between the settings on disk and the defaults.
use vstd::prelude::*;

verus! {

/// The settings of the sender.
#[derive(Clone, Debug)]
pub struct Options {
    /// Pause between two rounds of messages, in milliseconds.
    pub refresh_rate: u64,
    /// The key that is handed over.
    pub password: String,
    /// How many key slots (bytes) each round sends.
    pub password_length: usize,
    /// The local UDP port the OSC receiver listens on.
    pub port: u16,
    /// Whether the window starts hidden in the tray.
    pub start_tray: bool,
}

/// What a value of `Options` holds, the key as its characters.
pub ghost struct OptionsView {
    pub refresh_rate: u64,
    pub password: Seq<char>,
    pub password_length: usize,
    pub port: u16,
    pub start_tray: bool,
}

impl View for Options {
    type V = OptionsView;

    open spec fn view(&self) -> OptionsView {
        OptionsView {
            refresh_rate: self.refresh_rate,
            password: self.password@,
            password_length: self.password_length,
            port: self.port,
            start_tray: self.start_tray,
        }
    }
}

/// The settings used when none could be read: one round a second, an empty
/// key sent over twelve slots, port 9000, window shown.
pub open spec fn default_options() -> OptionsView {
    OptionsView {
        refresh_rate: 1000,
        password: Seq::empty(),
        password_length: 12,
        port: 9000,
        start_tray: false,
    }
}

/// The settings to run with on start-up, and whether they must be written
/// back to the settings file.
pub struct StartupOptions {
    pub options: Options,
    pub save: bool,
}

impl Options {
    /// The default settings.
    pub fn default() -> (res: Options)
        ensures
            res@ == default_options(),
    {
        Options {
            refresh_rate: 1000,
            password: String::new(),
            password_length: 12,
            port: 9000,
            start_tray: false,
        }
    }

    /// Whether two settings hold the same values.
    pub fn same_as(&self, other: &Options) -> (res: bool)
        ensures
            res == (self@ == other@),
    {
        self.refresh_rate == other.refresh_rate && self.password == other.password
            && self.password_length == other.password_length && self.port == other.port
            && self.start_tray == other.start_tray
    }

    /// Chooses the settings to start with, given what reading the settings
    /// file gave (`None` when it could not be read or parsed): the settings
    /// read, or else the defaults, which are then to be saved.
    pub fn load_or_default(loaded: Option<Options>) -> (res: StartupOptions)
        ensures
            match loaded {
                Some(o) => res.options@ == o@ && !res.save,
                None => res.options@ == default_options() && res.save,
            },
    {
        match loaded {
            Some(options) => StartupOptions { options, save: false },
            None => StartupOptions { options: Options::default(), save: true },
        }
    }
}

} // verus!
