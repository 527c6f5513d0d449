//! The configuration of the bridge, and how it is found at startup.

use vstd::prelude::*;
use crate::action::{default_action, table, Action, ActionView};

verus! {

/// Where the smart-home server is, and the token that opens it.
#[derive(Debug, PartialEq, Eq)]
pub struct SmarthomeConfig {
    pub url: String,
    pub token: String,
}

/// What a [`SmarthomeConfig`] holds, as mathematical values.
pub struct SmarthomeConfigView {
    pub url: Seq<char>,
    pub token: Seq<char>,
}

impl View for SmarthomeConfig {
    type V = SmarthomeConfigView;

    open spec fn view(&self) -> SmarthomeConfigView {
        SmarthomeConfigView { url: self.url@, token: self.token@ }
    }
}

impl Default for SmarthomeConfig {
    fn default() -> (smarthome: SmarthomeConfig)
        ensures
            smarthome@.url == "http://smarthome.box"@,
            smarthome@.token == "your-token"@,
    {
        SmarthomeConfig { url: "http://smarthome.box".to_owned(), token: "your-token".to_owned() }
    }
}

/// The infrared receiver: whether it is to be used, and the pin it hangs on.
#[derive(Clone, Copy, Debug, PartialEq, Eq, Structural)]
pub struct HardwareConfig {
    /// Where this is `false`, the receiver is never touched.
    pub enabled: bool,
    /// Number of the GPIO pin of the receiver.
    pub pin: u8,
}

impl Default for HardwareConfig {
    fn default() -> (hardware: HardwareConfig)
        ensures
            hardware == (HardwareConfig { enabled: false, pin: 0 }),
    {
        HardwareConfig { enabled: false, pin: 0 }
    }
}

/// The whole configuration. It is read once at startup and never changed.
#[derive(Debug, PartialEq, Eq)]
pub struct Config {
    pub smarthome: SmarthomeConfig,
    pub hardware: HardwareConfig,
    /// The action table, in the order of the file. Earlier actions win.
    pub actions: Vec<Action>,
}

/// What a [`Config`] holds, as mathematical values.
pub struct ConfigView {
    pub smarthome: SmarthomeConfigView,
    pub hardware: HardwareConfig,
    pub actions: Seq<ActionView>,
}

impl View for Config {
    type V = ConfigView;

    open spec fn view(&self) -> ConfigView {
        ConfigView {
            smarthome: self.smarthome@,
            hardware: self.hardware,
            actions: table(self.actions@),
        }
    }
}

/// The configuration that is used where the operator has written none.
pub open spec fn default_config() -> ConfigView {
    ConfigView {
        smarthome: SmarthomeConfigView { url: "http://smarthome.box"@, token: "your-token"@ },
        hardware: HardwareConfig { enabled: false, pin: 0 },
        actions: seq![default_action(), default_action()],
    }
}

impl Default for Config {
    fn default() -> (config: Config)
        ensures
            config@ == default_config(),
    {
        let mut actions: Vec<Action> = Vec::new();
        actions.push(Action::default());
        actions.push(Action::default());
        assert(table(actions@) =~= seq![default_action(), default_action()]);
        Config {
            smarthome: SmarthomeConfig::default(),
            hardware: HardwareConfig::default(),
            actions,
        }
    }
}

/// The text of the configuration file that stands for [`default_config`].
pub const DEFAULT_CONFIG_TEXT: &'static str =
    "[smarthome]\nurl = \"http://smarthome.box\"\ntoken = \"your-token\"\n\n[hardware]\nenabled = false\npin = 0\n\n[[actions]]\nname = \"default\"\ntriggers = [101]\nhomescript = \"print('Homescript')\"\n\n[[actions]]\nname = \"default\"\ntriggers = [101]\nhomescript = \"print('Homescript')\"\n";

/// Why no configuration could be had.
#[derive(Debug, PartialEq, Eq)]
pub enum Error {
    /// The file, or its directory, could not be read or written.
    IO(String),
    /// The file is there, but it is no valid configuration.
    Parse(String),
}

/// What an [`Error`] holds, as mathematical values.
pub enum ErrorView {
    IO(Seq<char>),
    Parse(Seq<char>),
}

impl View for Error {
    type V = ErrorView;

    open spec fn view(&self) -> ErrorView {
        match self {
            Error::IO(detail) => ErrorView::IO(detail@),
            Error::Parse(detail) => ErrorView::Parse(detail@),
        }
    }
}

/// What is to be done at the path of the configuration file.
#[derive(Debug, PartialEq, Eq)]
pub enum ConfigStep {
    /// Read the file and take the configuration from it.
    Read,
    /// Create the directories above the file, then the file itself with
    /// `contents`. Once that is done, `config` is the configuration.
    Write { contents: String, config: Config },
}

/// Decides how the configuration is had, from whether its file exists.
///
/// A file that exists is read, whatever it holds. Where there is none, a file
/// with the default configuration is written in its place, and the default
/// configuration is used.
pub fn read_config(exists: bool) -> (step: ConfigStep)
    ensures
        exists ==> step is Read,
        !exists ==> {
            &&& step matches ConfigStep::Write { contents, config }
            &&& contents@ == DEFAULT_CONFIG_TEXT@
            &&& config@ == default_config()
        },
{
    if exists {
        ConfigStep::Read
    } else {
        ConfigStep::Write {
            contents: DEFAULT_CONFIG_TEXT.to_owned(),
            config: Config::default(),
        }
    }
}

} // verus!
