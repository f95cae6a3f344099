//! The general settings: how the assistant starts, how much it logs, which units it
//! speaks in and where its speech-to-text model lies. Each is read from a word of the
//! configuration, and a word that is missing or unknown leaves the setting at its usual
//! value.

use crate::text::{is_word, is_word_wide, same_word, same_word_wide, trimmed};
use vstd::prelude::*;
use vstd::string::StringExecFns;

verus! {

/// How much is logged.
#[derive(Copy, Clone, PartialEq, Eq, PartialOrd, Ord, Debug)]
pub enum DebugMode {
    Trace,
    Debug,
    Info,
    Warn,
    Error,
}

/// How the assistant presents itself.
#[derive(Copy, Clone, PartialEq, Eq, PartialOrd, Ord, Debug)]
pub enum Interface {
    Cli,
    Gui,
}

/// The system of units.
#[derive(Copy, Clone, PartialEq, Eq, Debug)]
pub enum Units {
    Metric,
    Imperial,
}

/// The settings that hold for the whole program.
#[derive(Debug)]
pub struct GeneralSettings {
    pub startup_mode: Interface,
    pub log_level: DebugMode,
    pub units: Units,
}

/// The service that turns speech into text, with what it needs.
#[derive(Debug)]
pub enum STTConfig {
    /// The offline backend, with the path of its model.
    Kara(String),
    Gcp,
    Watson,
}

/// What the text field of the window tells.
#[derive(Debug)]
pub enum Message {
    TextChanged(String),
}

/// The path of the speech-to-text model when none is configured.
pub open spec fn default_stt_model() -> Seq<char> {
    "kara-assets/kara-stt.tflite"@
}

/// The name of an interface, as it is written out.
pub open spec fn interface_name(interface: Interface) -> Seq<char> {
    match interface {
        Interface::Cli => "commandline"@,
        Interface::Gui => "graphical"@,
    }
}

impl Interface {
    /// The name of the interface.
    pub fn to_string(&self) -> (r: String)
        ensures
            r@ == interface_name(*self),
    {
        match self {
            Interface::Cli => String::from_str("commandline"),
            Interface::Gui => String::from_str("graphical"),
        }
    }
}

impl STTConfig {
    /// The offline backend with its model at `path`.
    pub fn base(path: &str) -> (r: Self)
        ensures
            r matches STTConfig::Kara(p) && p@ == path@,
    {
        STTConfig::Kara(path.to_owned())
    }
}

/// The arguments of the command line.
#[derive(Debug)]
pub struct Args {
    debug: Option<DebugMode>,
    interface: Option<Interface>,
    config: Option<String>,
}

impl Args {
    /// The level of logging that the command line asks for, if any.
    pub closed spec fn debug_arg(&self) -> Option<DebugMode> {
        self.debug
    }

    /// The interface that the command line asks for, if any.
    pub closed spec fn interface_arg(&self) -> Option<Interface> {
        self.interface
    }

    /// The configuration file that the command line names, if any.
    pub closed spec fn config_arg(&self) -> Option<String> {
        self.config
    }

    /// The arguments as they were given.
    pub fn new(debug: Option<DebugMode>, interface: Option<Interface>, config: Option<String>) -> (r:
        Self)
        ensures
            r.debug_arg() == debug,
            r.interface_arg() == interface,
            r.config_arg() == config,
    {
        Args { debug, interface, config }
    }

    /// The level of logging: the one asked for on the command line, or else the one of
    /// the configuration file.
    pub fn debug(&self, config_file_level: DebugMode) -> (r: DebugMode)
        ensures
            r == match self.debug_arg() {
                Some(mode) => mode,
                None => config_file_level,
            },
    {
        match self.debug {
            Some(mode) => mode,
            None => config_file_level,
        }
    }

    /// The interface: the one asked for on the command line, or else the one of the
    /// configuration file.
    pub fn interface(&self, config_file_interface: Interface) -> (r: Interface)
        ensures
            r == match self.interface_arg() {
                Some(interface) => interface,
                None => config_file_interface,
            },
    {
        match self.interface {
            Some(interface) => interface,
            None => config_file_interface,
        }
    }

    /// The configuration file that the command line names, if any.
    pub fn config_path(&self) -> (r: Option<&String>)
        ensures
            r is Some <==> self.config_arg() is Some,
            r is Some ==> *r->Some_0 == self.config_arg()->Some_0,
    {
        self.config.as_ref()
    }
}

/// True when `text` is there and is `word`, but for white space around it and the
/// case of letters.
pub open spec fn says(text: Option<Seq<char>>, word: Seq<char>) -> bool {
    text is Some && same_word(trimmed(text->Some_0), word)
}

/// True when `text` is there and is `word`, but for white space around it and the
/// case of letters in whatever script.
pub open spec fn says_wide(text: Option<Seq<char>>, word: Seq<char>) -> bool {
    text is Some && same_word_wide(trimmed(text->Some_0), word)
}

/// The view of an optional text.
pub open spec fn seen(text: Option<&str>) -> Option<Seq<char>> {
    match text {
        Some(t) => Some(t@),
        None => None,
    }
}

/// The units that a word of the configuration names; metric where it names none.
pub open spec fn units_of(text: Option<Seq<char>>) -> Units {
    if says(text, "metric"@) {
        Units::Metric
    } else if says(text, "imperial"@) {
        Units::Imperial
    } else {
        Units::Metric
    }
}

/// The interface that a word of the configuration names; the graphical one where it
/// names none.
pub open spec fn interface_of(text: Option<Seq<char>>) -> Interface {
    if says(text, "gui"@) {
        Interface::Gui
    } else if says(text, "cli"@) {
        Interface::Cli
    } else {
        Interface::Gui
    }
}

/// The level of logging that a word of the configuration names; warnings where it
/// names none.
pub open spec fn log_level_of(text: Option<Seq<char>>) -> DebugMode {
    if says_wide(text, "trace"@) {
        DebugMode::Trace
    } else if says_wide(text, "debug"@) {
        DebugMode::Debug
    } else if says_wide(text, "info"@) {
        DebugMode::Info
    } else if says_wide(text, "warn"@) {
        DebugMode::Warn
    } else if says_wide(text, "error"@) {
        DebugMode::Error
    } else {
        DebugMode::Warn
    }
}

fn word_is(text: Option<&str>, word: &str) -> (r: bool)
    ensures
        r == says(seen(text), word@),
{
    match text {
        Some(t) => is_word(t, word),
        None => false,
    }
}

fn word_is_wide(text: Option<&str>, word: &str) -> (r: bool)
    ensures
        r == says_wide(seen(text), word@),
{
    match text {
        Some(t) => is_word_wide(t, word),
        None => false,
    }
}

/// Reads the system of units.
pub fn parse_units(text: Option<&str>) -> (r: Units)
    ensures
        r == units_of(seen(text)),
{
    if word_is(text, "metric") {
        Units::Metric
    } else if word_is(text, "imperial") {
        Units::Imperial
    } else {
        Units::Metric
    }
}

/// Reads the interface.
pub fn parse_interface(text: Option<&str>) -> (r: Interface)
    ensures
        r == interface_of(seen(text)),
{
    if word_is(text, "gui") {
        Interface::Gui
    } else if word_is(text, "cli") {
        Interface::Cli
    } else {
        Interface::Gui
    }
}

/// Reads the level of logging.
pub fn parse_log_level(text: Option<&str>) -> (r: DebugMode)
    ensures
        r == log_level_of(seen(text)),
{
    if word_is_wide(text, "trace") {
        DebugMode::Trace
    } else if word_is_wide(text, "debug") {
        DebugMode::Debug
    } else if word_is_wide(text, "info") {
        DebugMode::Info
    } else if word_is_wide(text, "warn") {
        DebugMode::Warn
    } else if word_is_wide(text, "error") {
        DebugMode::Error
    } else {
        DebugMode::Warn
    }
}

impl GeneralSettings {
    /// The general settings that the words of the configuration give.
    pub fn parse(default_mode: Option<&str>, log_level: Option<&str>, units: Option<&str>) -> (r:
        Self)
        ensures
            r.startup_mode == interface_of(seen(default_mode)),
            r.log_level == log_level_of(seen(log_level)),
            r.units == units_of(seen(units)),
    {
        GeneralSettings {
            startup_mode: parse_interface(default_mode),
            log_level: parse_log_level(log_level),
            units: parse_units(units),
        }
    }
}

/// The model path that the configuration gives: the configured one, or the usual one
/// where none is configured or the configured one is empty.
pub open spec fn model_path_of(model_path: Option<Seq<char>>) -> Seq<char> {
    match model_path {
        Some(path) => if path.len() == 0 {
            default_stt_model()
        } else {
            path
        },
        None => default_stt_model(),
    }
}

/// True of the words for the source of speech-to-text that can be served: no word at
/// all, and the word `kara`.
pub open spec fn asks_for_kara(source: Option<Seq<char>>) -> bool {
    source is None || says_wide(source, "kara"@)
}

/// True when the speech-to-text service that `source` asks for can be had.
pub fn knows_source(source: Option<&str>) -> (r: bool)
    ensures
        r == asks_for_kara(seen(source)),
{
    match source {
        None => true,
        Some(word) => is_word_wide(word, "kara"),
    }
}

/// The speech-to-text service that the configuration asks for. Without a word for the
/// source it is the offline backend with the usual model; the word `kara` asks for the
/// offline backend with the configured model. No other service can be had.
pub fn stt_config(source: Option<&str>, model_path: Option<&str>) -> (r: STTConfig)
    requires
        asks_for_kara(seen(source)),
    ensures
        r matches STTConfig::Kara(path) && path@ == if source is None {
            default_stt_model()
        } else {
            model_path_of(seen(model_path))
        },
{
    let path = match source {
        None => "kara-assets/kara-stt.tflite",
        Some(_) => match model_path {
            Some(path) => if path.is_empty() {
                "kara-assets/kara-stt.tflite"
            } else {
                path
            },
            None => "kara-assets/kara-stt.tflite",
        },
    };
    STTConfig::base(path)
}

} // verus!
