//! What is settled before a stage runs: which stage it is, and whether the
//! configuration has what that stage needs.

use vstd::prelude::*;
use vstd::string::*;

verus! {

/// The stage that the program runs.
#[derive(Clone, Copy, Debug, PartialEq, Eq, Structural)]
pub enum Mode {
    /// Consume from Kafka, deduplicate, publish to Kafka.
    Dedup,
    /// Subscribe over gRPC and publish to Kafka.
    Grpc2Kafka,
    /// Consume from Kafka and serve over gRPC.
    Kafka2Grpc,
}

impl Default for Mode {
    /// Where no stage is named, the program runs `Grpc2Kafka`.
    fn default() -> (mode: Mode)
        ensures
            mode == Mode::Grpc2Kafka,
    {
        Mode::Grpc2Kafka
    }
}

/// The sections that the configuration defines.
#[derive(Clone, Copy, Debug, PartialEq, Eq, Structural)]
pub struct Sections {
    pub dedup: bool,
    pub grpc2kafka: bool,
    pub kafka2grpc: bool,
}

/// Why the program cannot start.
#[derive(Clone, Copy, Debug, PartialEq, Eq, Structural)]
pub enum ConfigError {
    /// The configuration lacks the section of the stage that was chosen.
    MissingSection(Mode),
}

impl Mode {
    /// The name of this stage's section of the configuration.
    pub open spec fn spec_section(&self) -> Seq<char> {
        match self {
            Mode::Dedup => "dedup"@,
            Mode::Grpc2Kafka => "grpc2kafka"@,
            Mode::Kafka2Grpc => "kafka2grpc"@,
        }
    }

    /// The configuration defines this stage's section.
    pub open spec fn defined_in(&self, sections: Sections) -> bool {
        match self {
            Mode::Dedup => sections.dedup,
            Mode::Grpc2Kafka => sections.grpc2kafka,
            Mode::Kafka2Grpc => sections.kafka2grpc,
        }
    }

    /// The name of this stage's section of the configuration.
    pub fn section(&self) -> (name: &'static str)
        ensures
            name@ == self.spec_section(),
    {
        match self {
            Mode::Dedup => "dedup",
            Mode::Grpc2Kafka => "grpc2kafka",
            Mode::Kafka2Grpc => "kafka2grpc",
        }
    }
}

/// The stage that runs for a choice: the chosen one, or `Grpc2Kafka` where
/// none was chosen.
pub open spec fn chosen_mode(chosen: Option<Mode>) -> Mode {
    match chosen {
        Some(mode) => mode,
        None => Mode::Grpc2Kafka,
    }
}

/// Settles which stage runs. The stage must have its section in the
/// configuration; the sections of other stages do not matter.
pub fn select_stage(chosen: Option<Mode>, sections: Sections) -> (res: Result<Mode, ConfigError>)
    ensures
        chosen_mode(chosen).defined_in(sections) ==> res == Ok::<Mode, ConfigError>(
            chosen_mode(chosen),
        ),
        !chosen_mode(chosen).defined_in(sections) ==> res == Err::<Mode, ConfigError>(
            ConfigError::MissingSection(chosen_mode(chosen)),
        ),
{
    let mode = match chosen {
        Some(mode) => mode,
        None => Mode::default(),
    };
    let defined = match mode {
        Mode::Dedup => sections.dedup,
        Mode::Grpc2Kafka => sections.grpc2kafka,
        Mode::Kafka2Grpc => sections.kafka2grpc,
    };
    if defined {
        Ok(mode)
    } else {
        Err(ConfigError::MissingSection(mode))
    }
}

impl ConfigError {
    /// The text of the error.
    pub open spec fn spec_message(&self) -> Seq<char> {
        match self {
            ConfigError::MissingSection(mode) => "`"@ + mode.spec_section()
                + "` section in config should be defined"@,
        }
    }

    /// The text of the error, as it is shown to the user.
    pub fn message(&self) -> (text: String)
        ensures
            text@ == self.spec_message(),
    {
        match self {
            ConfigError::MissingSection(mode) => {
                let mut text = String::from_str("`");
                text.append(mode.section());
                text.append("` section in config should be defined");
                text
            },
        }
    }
}

/// Whether log lines are coloured: only where both standard output and
/// standard error are terminals.
pub fn ansi_enabled(stdout_is_terminal: bool, stderr_is_terminal: bool) -> (ansi: bool)
    ensures
        ansi == (stdout_is_terminal && stderr_is_terminal),
{
    stdout_is_terminal && stderr_is_terminal
}

} // verus!
