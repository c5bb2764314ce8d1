//! What can go wrong, by the step that finds it.

use vstd::prelude::*;

verus! {

/// A value that must not enter the data model.
#[derive(Clone, Copy, Debug, PartialEq, Eq, Structural)]
pub enum ValidationError {
    /// The service name is empty, or whitespace only.
    EmptyName,
    /// The service name holds whitespace.
    WhitespaceInName,
    /// The command is empty, or whitespace only.
    EmptyCommand,
    /// A field of a schedule is no number from 0 to 255.
    NotANumber,
    /// The month is not in 1..=12.
    MonthOutOfRange,
    /// The day of the month is not in 1..=31.
    DayOutOfRange,
    /// The weekday is not in 0..=6.
    WeekdayOutOfRange,
    /// The hour is not in 0..=23.
    HourOutOfRange,
    /// The minute is not in 0..=59.
    MinuteOutOfRange,
}

/// A description that cannot be written as a service file.
#[derive(Clone, Copy, Debug, PartialEq, Eq, Structural)]
pub enum RenderError {
    /// There is neither a program nor an argument to run.
    NothingToRun,
}

/// A timer was asked of a service that has no schedule.
#[derive(Clone, Copy, Debug, PartialEq, Eq, Structural)]
pub struct MissingScheduleError;

/// A service file that cannot be read back into a description.
#[derive(Clone, Copy, Debug, PartialEq, Eq, Structural)]
pub enum ParseError {
    /// No line of the unit file sets `ExecStart=`.
    MissingExecStart,
    /// An `ExecStart=` line names no program.
    EmptyExecStart,
    /// An `Environment=` line has no `=` after its key.
    MalformedEnvironment,
    /// The property list is no dictionary.
    NotADictionary,
    /// The property list has neither `Program` nor a first program argument.
    MissingProgram,
}

/// A property list that cannot be written as XML.
#[derive(Clone, Copy, Debug, PartialEq, Eq, Structural)]
pub enum SerializationError {
    /// The encoder refused the document.
    Refused,
    /// The encoder wrote bytes that are no UTF-8 text.
    NotText,
}

/// A description that cannot be written in the format asked for.
#[derive(Clone, Copy, Debug, PartialEq, Eq, Structural)]
pub enum GenerateError {
    /// The unit file cannot be written.
    Render(RenderError),
    /// The property list cannot be written.
    Serialization(SerializationError),
}

/// A service that a lookup did not find.
#[derive(Clone, Copy, Debug, PartialEq, Eq, Structural)]
pub struct NotFoundError;

impl ValidationError {
    /// The sentence that tells a user what was refused.
    pub open spec fn text(self) -> Seq<char> {
        match self {
            ValidationError::EmptyName => "Service name cannot be empty"@,
            ValidationError::WhitespaceInName => "Service name cannot contain spaces"@,
            ValidationError::EmptyCommand => "Command cannot be empty"@,
            ValidationError::NotANumber => "Please enter a number, or leave empty for any"@,
            ValidationError::MonthOutOfRange => "Month must be between 1 and 12"@,
            ValidationError::DayOutOfRange => "Day must be between 1 and 31"@,
            ValidationError::WeekdayOutOfRange => "Weekday must be between 0 and 6"@,
            ValidationError::HourOutOfRange => "Hour must be between 0 and 23"@,
            ValidationError::MinuteOutOfRange => "Minute must be between 0 and 59"@,
        }
    }

    /// The sentence that tells a user what was refused.
    pub fn message(&self) -> (m: &'static str)
        ensures
            m@ == self.text(),
    {
        match self {
            ValidationError::EmptyName => "Service name cannot be empty",
            ValidationError::WhitespaceInName => "Service name cannot contain spaces",
            ValidationError::EmptyCommand => "Command cannot be empty",
            ValidationError::NotANumber => "Please enter a number, or leave empty for any",
            ValidationError::MonthOutOfRange => "Month must be between 1 and 12",
            ValidationError::DayOutOfRange => "Day must be between 1 and 31",
            ValidationError::WeekdayOutOfRange => "Weekday must be between 0 and 6",
            ValidationError::HourOutOfRange => "Hour must be between 0 and 23",
            ValidationError::MinuteOutOfRange => "Minute must be between 0 and 59",
        }
    }
}

impl RenderError {
    /// The sentence that tells a user what could not be written.
    pub open spec fn text(self) -> Seq<char> {
        "Service has neither a program nor arguments"@
    }

    /// The sentence that tells a user what could not be written.
    pub fn message(&self) -> (m: &'static str)
        ensures
            m@ == self.text(),
    {
        "Service has neither a program nor arguments"
    }
}

impl MissingScheduleError {
    /// The sentence that tells a user why there is no timer.
    pub open spec fn text(self) -> Seq<char> {
        "Service has no schedule"@
    }

    /// The sentence that tells a user why there is no timer.
    pub fn message(&self) -> (m: &'static str)
        ensures
            m@ == self.text(),
    {
        "Service has no schedule"
    }
}

impl SerializationError {
    /// The sentence that tells a user what could not be written.
    pub open spec fn text(self) -> Seq<char> {
        match self {
            SerializationError::Refused => "Failed to serialize plist"@,
            SerializationError::NotText => "Serialized plist is not valid UTF-8"@,
        }
    }

    /// The sentence that tells a user what could not be written.
    pub fn message(&self) -> (m: &'static str)
        ensures
            m@ == self.text(),
    {
        match self {
            SerializationError::Refused => "Failed to serialize plist",
            SerializationError::NotText => "Serialized plist is not valid UTF-8",
        }
    }
}

impl GenerateError {
    /// The sentence that tells a user what could not be written.
    pub open spec fn text(self) -> Seq<char> {
        match self {
            GenerateError::Render(e) => e.text(),
            GenerateError::Serialization(e) => e.text(),
        }
    }

    /// The sentence that tells a user what could not be written.
    pub fn message(&self) -> (m: &'static str)
        ensures
            m@ == self.text(),
    {
        match self {
            GenerateError::Render(e) => e.message(),
            GenerateError::Serialization(e) => e.message(),
        }
    }
}

impl NotFoundError {
    /// The sentence that tells a user which service was not found.
    pub open spec fn text(name: Seq<char>) -> Seq<char> {
        "Service '"@ + name + "' not found"@
    }

    /// The sentence that tells a user which service was not found.
    pub fn message(&self, name: &str) -> (m: String)
        ensures
            m@ == NotFoundError::text(name@),
    {
        let mut m = String::new();
        m.append("Service '");
        m.append(name);
        m.append("' not found");
        m
    }
}

impl ParseError {
    /// The sentence that tells a user what the file lacks.
    pub open spec fn text(self) -> Seq<char> {
        match self {
            ParseError::MissingExecStart => "No ExecStart line in service file"@,
            ParseError::EmptyExecStart => "ExecStart line is empty in service file"@,
            ParseError::MalformedEnvironment => "Environment line is empty in service file"@,
            ParseError::NotADictionary => "Invalid plist format"@,
            ParseError::MissingProgram => "Missing 'Program' or 'ProgramArguments' in plist"@,
        }
    }

    /// The sentence that tells a user what the file lacks.
    pub fn message(&self) -> (m: &'static str)
        ensures
            m@ == self.text(),
    {
        match self {
            ParseError::MissingExecStart => "No ExecStart line in service file",
            ParseError::EmptyExecStart => "ExecStart line is empty in service file",
            ParseError::MalformedEnvironment => "Environment line is empty in service file",
            ParseError::NotADictionary => "Invalid plist format",
            ParseError::MissingProgram => "Missing 'Program' or 'ProgramArguments' in plist",
        }
    }
}

} // verus!
