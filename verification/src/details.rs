//! The description of a service, whatever the service manager that runs it.

use crate::error::ValidationError;
use crate::schedule::{CalendarSchedule, ScheduleModel};
use crate::text::{is_space, is_whitespace, trim};
use vstd::prelude::*;

verus! {

/// What a service description says.
#[verifier::ext_equal]
pub struct ServiceModel {
    /// The name that identifies the service, and the stem of its file's name.
    pub name: Seq<char>,
    /// The path of the executable.
    pub program: Seq<char>,
    /// The arguments handed to the program, in order.
    pub arguments: Seq<Seq<char>>,
    /// The directory in which the program runs.
    pub working_directory: Option<Seq<char>>,
    /// Whether the service starts by itself.
    pub run_at_load: bool,
    /// Whether the service is started again when it ends.
    pub keep_alive: bool,
    /// The path of a file of environment variables.
    pub env_file: Option<Seq<char>>,
    /// The environment variables, each a key and a value, in order.
    pub env_vars: Seq<(Seq<char>, Seq<char>)>,
    /// The units after which the service starts.
    pub after: Seq<Seq<char>>,
    /// When the service runs, if it does not run all the time.
    pub schedule: Option<ScheduleModel>,
}

impl ServiceModel {
    /// The description that says nothing yet.
    pub open spec fn blank() -> ServiceModel {
        ServiceModel {
            name: Seq::empty(),
            program: Seq::empty(),
            arguments: Seq::empty(),
            working_directory: None,
            run_at_load: false,
            keep_alive: false,
            env_file: None,
            env_vars: Seq::empty(),
            after: Seq::empty(),
            schedule: None,
        }
    }
}

/// The description of a service.
#[derive(Debug, Clone)]
pub struct ServiceDetails {
    pub name: String,
    pub program: String,
    pub arguments: Vec<String>,
    pub working_directory: Option<String>,
    pub run_at_load: bool,
    pub keep_alive: bool,
    pub env_file: Option<String>,
    pub env_vars: Vec<(String, String)>,
    pub after: Vec<String>,
    pub schedule: Option<CalendarSchedule>,
}

impl View for ServiceDetails {
    type V = ServiceModel;

    open spec fn view(&self) -> ServiceModel {
        ServiceModel {
            name: self.name@,
            program: self.program@,
            arguments: self.arguments.deep_view(),
            working_directory: self.working_directory.deep_view(),
            run_at_load: self.run_at_load,
            keep_alive: self.keep_alive,
            env_file: self.env_file.deep_view(),
            env_vars: self.env_vars.deep_view(),
            after: self.after.deep_view(),
            schedule: match self.schedule {
                Some(s) => Some(s@),
                None => None,
            },
        }
    }
}

impl ServiceDetails {
    /// The description that says nothing yet.
    pub fn blank() -> (d: ServiceDetails)
        ensures
            d@ == ServiceModel::blank(),
    {
        let d = ServiceDetails {
            name: String::new(),
            program: String::new(),
            arguments: Vec::new(),
            working_directory: None,
            run_at_load: false,
            keep_alive: false,
            env_file: None,
            env_vars: Vec::new(),
            after: Vec::new(),
            schedule: None,
        };
        assert(d@ =~= ServiceModel::blank());
        d
    }
}

/// A service as it was found on disk.
#[derive(Debug, Clone)]
pub struct FsServiceDetails {
    pub service: ServiceDetails,
    pub path: String,
    pub enabled: bool,
    pub running: bool,
}

/// Whether some character of `s` is whitespace.
pub open spec fn has_space(s: Seq<char>) -> bool {
    exists|i: int| 0 <= i < s.len() && is_space(#[trigger] s[i])
}

/// What is wrong with `name` as the name of a service, if anything: it must
/// not be empty, or whitespace only, and must hold no whitespace.
pub open spec fn name_violation(name: Seq<char>) -> Option<ValidationError> {
    if trim(name).len() == 0 {
        Some(ValidationError::EmptyName)
    } else if has_space(name) {
        Some(ValidationError::WhitespaceInName)
    } else {
        None
    }
}

/// Whether some character of `s` is whitespace.
pub fn contains_whitespace(s: &[char]) -> (b: bool)
    ensures
        b == has_space(s@),
{
    let mut i: usize = 0;
    while i < s.len()
        invariant
            i <= s.len(),
            forall|j: int| 0 <= j < i ==> !is_space(s@[j]),
        decreases s.len() - i,
    {
        if is_whitespace(s[i]) {
            return true;
        }
        i += 1;
    }
    false
}

/// Accepts `name` as the name of a service, or says what is wrong with it.
pub fn validate_name(name: &str) -> (r: Result<(), ValidationError>)
    ensures
        match r {
            Ok(()) => name_violation(name@) is None,
            Err(e) => name_violation(name@) == Some(e),
        },
{
    let chars = crate::text::chars_of(name);
    if crate::text::trimmed(chars.as_slice()).len() == 0 {
        Err(ValidationError::EmptyName)
    } else if contains_whitespace(chars.as_slice()) {
        Err(ValidationError::WhitespaceInName)
    } else {
        Ok(())
    }
}

} // verus!
