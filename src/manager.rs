//! The decisions of one invocation: which memory limit a run gets, and what
//! a finished run means for the store.

use crate::config::{raised_memory_text, Config, SettingsView};
use crate::runtime::{default_memory_spec, mentions_oom, Runtime, RuntimeError};
use crate::text::{lower_of, parse_u64, parse_u64_spec, same_text};
use vstd::prelude::*;

verus! {

/// The memory limit chosen for a run, and why.
#[derive(Debug)]
pub enum MemoryPlan {
    /// The limit given on the command line, passed through as given, with
    /// the validation note (empty when there is nothing to say).
    Explicit { memory: String, note: String },
    /// The limit saved for this project and runtime.
    Saved { memory: String },
    /// No limit is passed; `recommended_mb` is suggested to the user.
    Suggest { recommended_mb: u64 },
    /// No limit is passed.
    Unset,
}

impl MemoryPlan {
    /// The limit handed to the child process, if any.
    pub open spec fn spec_memory(&self) -> Option<Seq<char>> {
        match self {
            MemoryPlan::Explicit { memory, .. } => Some(memory@),
            MemoryPlan::Saved { memory } => Some(memory@),
            _ => None,
        }
    }

    /// The limit handed to the child process, if any.
    pub fn memory(&self) -> (r: Option<&str>)
        ensures
            match r {
                Some(m) => self.spec_memory() == Some(m@),
                None => self.spec_memory() is None,
            },
    {
        match self {
            MemoryPlan::Explicit { memory, .. } => Some(memory.as_str()),
            MemoryPlan::Saved { memory } => Some(memory.as_str()),
            _ => None,
        }
    }
}

/// What a finished child process means.
#[derive(Debug)]
pub enum RunOutcome {
    /// It succeeded.
    Succeeded,
    /// It failed without a sign of running out of memory.
    Failed,
    /// Its error output shows it ran out of memory; `raised` holds the old and
    /// new limit texts when the project's saved limit was raised.
    OutOfMemory { raised: Option<(String, String)> },
}

/// The session of one invocation, owning the loaded store.
pub struct Manager {
    pub config: Config,
}

impl Manager {
    /// The session over a loaded store.
    pub fn new(config: Config) -> (r: Manager)
        requires
            config.wf(),
        ensures
            r.config.wf(),
            r.config@ == config@,
    {
        Manager { config }
    }

    /// The machine's memory in whole GB from the raw reading of the system:
    /// a count of bytes when above 10^9, else of kilobytes.
    pub fn system_gb_from(reading: u64) -> (r: u64)
        ensures
            r as int == if reading > 1_000_000_000 {
                reading as int / 1073741824
            } else {
                reading as int / 1048576
            },
    {
        if reading > 1_000_000_000 {
            reading / 1073741824
        } else {
            reading / 1048576
        }
    }

    /// Decides the memory limit of a run. An explicit limit wins and passes
    /// through unchanged; when it reads as a number it is validated first and
    /// refused if it exceeds the machine. Else the limit saved for the project
    /// is used when it was saved for this runtime. Else, for a runtime that
    /// takes limits, the tier default is suggested and nothing is passed.
    pub fn resolve_memory(
        &self,
        runtime: Runtime,
        explicit_memory: &Option<String>,
        project_id: &str,
        system_gb: u64,
    ) -> (r: Result<MemoryPlan, RuntimeError>)
        requires
            self.config.wf(),
        ensures
            match explicit_memory {
                Some(m) => match parse_u64_spec(m@) {
                    Some(mb) => if runtime.exceeds_system(mb, system_gb) {
                        match r {
                            Err(RuntimeError::ExceedsSystemMemory { memory_mb, system_gb: g }) =>
                                memory_mb == mb && g == system_gb,
                            _ => false,
                        }
                    } else {
                        match r {
                            Ok(MemoryPlan::Explicit { memory, note }) => memory@ == m@ && note@
                                == runtime.validation_note(mb, system_gb),
                            _ => false,
                        }
                    },
                    None => match r {
                        Ok(MemoryPlan::Explicit { memory, note }) => memory@ == m@ && note@.len()
                            == 0,
                        _ => false,
                    },
                },
                None => if self.config@.contains_key(project_id@)
                    && self.config@[project_id@].runtime == runtime.spec_name() {
                    match r {
                        Ok(MemoryPlan::Saved { memory }) => memory@
                            == self.config@[project_id@].memory,
                        _ => false,
                    }
                } else if runtime.spec_supports_memory_config() {
                    match r {
                        Ok(MemoryPlan::Suggest { recommended_mb }) => recommended_mb
                            == default_memory_spec(system_gb),
                        _ => false,
                    }
                } else {
                    r matches Ok(MemoryPlan::Unset)
                },
            },
    {
        match explicit_memory {
            Some(m) => {
                let note = match parse_u64(m.as_str()) {
                    Some(mb) => match runtime.validate_memory(mb, system_gb) {
                        Ok(note) => note,
                        Err(e) => {
                            return Err(e);
                        },
                    },
                    None => String::new(),
                };
                Ok(MemoryPlan::Explicit { memory: m.clone(), note })
            },
            None => {
                match self.config.get_project(project_id) {
                    Some(saved) => {
                        if same_text(saved.runtime.as_str(), runtime.name()) {
                            return Ok(MemoryPlan::Saved { memory: saved.memory.clone() });
                        }
                    },
                    None => {},
                }
                if runtime.supports_memory_config() {
                    Ok(MemoryPlan::Suggest { recommended_mb: Runtime::default_memory(system_gb) })
                } else {
                    Ok(MemoryPlan::Unset)
                }
            },
        }
    }

    /// Remembers an explicitly given limit for the project, for this runtime.
    pub fn save_project_config(&mut self, runtime: Runtime, project_id: String, memory: String)
        requires
            old(self).config.wf(),
        ensures
            final(self).config.wf(),
            exists|t: u64|
                final(self).config@ == old(self).config@.insert(
                    project_id@,
                    SettingsView { runtime: runtime.spec_name(), memory: memory@, last_used: t },
                ),
    {
        self.config.save_project(project_id, runtime.name().to_string(), memory);
    }

    /// Judges a finished run from its error output and exit status. On an
    /// out-of-memory failure the project's saved limit is raised (see
    /// `Config::increase_project_memory`); otherwise the store is untouched.
    pub fn after_run(&mut self, runtime: Runtime, project_id: &str, stderr: &str, succeeded: bool) -> (r:
        RunOutcome)
        requires
            old(self).config.wf(),
        ensures
            final(self).config.wf(),
            mentions_oom(lower_of(stderr@)) <==> r is OutOfMemory,
            !mentions_oom(lower_of(stderr@)) ==> final(self).config@ == old(self).config@ && (r is Failed
                <==> !succeeded),
            match r {
                RunOutcome::OutOfMemory { raised } => match raised {
                    Some((before, after)) => old(self).config@.contains_key(project_id@)
                        && before@ == old(self).config@[project_id@].memory && Some(after@)
                        == raised_memory_text(before@) && exists|t: u64|
                        final(self).config@ == old(self).config@.insert(
                            project_id@,
                            SettingsView {
                                runtime: old(self).config@[project_id@].runtime,
                                memory: after@,
                                last_used: t,
                            },
                        ),
                    None => final(self).config@ == old(self).config@ && !(old(
                        self,
                    ).config@.contains_key(project_id@) && raised_memory_text(
                        old(self).config@[project_id@].memory,
                    ) is Some),
                },
                _ => true,
            },
    {
        if runtime.check_oom_from_output(stderr) {
            let raised = self.config.increase_project_memory(project_id);
            RunOutcome::OutOfMemory { raised }
        } else if !succeeded {
            RunOutcome::Failed
        } else {
            RunOutcome::Succeeded
        }
    }
}

} // verus!
