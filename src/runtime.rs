//! The closed set of supported runtimes and their per-runtime rules.

use crate::text::{
    contains_text, decimal, has_substring, lower_of, lowercase, same_text, u64_text,
};
use vstd::prelude::*;
use vstd::string::*;

verus! {

/// A JavaScript/TypeScript runtime that can be launched.
#[derive(Debug, Clone, Copy, PartialEq, Eq, Structural)]
pub enum Runtime {
    Node,
    Deno,
    Bun,
}

/// Why a runtime could not be chosen or a memory limit was refused.
#[derive(Debug)]
pub enum RuntimeError {
    /// The command token names no supported runtime.
    UnknownRuntime(String),
    /// The requested limit is larger than the machine's memory.
    ExceedsSystemMemory { memory_mb: u64, system_gb: u64 },
}

/// How a memory limit reaches the child process.
#[derive(Debug)]
pub enum MemoryInjection {
    /// No limit is passed.
    Nothing,
    /// The full new value of the `NODE_OPTIONS` environment variable.
    NodeOptions(String),
    /// The V8 flag handed to Deno after `--v8-flags`.
    DenoV8Flag(String),
}

/// The runtime that a lower-cased command token stands for.
pub open spec fn runtime_of_lowered(t: Seq<char>) -> Option<Runtime> {
    if t == "node"@ || t == "npm"@ || t == "npx"@ || t == "pnpm"@ || t == "yarn"@ {
        Some(Runtime::Node)
    } else if t == "deno"@ {
        Some(Runtime::Deno)
    } else if t == "bun"@ {
        Some(Runtime::Bun)
    } else {
        None
    }
}

/// Whether lower-cased text carries one of the known out-of-memory signatures.
pub open spec fn mentions_oom(t: Seq<char>) -> bool {
    ||| has_substring(t, "javascript heap out of memory"@)
    ||| has_substring(t, "fatal error: reached heap limit"@)
    ||| has_substring(t, "allocation failed"@)
    ||| has_substring(t, "heap out of memory"@)
}

/// The default limit in MB for a machine with `system_gb` GB of memory.
pub open spec fn default_memory_spec(system_gb: u64) -> u64 {
    if system_gb >= 64 {
        16384
    } else if system_gb >= 32 {
        8192
    } else if system_gb >= 16 {
        4096
    } else {
        2048
    }
}

/// The guidance line for the memory tier of `system_gb`.
pub open spec fn tier_advice(system_gb: u64) -> Seq<char> {
    if system_gb >= 64 {
        "For 64GB+: 16384-24576 MB for large projects"@
    } else if system_gb >= 32 {
        "For 32GB: 8192-12288 MB for large projects"@
    } else if system_gb >= 16 {
        "For 16GB: 4096-6144 MB for large projects"@
    } else {
        "For <16GB: 2048-4096 MB"@
    }
}

/// The machine's memory in MB.
pub open spec fn system_mb(system_gb: u64) -> int {
    system_gb as int * 1024
}

/// The request takes more than three quarters of the machine's memory.
pub open spec fn is_high_share(memory_mb: u64, system_gb: u64) -> bool {
    memory_mb as int * 100 > 75 * system_mb(system_gb)
}

/// The request takes less than a tenth of the machine's memory.
pub open spec fn is_low_share(memory_mb: u64, system_gb: u64) -> bool {
    memory_mb as int * 100 < 10 * system_mb(system_gb)
}

/// The whole percentage of the machine's memory that the request takes.
pub open spec fn share_percent(memory_mb: u64, system_gb: u64) -> nat {
    (memory_mb as int * 100 / system_mb(system_gb)) as nat
}

pub open spec fn high_share_note(percent: nat) -> Seq<char> {
    "⚠️  Warning: "@ + decimal(percent)
        + "% of system memory (recommended: 20-40% dev, 50-75% prod)"@
}

pub open spec fn low_share_note(percent: nat) -> Seq<char> {
    "ℹ️  Info: Only "@ + decimal(percent)
        + "% of system memory, can increase for better performance"@
}

/// The V8 directive that sets the old-generation heap size.
pub open spec fn heap_flag(memory: Seq<char>) -> Seq<char> {
    "--max-old-space-size="@ + memory
}

/// The default limit never decreases as the machine's memory grows.
pub proof fn lemma_default_memory_monotone(smaller_gb: u64, larger_gb: u64)
    requires
        smaller_gb <= larger_gb,
    ensures
        default_memory_spec(smaller_gb) <= default_memory_spec(larger_gb),
{
}

/// Validation of a request by share of the machine's memory: for Node and
/// Deno a request above the machine fails, one between a tenth and three
/// quarters gets no note, a larger one a note with "Warning" and a smaller one
/// a note with "Info"; for Bun every request passes without a note.
pub proof fn lemma_validation_bands(runtime: Runtime, memory_mb: u64, system_gb: u64)
    ensures
        runtime.spec_supports_memory_config() && memory_mb as int > system_mb(system_gb)
            ==> runtime.exceeds_system(memory_mb, system_gb),
        runtime.spec_supports_memory_config() && !runtime.exceeds_system(memory_mb, system_gb)
            && !is_high_share(memory_mb, system_gb) && !is_low_share(memory_mb, system_gb)
            ==> runtime.validation_note(memory_mb, system_gb).len() == 0,
        runtime.spec_supports_memory_config() && !runtime.exceeds_system(memory_mb, system_gb)
            && is_high_share(memory_mb, system_gb) ==> has_substring(
            runtime.validation_note(memory_mb, system_gb),
            "Warning"@,
        ),
        runtime.spec_supports_memory_config() && !runtime.exceeds_system(memory_mb, system_gb)
            && is_low_share(memory_mb, system_gb) ==> has_substring(
            runtime.validation_note(memory_mb, system_gb),
            "Info"@,
        ),
        !runtime.spec_supports_memory_config() ==> !runtime.exceeds_system(memory_mb, system_gb)
            && runtime.validation_note(memory_mb, system_gb).len() == 0,
{
    let p = share_percent(memory_mb, system_gb);
    reveal_strlit("⚠️  Warning: ");
    reveal_strlit("Warning");
    reveal_strlit("ℹ️  Info: Only ");
    reveal_strlit("Info");
    let high = high_share_note(p);
    assert(high.subrange(4, 4int + "Warning"@.len()) =~= "Warning"@);
    let low = low_share_note(p);
    assert(low.subrange(4, 4int + "Info"@.len()) =~= "Info"@);
}

/// Every text holds itself, so each out-of-memory signature is recognised.
pub proof fn lemma_signatures_recognised()
    ensures
        mentions_oom("javascript heap out of memory"@),
        mentions_oom("fatal error: reached heap limit"@),
        mentions_oom("allocation failed"@),
        mentions_oom("heap out of memory"@),
{
    let a = "javascript heap out of memory"@;
    let b = "fatal error: reached heap limit"@;
    let c = "allocation failed"@;
    let d = "heap out of memory"@;
    assert(a.subrange(0, 0int + a.len()) =~= a);
    assert(b.subrange(0, 0int + b.len()) =~= b);
    assert(c.subrange(0, 0int + c.len()) =~= c);
    assert(d.subrange(0, 0int + d.len()) =~= d);
}

/// Command tokens are read without regard to letter case: two tokens that
/// lower-case alike name the same runtime. The package-manager commands run
/// on Node.
pub proof fn lemma_command_aliases(a: Seq<char>, b: Seq<char>)
    requires
        lower_of(a) == lower_of(b),
    ensures
        runtime_of_lowered(lower_of(a)) == runtime_of_lowered(lower_of(b)),
        runtime_of_lowered("npm"@) == Some(Runtime::Node),
        runtime_of_lowered("npx"@) == Some(Runtime::Node),
        runtime_of_lowered("pnpm"@) == Some(Runtime::Node),
        runtime_of_lowered("yarn"@) == Some(Runtime::Node),
{
}

impl Runtime {
    pub open spec fn spec_name(self) -> Seq<char> {
        match self {
            Runtime::Node => "node"@,
            Runtime::Deno => "deno"@,
            Runtime::Bun => "bun"@,
        }
    }

    pub open spec fn spec_supports_memory_config(self) -> bool {
        !(self is Bun)
    }

    /// The guidance text that `recommend_memory` gives.
    pub open spec fn recommendation(self, system_gb: u64) -> Seq<char> {
        if self.spec_supports_memory_config() {
            tier_advice(system_gb) + "\nRule: Allocate 20-40% of system memory for development"@
        } else {
            "Bun manages memory automatically (GC at ~80% system memory)"@
        }
    }

    /// The request is refused: the runtime takes limits and it exceeds the machine.
    pub open spec fn exceeds_system(self, memory_mb: u64, system_gb: u64) -> bool {
        self.spec_supports_memory_config() && memory_mb as int > system_mb(system_gb)
    }

    /// The note that `validate_memory` returns for an accepted request.
    pub open spec fn validation_note(self, memory_mb: u64, system_gb: u64) -> Seq<char> {
        if !self.spec_supports_memory_config() {
            Seq::empty()
        } else if is_high_share(memory_mb, system_gb) {
            high_share_note(share_percent(memory_mb, system_gb))
        } else if is_low_share(memory_mb, system_gb) {
            low_share_note(share_percent(memory_mb, system_gb))
        } else {
            Seq::empty()
        }
    }

    /// The runtime named by a command token that is already lower-case.
    pub fn from_lowercase(t: &str) -> (r: Option<Runtime>)
        ensures
            r == runtime_of_lowered(t@),
    {
        if same_text(t, "node") || same_text(t, "npm") || same_text(t, "npx") || same_text(
            t,
            "pnpm",
        ) || same_text(t, "yarn") {
            Some(Runtime::Node)
        } else if same_text(t, "deno") {
            Some(Runtime::Deno)
        } else if same_text(t, "bun") {
            Some(Runtime::Bun)
        } else {
            None
        }
    }

    /// The runtime named by a command token, in any letter case.
    pub fn from_command(cmd: &str) -> (r: Result<Runtime, RuntimeError>)
        ensures
            match r {
                Ok(rt) => runtime_of_lowered(lower_of(cmd@)) == Some(rt),
                Err(e) => runtime_of_lowered(lower_of(cmd@)) is None && match e {
                    RuntimeError::UnknownRuntime(token) => token@ == cmd@,
                    _ => false,
                },
            },
    {
        let lowered = lowercase(cmd);
        match Runtime::from_lowercase(lowered.as_str()) {
            Some(rt) => Ok(rt),
            None => Err(RuntimeError::UnknownRuntime(cmd.to_string())),
        }
    }

    /// The canonical name, which is also the binary that is launched.
    pub fn name(&self) -> (r: &'static str)
        ensures
            r@ == self.spec_name(),
    {
        match self {
            Runtime::Node => "node",
            Runtime::Deno => "deno",
            Runtime::Bun => "bun",
        }
    }

    pub fn as_str(&self) -> (r: &'static str)
        ensures
            r@ == self.spec_name(),
    {
        self.name()
    }

    /// Node and Deno take a heap limit; Bun manages its memory itself.
    pub fn supports_memory_config(&self) -> (r: bool)
        ensures
            r == self.spec_supports_memory_config(),
    {
        match self {
            Runtime::Bun => false,
            _ => true,
        }
    }

    /// Whether a child's error output shows that it ran out of memory.
    pub fn check_oom_from_output(&self, stderr: &str) -> (r: bool)
        ensures
            r == mentions_oom(lower_of(stderr@)),
    {
        self.is_oom_error(stderr)
    }

    /// Case-insensitive search for the known out-of-memory signatures.
    pub fn is_oom_error(&self, stderr: &str) -> (r: bool)
        ensures
            r == mentions_oom(lower_of(stderr@)),
    {
        let lowered = lowercase(stderr);
        Runtime::signals_oom(lowered.as_str())
    }

    /// Search of already lower-cased text for the out-of-memory signatures.
    pub fn signals_oom(lowered: &str) -> (r: bool)
        ensures
            r == mentions_oom(lowered@),
    {
        contains_text(lowered, "javascript heap out of memory") || contains_text(
            lowered,
            "fatal error: reached heap limit",
        ) || contains_text(lowered, "allocation failed") || contains_text(
            lowered,
            "heap out of memory",
        )
    }

    /// Human guidance on a limit for a machine with `system_gb` GB.
    pub fn recommend_memory(&self, system_gb: u64) -> (r: String)
        ensures
            r@ == self.recommendation(system_gb),
    {
        if !self.supports_memory_config() {
            return String::from_str("Bun manages memory automatically (GC at ~80% system memory)");
        }
        let advice = if system_gb >= 64 {
            "For 64GB+: 16384-24576 MB for large projects"
        } else if system_gb >= 32 {
            "For 32GB: 8192-12288 MB for large projects"
        } else if system_gb >= 16 {
            "For 16GB: 4096-6144 MB for large projects"
        } else {
            "For <16GB: 2048-4096 MB"
        };
        let mut r = String::from_str(advice);
        r.append("\nRule: Allocate 20-40% of system memory for development");
        r
    }

    /// Checks a requested limit against the machine's memory: an error when it
    /// exceeds it, else a note when the share is high or low, else empty text.
    pub fn validate_memory(&self, memory_mb: u64, system_gb: u64) -> (r: Result<
        String,
        RuntimeError,
    >)
        ensures
            match r {
                Ok(note) => !self.exceeds_system(memory_mb, system_gb) && note@
                    == self.validation_note(memory_mb, system_gb),
                Err(e) => self.exceeds_system(memory_mb, system_gb) && match e {
                    RuntimeError::ExceedsSystemMemory { memory_mb: m, system_gb: g } => m
                        == memory_mb && g == system_gb,
                    _ => false,
                },
            },
    {
        if !self.supports_memory_config() {
            return Ok(String::new());
        }
        let total: u128 = system_gb as u128 * 1024;
        let scaled: u128 = memory_mb as u128 * 100;
        if memory_mb as u128 > total {
            return Err(RuntimeError::ExceedsSystemMemory { memory_mb, system_gb });
        }
        assert(scaled <= 100 * total);
        if total > 0 {
            assert(scaled / total <= 100) by (nonlinear_arith)
                requires
                    scaled <= 100 * total,
                    total > 0,
            ;
        }
        if scaled > 75 * total {
            let percent = (scaled / total) as u64;
            let mut note = String::from_str("⚠️  Warning: ");
            note.append(u64_text(percent).as_str());
            note.append("% of system memory (recommended: 20-40% dev, 50-75% prod)");
            Ok(note)
        } else if scaled < 10 * total {
            let percent = (scaled / total) as u64;
            let mut note = String::from_str("ℹ️  Info: Only ");
            note.append(u64_text(percent).as_str());
            note.append("% of system memory, can increase for better performance");
            Ok(note)
        } else {
            Ok(String::new())
        }
    }

    /// The limit suggested for a machine with `system_gb` GB.
    pub fn default_memory(system_gb: u64) -> (r: u64)
        ensures
            r == default_memory_spec(system_gb),
    {
        if system_gb >= 64 {
            16384
        } else if system_gb >= 32 {
            8192
        } else if system_gb >= 16 {
            4096
        } else {
            2048
        }
    }

    /// How `memory` is handed to this runtime's child process, given the
    /// current value of `NODE_OPTIONS`: appended to it for Node, as a V8 flag
    /// for Deno, not at all for Bun.
    pub fn memory_injection(&self, memory: Option<&str>, node_options: &str) -> (r:
        MemoryInjection)
        ensures
            match memory {
                None => r is Nothing,
                Some(m) => match self {
                    Runtime::Node => match r {
                        MemoryInjection::NodeOptions(v) => v@ == if node_options@.len() == 0 {
                            heap_flag(m@)
                        } else {
                            node_options@ + " "@ + heap_flag(m@)
                        },
                        _ => false,
                    },
                    Runtime::Deno => match r {
                        MemoryInjection::DenoV8Flag(v) => v@ == heap_flag(m@),
                        _ => false,
                    },
                    Runtime::Bun => r is Nothing,
                },
            },
    {
        match memory {
            None => MemoryInjection::Nothing,
            Some(m) => {
                let mut flag = String::from_str("--max-old-space-size=");
                flag.append(m);
                match self {
                    Runtime::Node => {
                        if node_options.unicode_len() == 0 {
                            MemoryInjection::NodeOptions(flag)
                        } else {
                            let mut v = String::from_str(node_options);
                            v.append(" ");
                            v.append(flag.as_str());
                            MemoryInjection::NodeOptions(v)
                        }
                    },
                    Runtime::Deno => MemoryInjection::DenoV8Flag(flag),
                    Runtime::Bun => MemoryInjection::Nothing,
                }
            },
        }
    }
}

} // verus!
