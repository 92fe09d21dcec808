//! Compiler options, as far as the session reads them.

use vstd::prelude::*;

verus! {

/// The source language.
#[derive(Clone, Copy, Debug, PartialEq, Eq, Hash, Structural)]
pub enum Language {
    Solidity,
    Yul,
}

/// A stage of the compiler, in the order in which the stages run.
#[derive(Clone, Copy, Debug, PartialEq, Eq, PartialOrd, Ord, Hash, Structural)]
pub enum CompilerStage {
    /// Source code was parsed.
    Parsed,
    /// The syntax tree was lowered.
    Lowered,
    /// The program was analysed.
    Analyzed,
}

impl CompilerStage {
    /// The place of the stage in the order of the stages.
    pub open spec fn spec_rank(self) -> int {
        match self {
            CompilerStage::Parsed => 0,
            CompilerStage::Lowered => 1,
            CompilerStage::Analyzed => 2,
        }
    }

    /// The place of the stage in the order of the stages.
    #[verifier::when_used_as_spec(spec_rank_u8)]
    pub fn rank(self) -> (n: u8)
        ensures
            n == self.spec_rank(),
    {
        match self {
            CompilerStage::Parsed => 0,
            CompilerStage::Lowered => 1,
            CompilerStage::Analyzed => 2,
        }
    }

    /// The rank as the executable function gives it.
    pub open spec fn spec_rank_u8(self) -> u8 {
        self.spec_rank() as u8
    }
}

/// A kind of output that the compiler can be asked for.
#[derive(Clone, Copy, Debug, PartialEq, Eq, Hash, Structural)]
pub enum CompilerOutput {
    /// JSON ABI.
    Abi,
    /// Function signature hashes.
    Hashes,
}

impl CompilerOutput {
    /// The name of the output kind, as it is written on the command line.
    pub open spec fn spec_name(self) -> Seq<char> {
        match self {
            CompilerOutput::Abi => "abi"@,
            CompilerOutput::Hashes => "hashes"@,
        }
    }

    /// The name of the output kind, as it is written on the command line.
    pub fn name(self) -> (name: &'static str)
        ensures
            name@ == self.spec_name(),
    {
        match self {
            CompilerOutput::Abi => "abi",
            CompilerOutput::Hashes => "hashes",
        }
    }
}

/// Unstable flags. The session hands them on and reads none of them.
#[derive(Clone, Debug, Default)]
pub struct UnstableOpts {
    /// The flags as they were given.
    pub flags: Vec<String>,
}

/// The number of threads that stands for "no parallelism".
pub const SINGLE_THREADED: usize = 1;

/// The number of threads to use: the number asked for, and for zero the
/// number of logical cores, but at least one.
pub open spec fn resolved_threads(requested: usize, logical_cores: usize) -> usize {
    if requested != 0 {
        requested
    } else if logical_cores != 0 {
        logical_cores
    } else {
        1
    }
}

/// Resolves the number of threads to use. Zero asks for as many as there
/// are logical cores.
pub fn resolve_threads(requested: usize, logical_cores: usize) -> (threads: usize)
    ensures
        threads == resolved_threads(requested, logical_cores),
        threads > 0,
{
    if requested != 0 {
        requested
    } else if logical_cores != 0 {
        logical_cores
    } else {
        1
    }
}

/// Compiler options.
#[derive(Debug)]
pub struct Opts {
    /// The files to compile.
    pub input: Vec<String>,
    /// The source language.
    pub language: Language,
    /// The number of threads asked for. Zero asks for as many as there are
    /// logical cores.
    pub threads: usize,
    /// The kinds of output asked for, in the order in which they were given.
    pub emit: Vec<CompilerOutput>,
    /// The stage after which the compiler stops, if it is to stop early.
    pub stop_after: Option<CompilerStage>,
    /// Unstable flags.
    pub unstable: UnstableOpts,
}

impl Default for Opts {
    fn default() -> (opts: Self)
        ensures
            opts.input@.len() == 0,
            opts.language == Language::Solidity,
            opts.threads == 0,
            opts.emit@.len() == 0,
            opts.stop_after is None,
            opts.unstable.flags@.len() == 0,
    {
        Opts {
            input: Vec::new(),
            language: Language::Solidity,
            threads: 0,
            emit: Vec::new(),
            stop_after: None,
            unstable: UnstableOpts { flags: Vec::new() },
        }
    }
}

} // verus!
