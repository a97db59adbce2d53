//! The mode a project runs in.
use vstd::prelude::*;

verus! {

/// Development or production.
#[derive(Clone, Copy, Debug, PartialEq, Eq, Structural)]
pub enum Mode {
    Dev,
    Prod,
}

/// The name of a mode in environment file names.
pub open spec fn spec_mode_name(mode: Mode) -> Seq<char> {
    match mode {
        Mode::Dev => "development"@,
        Mode::Prod => "production"@,
    }
}

/// The mode as Rust source, as it is written into generated code.
pub open spec fn spec_mode_source(mode: Mode) -> Seq<char> {
    match mode {
        Mode::Dev => "Mode::Dev"@,
        Mode::Prod => "Mode::Prod"@,
    }
}

impl Mode {
    /// The mode as Rust source: `Mode::Dev` or `Mode::Prod`.
    pub fn as_str(&self) -> (res: &'static str)
        ensures
            res@ == spec_mode_source(*self),
    {
        match self {
            Mode::Dev => "Mode::Dev",
            Mode::Prod => "Mode::Prod",
        }
    }

    /// The name of the mode in environment file names:
    /// `development` or `production`.
    pub fn name(&self) -> (res: &'static str)
        ensures
            res@ == spec_mode_name(*self),
    {
        match self {
            Mode::Dev => "development",
            Mode::Prod => "production",
        }
    }
}

} // verus!
