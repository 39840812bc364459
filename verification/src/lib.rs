//! Loading and unloading of Linux kernel modules.
//!
//! To load a module by its name, the library finds the module's file in the
//! module tree of a kernel, loads the modules that it needs, in the order in
//! which the tree's dependency manifest lists them, and then the module
//! itself. A needed module that the kernel holds already is passed over; any
//! other failure ends the work, and what was loaded before stays loaded.
//!
//! The library decides; it does not act. [`modprobe`], [`load`] and [`rmmod`]
//! each return the first [`Step`] of the work: a request to read a file or to
//! call the kernel. The caller carries it out and resumes with the answer.

use vstd::prelude::*;
use vstd::string::*;

pub mod error;
pub mod kernel;
pub mod laws;
pub mod loader;
pub mod manifest;
pub mod step;
pub mod text;

pub use crate::error::{Error, IoError, OsError};
pub use crate::step::Step;
use crate::step::{
    load_order, start_locating, Reading, ReadingView, Removing, Resolving, ResolvingView, StepView,
};

verus! {

/// The kernel whose module tree is used.
#[derive(Clone, Debug, PartialEq, Eq)]
pub enum Selection {
    /// The kernel that is running.
    Current,
    /// The kernel of the version given.
    Other(String),
}

/// A [`Selection`] with its text as a sequence of characters.
pub enum SelectionView {
    Current,
    Other(Seq<char>),
}

impl View for Selection {
    type V = SelectionView;

    open spec fn view(&self) -> SelectionView {
        match self {
            Selection::Current => SelectionView::Current,
            Selection::Other(version) => SelectionView::Other(version@),
        }
    }
}

/// How insistently a module is to be removed.
#[derive(Clone, Copy, Debug, PartialEq, Eq, Structural)]
pub enum Flags {
    /// Plain removal.
    Plain,
    /// Removal even of a module that is in use.
    Force,
    /// Removal that does not wait for the module to fall idle.
    Casual,
}

impl Flags {
    /// The flag word that the kernel's entry point for removal takes.
    pub open spec fn spec_bits(&self) -> u32 {
        match self {
            Flags::Plain => 0,
            Flags::Force => 0o5000,
            Flags::Casual => 0o4000,
        }
    }

    /// Computes the flag word: the bit of not waiting for `Casual`, that bit
    /// and the bit of truncation for `Force`.
    #[verifier::when_used_as_spec(spec_bits)]
    pub fn bits(&self) -> (word: u32)
        ensures
            word == self.spec_bits(),
    {
        assert(0o4000u32 | 0o1000u32 == 0o5000u32) by (bit_vector);
        match self {
            Flags::Plain => 0,
            Flags::Force => 0o4000 | 0o1000,
            Flags::Casual => 0o4000,
        }
    }
}

/// The first step of loading the module `name`: with a version given, the
/// order manifest of that kernel is read; else the running kernel is asked
/// which it is.
pub open spec fn probe(name: Seq<char>, params: Seq<char>, kernel: SelectionView) -> StepView {
    match kernel {
        SelectionView::Current => StepView::Uname { then: ResolvingView { name, params } },
        SelectionView::Other(version) => load_order(name, params, version),
    }
}

/// The first step of loading the module in the file at `path`: the file is
/// read.
pub open spec fn load_file(path: Seq<char>, params: Seq<char>) -> StepView {
    StepView::Read { path, then: ReadingView::Image { params } }
}

/// The only step of removing the module `name` but the last: the kernel is
/// asked to, with the flag word of `flags`.
pub open spec fn remove(name: Seq<char>, flags: Flags) -> StepView {
    StepView::Remove { name, flags: flags.spec_bits() }
}

/// Loads the module in the file at `path_str`, with the parameters `params`.
///
/// Returns the first step: the file is read. Resumed with its bytes, the
/// step's state asks for their insertion, whose outcome is the result.
/// Resumed with a failure, it ends the work with that failure.
pub fn load(path_str: &str, params: String) -> (step: Step)
    ensures
        step@ == load_file(path_str@, params@),
{
    Step::Read { path: path_str.to_owned(), then: Reading::Image { params } }
}

/// Loads the module `name` for the kernel selected, with the parameters
/// `params`, after the modules that it needs.
///
/// Returns the first step. Resumed with each answer, the steps that follow
/// read the order manifest and the dependency manifest of the kernel, then
/// read and insert each needed module, without parameters, and at last the
/// module itself.
pub fn modprobe(name: String, params: String, kernel: Selection) -> (step: Step)
    ensures
        step@ == probe(name@, params@, kernel@),
{
    match kernel {
        Selection::Current => Step::Uname { then: Resolving { name, params } },
        Selection::Other(version) => start_locating(name, params, version),
    }
}

/// Removes the module `name` from the running kernel.
///
/// Returns the first step: the kernel is asked to remove the module, with
/// the flag word `0` for `Plain`, `0o5000` for `Force` and `0o4000` for
/// `Casual`. The outcome of the removal is the result.
pub fn rmmod(name: String, flags: Flags) -> (step: Step)
    ensures
        step@ == remove(name@, flags),
{
    Step::Remove { name, flags: flags.bits(), then: Removing {  } }
}

} // verus!
