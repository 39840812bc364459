//! The work as a sequence of steps.
//!
//! The library touches neither the file system nor the kernel. Each of its
//! entry points returns a [`Step`]: a request to the caller, with the state
//! that is to be resumed with the answer. The caller carries the request out,
//! resumes, and gets the next step, until a step is [`Step::Done`]. What comes
//! after each answer is decided here.

use vstd::prelude::*;
use vstd::string::*;
use vstd::utf8::{decode_utf8, valid_utf8};
use crate::error::{Error, ErrorView, IoError, OsError};
use crate::kernel::{text_of, Utsname};
use crate::manifest::{dependencies_of, find_dependencies, find_path, path_of};

verus! {

/// What is left to load for a module: the modules it needs that have not been
/// tried yet, in order, and then the module itself.
#[derive(Clone, Debug, PartialEq, Eq)]
pub struct Plan {
    /// The version of the kernel whose module tree is used.
    pub version: String,
    /// The relative paths of the needed modules that are still to be loaded.
    pub pending: Vec<String>,
    /// The relative path of the module itself.
    pub module: String,
    /// The parameters that the module itself is inserted with.
    pub params: String,
}

/// State: the running kernel has been asked which it is.
#[derive(Clone, Debug, PartialEq, Eq)]
pub struct Resolving {
    pub name: String,
    pub params: String,
}

/// State: a file is being read.
#[derive(Clone, Debug, PartialEq, Eq)]
pub enum Reading {
    /// The order manifest, to find the module `name` in it.
    Order { name: String, params: String, version: String },
    /// The dependency manifest, to find what the module at `module` needs.
    Dependencies { module: String, params: String, version: String },
    /// The image of a needed module; `plan` holds what comes after it.
    Dependency { plan: Plan },
    /// The image of the module that the call is about.
    Image { params: String },
}

/// State: the kernel has been handed an image.
#[derive(Clone, Debug, PartialEq, Eq)]
pub enum Inserting {
    /// The image of a needed module; `plan` holds what comes after it.
    Dependency { plan: Plan },
    /// The image of the module that the call is about.
    Image,
}

/// State: the kernel has been asked to remove a module.
#[derive(Clone, Copy, Debug, PartialEq, Eq)]
pub struct Removing {}

/// A request to the caller, or the end of the work.
#[derive(Debug, PartialEq, Eq)]
#[allow(inconsistent_fields)]
pub enum Step {
    /// Ask the running kernel which it is, and resume `then` with the answer.
    Uname { then: Resolving },
    /// Read the file at `path` whole, and resume `then` with its bytes.
    Read { path: String, then: Reading },
    /// Hand `image`, its length and `params` to the kernel's entry point
    /// that inserts a module, and resume `then` with what it returned.
    Insert { image: Vec<u8>, params: String, then: Inserting },
    /// Hand `name` and `flags` to the kernel's entry point that removes a
    /// module, and resume `then` with what it returned.
    Remove { name: String, flags: u32, then: Removing },
    /// Nothing is left to do: this is the result of the call.
    Done { result: Result<(), Error> },
}

/// A [`Plan`] with its texts as sequences of characters.
pub struct PlanView {
    pub version: Seq<char>,
    pub pending: Seq<Seq<char>>,
    pub module: Seq<char>,
    pub params: Seq<char>,
}

/// A [`Resolving`] with its texts as sequences of characters.
pub struct ResolvingView {
    pub name: Seq<char>,
    pub params: Seq<char>,
}

/// A [`Reading`] with its texts as sequences of characters.
pub enum ReadingView {
    Order { name: Seq<char>, params: Seq<char>, version: Seq<char> },
    Dependencies { module: Seq<char>, params: Seq<char>, version: Seq<char> },
    Dependency { plan: PlanView },
    Image { params: Seq<char> },
}

/// An [`Inserting`] with its texts as sequences of characters.
pub enum InsertingView {
    Dependency { plan: PlanView },
    Image,
}

/// A [`Step`] with its texts and bytes as sequences.
#[allow(inconsistent_fields)]
pub enum StepView {
    Uname { then: ResolvingView },
    Read { path: Seq<char>, then: ReadingView },
    Insert { image: Seq<u8>, params: Seq<char>, then: InsertingView },
    Remove { name: Seq<char>, flags: u32 },
    Done { result: Result<(), ErrorView> },
}

impl View for Plan {
    type V = PlanView;

    open spec fn view(&self) -> PlanView {
        PlanView {
            version: self.version@,
            pending: self.pending.deep_view(),
            module: self.module@,
            params: self.params@,
        }
    }
}

impl View for Resolving {
    type V = ResolvingView;

    open spec fn view(&self) -> ResolvingView {
        ResolvingView { name: self.name@, params: self.params@ }
    }
}

impl View for Reading {
    type V = ReadingView;

    open spec fn view(&self) -> ReadingView {
        match self {
            Reading::Order { name, params, version } => ReadingView::Order {
                name: name@,
                params: params@,
                version: version@,
            },
            Reading::Dependencies { module, params, version } => ReadingView::Dependencies {
                module: module@,
                params: params@,
                version: version@,
            },
            Reading::Dependency { plan } => ReadingView::Dependency { plan: plan@ },
            Reading::Image { params } => ReadingView::Image { params: params@ },
        }
    }
}

impl View for Inserting {
    type V = InsertingView;

    open spec fn view(&self) -> InsertingView {
        match self {
            Inserting::Dependency { plan } => InsertingView::Dependency { plan: plan@ },
            Inserting::Image => InsertingView::Image,
        }
    }
}

impl View for Step {
    type V = StepView;

    open spec fn view(&self) -> StepView {
        match self {
            Step::Uname { then } => StepView::Uname { then: then@ },
            Step::Read { path, then } => StepView::Read { path: path@, then: then@ },
            Step::Insert { image, params, then } => StepView::Insert {
                image: image@,
                params: params@,
                then: then@,
            },
            Step::Remove { name, flags, then } => StepView::Remove { name: name@, flags: *flags },
            Step::Done { result } => StepView::Done {
                result: match result {
                    Ok(_) => Ok(()),
                    Err(e) => Err(e@),
                },
            },
        }
    }
}

/// The directory of the modules of the kernel `version`.
pub open spec fn tree(version: Seq<char>) -> Seq<char> {
    "/lib/modules/"@ + version
}

/// The path of the order manifest of the kernel `version`.
pub open spec fn order_manifest(version: Seq<char>) -> Seq<char> {
    tree(version) + "/modules.order"@
}

/// The path of the dependency manifest of the kernel `version`.
pub open spec fn dep_manifest(version: Seq<char>) -> Seq<char> {
    tree(version) + "/modules.dep"@
}

/// The path of the file that stands at `relative` in the module tree of the
/// kernel `version`.
pub open spec fn file_in_tree(version: Seq<char>, relative: Seq<char>) -> Seq<char> {
    tree(version) + "/"@ + relative
}

/// The step that ends the work with a failure.
pub open spec fn failed(error: ErrorView) -> StepView {
    StepView::Done { result: Err(error) }
}

/// The step that ends the work well.
pub open spec fn succeeded() -> StepView {
    StepView::Done { result: Ok(()) }
}

/// The first step for a module once the kernel's version is known: the order
/// manifest is read, to find the module `name` in it.
pub open spec fn load_order(name: Seq<char>, params: Seq<char>, version: Seq<char>) -> StepView {
    StepView::Read {
        path: order_manifest(version),
        then: ReadingView::Order { name, params, version },
    }
}

/// The step after the module's file was found: the dependency manifest is
/// read, to find what the module at `module` needs.
pub open spec fn load_dependencies(
    module: Seq<char>,
    params: Seq<char>,
    version: Seq<char>,
) -> StepView {
    StepView::Read {
        path: dep_manifest(version),
        then: ReadingView::Dependencies { module, params, version },
    }
}

/// The step that a plan asks for: the image of the first module that is
/// pending is read; where none is, the image of the module itself.
pub open spec fn proceed(plan: PlanView) -> StepView {
    if plan.pending.len() > 0 {
        StepView::Read {
            path: file_in_tree(plan.version, plan.pending[0]),
            then: ReadingView::Dependency {
                plan: PlanView { pending: plan.pending.drop_first(), ..plan },
            },
        }
    } else {
        StepView::Read {
            path: file_in_tree(plan.version, plan.module),
            then: ReadingView::Image { params: plan.params },
        }
    }
}

/// What follows the kernel's answer to the question which it is.
///
/// A status other than zero is a failure, with the error number `errno`.
/// Else the answer's release is the version of the kernel, if it is UTF-8.
pub open spec fn after_uname(
    state: ResolvingView,
    status: i32,
    errno: i32,
    answer: Utsname,
) -> StepView {
    if status != 0 {
        failed(ErrorView::Os(OsError { code: errno }))
    } else if !valid_utf8(answer.release_bytes()) {
        failed(ErrorView::Decoding)
    } else {
        load_order(state.name, state.params, decode_utf8(answer.release_bytes()))
    }
}

/// What follows the reading of a file.
///
/// A manifest that cannot be read, or is not UTF-8, ends the work, and so
/// does an order manifest without the module. The image of a needed module
/// that cannot be read ends the work too, unless the failure is that something
/// exists already: then the module is passed over. An image that was read is
/// handed to the kernel: that of a needed module without parameters.
pub open spec fn after_read(state: ReadingView, answer: Result<Seq<u8>, IoError>) -> StepView {
    match state {
        ReadingView::Order { name, params, version } => match answer {
            Err(e) => failed(ErrorView::Io(e)),
            Ok(bytes) => if !valid_utf8(bytes) {
                failed(ErrorView::Decoding)
            } else {
                match path_of(decode_utf8(bytes), name) {
                    None => failed(ErrorView::ModuleNotProvided { kernel_version: version }),
                    Some(module) => load_dependencies(module, params, version),
                }
            },
        },
        ReadingView::Dependencies { module, params, version } => match answer {
            Err(e) => failed(ErrorView::Io(e)),
            Ok(bytes) => if !valid_utf8(bytes) {
                failed(ErrorView::Decoding)
            } else {
                proceed(
                    PlanView {
                        version,
                        pending: dependencies_of(decode_utf8(bytes), module),
                        module,
                        params,
                    },
                )
            },
        },
        ReadingView::Dependency { plan } => match answer {
            Err(e) => if e.already_exists() {
                proceed(plan)
            } else {
                failed(ErrorView::Io(e))
            },
            Ok(bytes) => StepView::Insert {
                image: bytes,
                params: Seq::<char>::empty(),
                then: InsertingView::Dependency { plan },
            },
        },
        ReadingView::Image { params } => match answer {
            Err(e) => failed(ErrorView::Io(e)),
            Ok(bytes) => StepView::Insert { image: bytes, params, then: InsertingView::Image },
        },
    }
}

/// What the kernel's entry point for insertion says by `status` and `errno`:
/// a status of zero is success, any other a failure with the error number
/// `errno`.
pub open spec fn insertion(status: i64, errno: i32) -> Result<(), OsError> {
    if status == 0 {
        Ok(())
    } else {
        Err(OsError { code: errno })
    }
}

/// What the kernel's entry point for removal says by `status` and `errno`:
/// a status of -1 is a failure with the error number `errno`, any other
/// success.
pub open spec fn removal(status: i64, errno: i32) -> Result<(), OsError> {
    if status == -1 {
        Err(OsError { code: errno })
    } else {
        Ok(())
    }
}

/// What follows an insertion.
///
/// For the module that the call is about, the insertion's outcome is the
/// result. For a needed module, the plan goes on after a success and after
/// the failure that the module exists already; any other failure ends the
/// work.
pub open spec fn after_insert(state: InsertingView, status: i64, errno: i32) -> StepView {
    match state {
        InsertingView::Dependency { plan } => match insertion(status, errno) {
            Ok(_) => proceed(plan),
            Err(e) => if e.already_exists() {
                proceed(plan)
            } else {
                failed(ErrorView::Os(e))
            },
        },
        InsertingView::Image => match insertion(status, errno) {
            Ok(_) => succeeded(),
            Err(e) => failed(ErrorView::Os(e)),
        },
    }
}

/// What follows a removal: its outcome is the result.
pub open spec fn after_remove(status: i64, errno: i32) -> StepView {
    match removal(status, errno) {
        Ok(_) => succeeded(),
        Err(e) => failed(ErrorView::Os(e)),
    }
}

/// The bytes that were read, or why none were.
pub open spec fn read_view(answer: Result<Vec<u8>, IoError>) -> Result<Seq<u8>, IoError> {
    match answer {
        Ok(bytes) => Ok(bytes@),
        Err(e) => Err(e),
    }
}

/// Builds the path of the module tree of the kernel `version`.
pub fn tree_path(version: &str) -> (path: String)
    ensures
        path@ == tree(version@),
{
    let mut path = String::from_str("/lib/modules/");
    path.append(version);
    path
}

/// Builds the path of the order manifest of the kernel `version`.
pub fn order_manifest_path(version: &str) -> (path: String)
    ensures
        path@ == order_manifest(version@),
{
    let mut path = tree_path(version);
    path.append("/modules.order");
    path
}

/// Builds the path of the dependency manifest of the kernel `version`.
pub fn dep_manifest_path(version: &str) -> (path: String)
    ensures
        path@ == dep_manifest(version@),
{
    let mut path = tree_path(version);
    path.append("/modules.dep");
    path
}

/// Builds the path of the file at `relative` in the module tree of the
/// kernel `version`.
pub fn path_in_tree(version: &str, relative: &str) -> (path: String)
    ensures
        path@ == file_in_tree(version@, relative@),
{
    let mut path = tree_path(version);
    path.append("/");
    path.append(relative);
    path
}

/// Ends the work with a failure.
pub fn fail(error: Error) -> (step: Step)
    ensures
        step@ == failed(error@),
{
    Step::Done { result: Err(error) }
}

/// Begins the search for the module `name` in the tree of the kernel
/// `version`.
pub fn start_locating(name: String, params: String, version: String) -> (step: Step)
    ensures
        step@ == load_order(name@, params@, version@),
{
    let path = order_manifest_path(version.as_str());
    Step::Read { path, then: Reading::Order { name, params, version } }
}

impl Plan {
    /// Asks for what the plan holds next: the image of the first module that
    /// is pending, or that of the module itself.
    pub fn proceed(self) -> (step: Step)
        ensures
            step@ == proceed(self@),
    {
        let mut plan = self;
        if plan.pending.len() > 0 {
            let ghost before = plan.pending.deep_view();
            let first = plan.pending.remove(0);
            assert(plan.pending.deep_view() =~= before.drop_first());
            assert(first@ == before[0]);
            let path = path_in_tree(plan.version.as_str(), first.as_str());
            Step::Read { path, then: Reading::Dependency { plan } }
        } else {
            let path = path_in_tree(plan.version.as_str(), plan.module.as_str());
            Step::Read { path, then: Reading::Image { params: plan.params } }
        }
    }
}

impl Resolving {
    /// Takes the kernel's answer to the question which it is: what the call
    /// returned, the error number that it left, and what it filled in.
    pub fn resume(self, status: i32, errno: i32, answer: &Utsname) -> (step: Step)
        ensures
            step@ == after_uname(self@, status, errno, *answer),
    {
        if status != 0 {
            return fail(Error::Os(OsError { code: errno }));
        }
        match answer.release_text() {
            Ok(version) => start_locating(self.name, self.params, version),
            Err(e) => fail(e),
        }
    }
}

impl Reading {
    /// Takes the bytes of the file that was to be read, or the reason why
    /// there are none.
    pub fn resume(self, answer: Result<Vec<u8>, IoError>) -> (step: Step)
        ensures
            step@ == after_read(self@, read_view(answer)),
    {
        match self {
            Reading::Order { name, params, version } => {
                let bytes = match answer {
                    Ok(bytes) => bytes,
                    Err(e) => {
                        return fail(Error::Io(e));
                    },
                };
                let order = match text_of(bytes) {
                    Some(text) => text,
                    None => {
                        return fail(Error::Decoding);
                    },
                };
                match find_path(order.as_str(), name.as_str()) {
                    Some(module) => {
                        let path = dep_manifest_path(version.as_str());
                        Step::Read { path, then: Reading::Dependencies { module, params, version } }
                    },
                    None => fail(Error::ModuleNotProvided { kernel_version: version }),
                }
            },
            Reading::Dependencies { module, params, version } => {
                let bytes = match answer {
                    Ok(bytes) => bytes,
                    Err(e) => {
                        return fail(Error::Io(e));
                    },
                };
                let dep = match text_of(bytes) {
                    Some(text) => text,
                    None => {
                        return fail(Error::Decoding);
                    },
                };
                let pending = find_dependencies(dep.as_str(), module.as_str());
                let plan = Plan { version, pending, module, params };
                plan.proceed()
            },
            Reading::Dependency { plan } => match answer {
                Ok(image) => Step::Insert {
                    image,
                    params: String::new(),
                    then: Inserting::Dependency { plan },
                },
                Err(e) => if e.already_exists() {
                    plan.proceed()
                } else {
                    fail(Error::Io(e))
                },
            },
            Reading::Image { params } => match answer {
                Ok(image) => Step::Insert { image, params, then: Inserting::Image },
                Err(e) => fail(Error::Io(e)),
            },
        }
    }
}

/// Reads what the kernel's entry point for insertion returned.
pub fn insertion_outcome(status: i64, errno: i32) -> (outcome: Result<(), OsError>)
    ensures
        outcome == insertion(status, errno),
{
    if status == 0 {
        Ok(())
    } else {
        Err(OsError { code: errno })
    }
}

/// Reads what the kernel's entry point for removal returned.
pub fn removal_outcome(status: i64, errno: i32) -> (outcome: Result<(), OsError>)
    ensures
        outcome == removal(status, errno),
{
    if status == -1 {
        Err(OsError { code: errno })
    } else {
        Ok(())
    }
}

impl Inserting {
    /// Takes what the kernel's entry point for insertion returned, and the
    /// error number that it left.
    pub fn resume(self, status: i64, errno: i32) -> (step: Step)
        ensures
            step@ == after_insert(self@, status, errno),
    {
        let outcome = insertion_outcome(status, errno);
        match self {
            Inserting::Dependency { plan } => match outcome {
                Ok(_) => plan.proceed(),
                Err(e) => if e.already_exists() {
                    plan.proceed()
                } else {
                    fail(Error::Os(e))
                },
            },
            Inserting::Image => match outcome {
                Ok(_) => Step::Done { result: Ok(()) },
                Err(e) => fail(Error::Os(e)),
            },
        }
    }
}

impl Removing {
    /// Takes what the kernel's entry point for removal returned, and the
    /// error number that it left.
    pub fn resume(self, status: i64, errno: i32) -> (step: Step)
        ensures
            step@ == after_remove(status, errno),
    {
        match removal_outcome(status, errno) {
            Ok(_) => Step::Done { result: Ok(()) },
            Err(e) => fail(Error::Os(e)),
        }
    }
}

} // verus!
