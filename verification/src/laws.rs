//! What holds of every course that the work can take.
//!
//! A course is the sequence of steps that the library asks for when the
//! caller answers each step in turn. The laws here are stated of every
//! sequence of answers that meets their conditions, whatever the file system
//! and the kernel say.

use vstd::prelude::*;
use vstd::utf8::{decode_utf8, valid_utf8};
use crate::error::{ErrorView, IoError, OsError, EEXIST};
use crate::kernel::Utsname;
use crate::manifest::{dependencies_of, path_of};
use crate::loader::insert;
use crate::step::{
    after_insert, after_read, after_remove, after_uname, failed, file_in_tree, load_dependencies,
    load_order, proceed, InsertingView, PlanView, ReadingView, StepView,
};
use crate::{load_file, probe, SelectionView};

verus! {

/// What the caller hands back for a step.
pub enum Answer {
    /// For a step that asks which kernel is running.
    Uname { returned: i32, errno: i32, filled: Utsname },
    /// For a step that reads a file.
    Read { outcome: Result<Seq<u8>, IoError> },
    /// For a step that inserts or removes a module.
    Status { status: i64, errno: i32 },
}

/// The step that follows `step` when it is answered by `answer`. An answer
/// that is of another step's kind changes nothing, nor does any answer to the
/// last step.
pub open spec fn next(step: StepView, answer: Answer) -> StepView {
    match (step, answer) {
        (StepView::Uname { then }, Answer::Uname { returned, errno, filled }) => after_uname(
            then,
            returned,
            errno,
            filled,
        ),
        (StepView::Read { then, .. }, Answer::Read { outcome }) => after_read(then, outcome),
        (StepView::Insert { then, .. }, Answer::Status { status, errno }) => after_insert(
            then,
            status,
            errno,
        ),
        (StepView::Remove { .. }, Answer::Status { status, errno }) => after_remove(status, errno),
        _ => step,
    }
}

/// The course that begins with `first` and goes on by `answers`: one step
/// more than there are answers, each following the one before it by the
/// answer of that position.
pub open spec fn course(first: StepView, answers: Seq<Answer>) -> Seq<StepView>
    decreases answers.len(),
{
    if answers.len() == 0 {
        seq![first]
    } else {
        let before = course(first, answers.drop_last());
        before.push(next(before.last(), answers.last()))
    }
}

/// The step calls the kernel to insert or to remove a module.
pub open spec fn changes_kernel(step: StepView) -> bool {
    step is Insert || step is Remove
}

/// The failure is one that is passed over when a needed module is loaded.
pub open spec fn tolerated(status: i64, errno: i32) -> bool {
    status == 0 || errno == EEXIST
}

/// The position of the step that reads the image of the `i`-th module of a
/// plan, where the plan's first step stands at `at`: two steps are taken for
/// each module. The position after the last pending module is that of the
/// module itself.
pub open spec fn reading(at: int, i: int) -> int {
    at + 2 * i
}

/// The position of the step that inserts the image of the `i`-th module of a
/// plan, where the plan's first step stands at `at`.
pub open spec fn inserting(at: int, i: int) -> int {
    at + 2 * i + 1
}

/// Every read of a plan succeeds, and every insertion of a pending module
/// succeeds or fails because the module exists already: the answers from
/// position `at` on, two for each of `count` pending modules, and the one to
/// the reading of the module itself.
pub open spec fn plan_goes_well(answers: Seq<Answer>, at: int, count: int) -> bool {
    &&& 0 <= at
    &&& 0 <= count
    &&& reading(at, count) < answers.len()
    &&& forall|i: int|
        0 <= i <= count ==> (#[trigger] answers[reading(at, i)] matches Answer::Read { outcome }
            && outcome is Ok)
    &&& forall|i: int|
        0 <= i < count ==> (#[trigger] answers[inserting(at, i)] matches Answer::Status {
            status,
            errno,
        } && tolerated(status, errno))
}

/// The bytes that the answer at a position of a course gave for a read.
pub open spec fn bytes_read(answers: Seq<Answer>, position: int) -> Seq<u8> {
    answers[position]->outcome->Ok_0
}

/// A course has one step more than it has answers, begins with its first
/// step, and each later step follows the one before it by that step's answer.
pub proof fn lemma_course(first: StepView, answers: Seq<Answer>)
    ensures
        course(first, answers).len() == answers.len() + 1,
        course(first, answers)[0] == first,
        forall|i: int|
            1 <= i <= answers.len() ==> #[trigger] course(first, answers)[i] == next(
                course(first, answers)[i - 1],
                answers[i - 1],
            ),
    decreases answers.len(),
{
    if answers.len() > 0 {
        let shorter = answers.drop_last();
        lemma_course(first, shorter);
        let before = course(first, shorter);
        let all = course(first, answers);
        assert forall|i: int| 1 <= i <= answers.len() implies #[trigger] all[i] == next(
            all[i - 1],
            answers[i - 1],
        ) by {
            if i <= shorter.len() {
                assert(all[i] == before[i]);
                assert(shorter[i - 1] == answers[i - 1]);
            }
        }
    }
}

/// Once the work is done, it stays done: every later step of the course is
/// the same.
pub proof fn lemma_done_is_final(first: StepView, answers: Seq<Answer>, at: int, later: int)
    requires
        0 <= at <= later <= answers.len(),
        course(first, answers)[at] is Done,
    ensures
        course(first, answers)[later] == course(first, answers)[at],
    decreases later - at,
{
    lemma_course(first, answers);
    if at < later {
        lemma_done_is_final(first, answers, at, later - 1);
        assert(course(first, answers)[later] == next(
            course(first, answers)[later - 1],
            answers[later - 1],
        ));
    }
}

/// Each step of a course but the first follows the one before it by that
/// step's answer.
pub proof fn lemma_step(first: StepView, answers: Seq<Answer>, i: int)
    requires
        1 <= i <= answers.len(),
    ensures
        course(first, answers)[i] == next(course(first, answers)[i - 1], answers[i - 1]),
{
    lemma_course(first, answers);
}

/// The two steps that a plan takes for its first pending module, when the
/// module's image is read and its insertion succeeds or fails because the
/// module exists already: the image is inserted without parameters, and the
/// plan goes on without the module.
pub proof fn lemma_round(plan: PlanView, bytes: Seq<u8>, status: i64, errno: i32)
    requires
        plan.pending.len() > 0,
        tolerated(status, errno),
    ensures
        ({
            let rest = PlanView { pending: plan.pending.drop_first(), ..plan };
            let inserted = next(proceed(plan), Answer::Read { outcome: Ok(bytes) });
            &&& proceed(plan) matches StepView::Read { path, .. } && path == file_in_tree(
                plan.version,
                plan.pending[0],
            )
            &&& inserted matches StepView::Insert { image, params, .. } && image == bytes
                && params == Seq::<char>::empty()
            &&& next(inserted, Answer::Status { status, errno }) == proceed(rest)
        }),
{
}

/// How far a step is on the way of a probe: the kernel is asked which it is,
/// then the order manifest is read, then comes all the rest, then the end.
spec fn stage(step: StepView) -> int {
    match step {
        StepView::Uname { .. } => 0,
        StepView::Read { then: ReadingView::Order { .. }, .. } => 1,
        StepView::Done { .. } => 3,
        _ => 2,
    }
}

/// No answer takes a step back to an earlier stage.
proof fn lemma_stage_of_next(step: StepView, answer: Answer)
    ensures
        stage(step) <= stage(next(step, answer)),
{
}

/// No step of a course is at an earlier stage than a step before it.
proof fn lemma_stage_never_falls(first: StepView, answers: Seq<Answer>, early: int, late: int)
    requires
        0 <= early <= late <= answers.len(),
    ensures
        stage(course(first, answers)[early]) <= stage(course(first, answers)[late]),
    decreases late - early,
{
    if early < late {
        lemma_stage_never_falls(first, answers, early, late - 1);
        lemma_step(first, answers, late);
        lemma_stage_of_next(course(first, answers)[late - 1], answers[late - 1]);
    }
}

/// A module that the order manifest does not list is not provided, and
/// nothing is asked of the kernel for it.
///
/// Take any course in which the step at `at` reads the order manifest for the
/// module `name`; `version` is the version that was given, or that the running
/// kernel answered. Let the manifest be read, and let no line of it name the
/// module. Then the next step ends the work with the failure that the kernel
/// of that version does not provide the module, and no step of the course,
/// before or after, inserts or removes a module.
pub proof fn law_unlisted_module_is_not_provided(
    first: StepView,
    answers: Seq<Answer>,
    at: int,
    name: Seq<char>,
    params: Seq<char>,
    version: Seq<char>,
    order: Seq<u8>,
)
    requires
        0 <= at < answers.len(),
        course(first, answers)[at] == load_order(name, params, version),
        answers[at] == (Answer::Read { outcome: Ok(order) }),
        valid_utf8(order),
        path_of(decode_utf8(order), name) is None,
    ensures
        forall|i: int|
            at < i <= answers.len() ==> #[trigger] course(first, answers)[i] == failed(
                ErrorView::ModuleNotProvided { kernel_version: version },
            ),
        forall|i: int|
            0 <= i <= answers.len() ==> !changes_kernel(#[trigger] course(first, answers)[i]),
{
    let steps = course(first, answers);
    lemma_step(first, answers, at + 1);
    assert forall|i: int| at < i <= answers.len() implies #[trigger] steps[i] == failed(
        ErrorView::ModuleNotProvided { kernel_version: version },
    ) by {
        lemma_done_is_final(first, answers, at + 1, i);
    }
    assert forall|i: int| 0 <= i <= answers.len() implies !changes_kernel(#[trigger] steps[i]) by {
        if i <= at {
            lemma_stage_never_falls(first, answers, i, at);
        }
    }
}

/// What a plan has pending is loaded in order, and then the module itself.
///
/// Take a course in which the step at `at` is the one that a plan asks for,
/// and let the plan go well from there. Then, two steps for each, the image
/// of each pending module is read from its place in the tree and inserted as
/// it was read, without parameters, in the order of the plan; after the
/// last, the image of the module itself is read, and inserted as it was read,
/// with the parameters of the plan.
pub proof fn law_plan_is_carried_out(
    first: StepView,
    answers: Seq<Answer>,
    at: int,
    plan: PlanView,
)
    requires
        plan_goes_well(answers, at, plan.pending.len() as int),
        course(first, answers)[at] == proceed(plan),
    ensures
        forall|i: int|
            0 <= i < plan.pending.len() ==> (#[trigger] course(first, answers)[reading(
                at,
                i,
            )] matches StepView::Read { path, .. } && path == file_in_tree(
                plan.version,
                plan.pending[i],
            )),
        forall|i: int|
            0 <= i < plan.pending.len() ==> (#[trigger] course(first, answers)[inserting(
                at,
                i,
            )] matches StepView::Insert { image, params, .. } && image == bytes_read(
                answers,
                reading(at, i),
            ) && params == Seq::<char>::empty()),
        course(first, answers)[reading(at, plan.pending.len() as int)] == load_file(
            file_in_tree(plan.version, plan.module),
            plan.params,
        ),
        course(first, answers)[inserting(at, plan.pending.len() as int)] == insert(
            bytes_read(answers, reading(at, plan.pending.len() as int)),
            plan.params,
        ),
    decreases plan.pending.len(),
{
    let steps = course(first, answers);
    let count = plan.pending.len() as int;
    assert(answers[reading(at, 0)] is Read);
    let bytes = bytes_read(answers, at);
    lemma_step(first, answers, at + 1);
    if count == 0 {
        assert(steps[at + 1] == insert(bytes, plan.params));
    } else {
        let rest = PlanView { pending: plan.pending.drop_first(), ..plan };
        assert(answers[inserting(at, 0)] is Status);
        let status = answers[at + 1]->status;
        let errno = answers[at + 1]->Status_errno;
        lemma_round(plan, bytes, status, errno);
        lemma_step(first, answers, at + 2);
        assert(steps[at + 1] == next(proceed(plan), Answer::Read { outcome: Ok(bytes) }));
        assert(steps[at + 2] == proceed(rest));
        assert(plan_goes_well(answers, at + 2, count - 1)) by {
            assert forall|i: int| 0 <= i <= count - 1 implies (#[trigger] answers[reading(
                at + 2,
                i,
            )] matches Answer::Read { outcome } && outcome is Ok) by {
                assert(answers[reading(at, i + 1)] is Read);
            }
            assert forall|i: int| 0 <= i < count - 1 implies (#[trigger] answers[inserting(
                at + 2,
                i,
            )] matches Answer::Status { status, errno } && tolerated(status, errno)) by {
                assert(answers[inserting(at, i + 1)] is Status);
            }
        }
        law_plan_is_carried_out(first, answers, at + 2, rest);
        assert forall|i: int| 0 <= i < count implies (#[trigger] steps[reading(
            at,
            i,
        )] matches StepView::Read { path, .. } && path == file_in_tree(
            plan.version,
            plan.pending[i],
        )) by {
            if i > 0 {
                assert(reading(at + 2, i - 1) == reading(at, i));
                assert(steps[reading(at + 2, i - 1)] is Read);
                assert(rest.pending[i - 1] == plan.pending[i]);
            }
        }
        assert forall|i: int| 0 <= i < count implies (#[trigger] steps[inserting(
            at,
            i,
        )] matches StepView::Insert { image, params, .. } && image == bytes_read(
            answers,
            reading(at, i),
        ) && params == Seq::<char>::empty()) by {
            if i > 0 {
                assert(inserting(at + 2, i - 1) == inserting(at, i));
                assert(reading(at + 2, i - 1) == reading(at, i));
                assert(steps[inserting(at + 2, i - 1)] is Insert);
            }
        }
        assert(reading(at + 2, count - 1) == reading(at, count));
        assert(inserting(at + 2, count - 1) == inserting(at, count));
    }
}

/// The modules that a module needs are inserted before it, in the order in
/// which the dependency manifest lists them.
///
/// Take any course in which the step at `at` reads the order manifest for the
/// module `name`; `version` is the version that was given, or that the running
/// kernel answered. Let the order manifest list the module, at `module`, let
/// the dependency manifest say that it needs `needed`, let every read succeed,
/// and let every insertion of a needed module succeed or fail because the
/// module exists already. Then the course reads the dependency manifest;
/// then, for each needed module in the order of the manifest, reads its image
/// from its place in the tree and inserts it as it was read, without
/// parameters; then reads the image of the module itself, and inserts it as
/// it was read, with the parameters given. The outcome of that last insertion
/// is the result.
pub proof fn law_needed_modules_come_first(
    first: StepView,
    answers: Seq<Answer>,
    at: int,
    name: Seq<char>,
    params: Seq<char>,
    version: Seq<char>,
    order: Seq<u8>,
    dep: Seq<u8>,
    module: Seq<char>,
    needed: Seq<Seq<char>>,
    status: i64,
    errno: i32,
)
    requires
        0 <= at,
        course(first, answers)[at] == load_order(name, params, version),
        answers[at] == (Answer::Read { outcome: Ok(order) }),
        valid_utf8(order),
        path_of(decode_utf8(order), name) == Some(module),
        answers[at + 1] == (Answer::Read { outcome: Ok(dep) }),
        valid_utf8(dep),
        dependencies_of(decode_utf8(dep), module) == needed,
        plan_goes_well(answers, at + 2, needed.len() as int),
        inserting(at + 2, needed.len() as int) < answers.len(),
        answers[inserting(at + 2, needed.len() as int)] == (Answer::Status { status, errno }),
    ensures
        course(first, answers)[at + 1] == load_dependencies(module, params, version),
        forall|i: int|
            0 <= i < needed.len() ==> (#[trigger] course(first, answers)[reading(
                at + 2,
                i,
            )] matches StepView::Read { path, .. } && path == file_in_tree(version, needed[i])),
        forall|i: int|
            0 <= i < needed.len() ==> (#[trigger] course(first, answers)[inserting(
                at + 2,
                i,
            )] matches StepView::Insert { image, params, .. } && image == bytes_read(
                answers,
                reading(at + 2, i),
            ) && params == Seq::<char>::empty()),
        course(first, answers)[reading(at + 2, needed.len() as int)] == load_file(
            file_in_tree(version, module),
            params,
        ),
        course(first, answers)[inserting(at + 2, needed.len() as int)] == insert(
            bytes_read(answers, reading(at + 2, needed.len() as int)),
            params,
        ),
        course(first, answers)[inserting(at + 2, needed.len() as int) + 1] == after_insert(
            InsertingView::Image,
            status,
            errno,
        ),
{
    let count = needed.len() as int;
    let steps = course(first, answers);
    let plan = PlanView { version, pending: needed, module, params };
    assert(reading(at + 2, count) < answers.len());
    lemma_step(first, answers, at + 1);
    lemma_step(first, answers, at + 2);
    assert(steps[at + 2] == proceed(plan));
    law_plan_is_carried_out(first, answers, at + 2, plan);
    lemma_step(first, answers, inserting(at + 2, count) + 1);
}

/// A needed module that the kernel holds already is passed over.
///
/// Take any course in which the step at `at` inserts a needed module, and let
/// the insertion fail because the module exists already. Then the work goes
/// on as after a success: the next step is what the plan asks for, the
/// reading of the next pending module's image or, where none is pending, of
/// the image of the module itself. And where the plan goes well from there,
/// the course comes to insert the module itself.
pub proof fn law_existing_module_is_passed_over(
    first: StepView,
    answers: Seq<Answer>,
    at: int,
    plan: PlanView,
    status: i64,
)
    requires
        0 <= at < answers.len(),
        course(first, answers)[at] matches StepView::Insert { then, .. } && then
            == (InsertingView::Dependency { plan }),
        answers[at] == (Answer::Status { status, errno: EEXIST }),
    ensures
        course(first, answers)[at + 1] == proceed(plan),
        course(first, answers)[at + 1] is Read,
        plan_goes_well(answers, at + 1, plan.pending.len() as int) ==> course(
            first,
            answers,
        )[inserting(at + 1, plan.pending.len() as int)] == insert(
            bytes_read(answers, reading(at + 1, plan.pending.len() as int)),
            plan.params,
        ),
{
    lemma_step(first, answers, at + 1);
    if plan_goes_well(answers, at + 1, plan.pending.len() as int) {
        law_plan_is_carried_out(first, answers, at + 1, plan);
    }
}

/// A needed module that cannot be inserted ends the work.
///
/// When the insertion of a needed module fails for any reason but that the
/// module exists already, the next step is the last: its result is that
/// failure, with the kernel's error number. Whatever answers follow in a
/// course, no later step reads or inserts anything.
pub proof fn law_failed_dependency_ends_the_work(
    first: StepView,
    answers: Seq<Answer>,
    at: int,
    plan: PlanView,
    status: i64,
    errno: i32,
)
    requires
        0 <= at < answers.len(),
        course(first, answers)[at] matches StepView::Insert { then, .. } && then
            == (InsertingView::Dependency { plan }),
        answers[at] == (Answer::Status { status, errno }),
        status != 0,
        errno != EEXIST,
    ensures
        after_insert(InsertingView::Dependency { plan }, status, errno) == failed(
            ErrorView::Os(OsError { code: errno }),
        ),
        forall|i: int|
            at < i <= answers.len() ==> #[trigger] course(first, answers)[i] == failed(
                ErrorView::Os(OsError { code: errno }),
            ),
{
    let steps = course(first, answers);
    lemma_step(first, answers, at + 1);
    assert forall|i: int| at < i <= answers.len() implies #[trigger] steps[i] == failed(
        ErrorView::Os(OsError { code: errno }),
    ) by {
        lemma_done_is_final(first, answers, at + 1, i);
    }
}

/// With the kernel's version given, the running kernel is never asked which
/// it is: no step of any course of such a probe is that question.
pub proof fn law_given_version_is_not_asked_for(
    name: Seq<char>,
    params: Seq<char>,
    version: Seq<char>,
    answers: Seq<Answer>,
)
    ensures
        forall|i: int|
            0 <= i <= answers.len() ==> !(#[trigger] course(
                probe(name, params, SelectionView::Other(version)),
                answers,
            )[i] is Uname),
{
    let first = probe(name, params, SelectionView::Other(version));
    let steps = course(first, answers);
    lemma_course(first, answers);
    assert forall|i: int| 0 <= i <= answers.len() implies !(#[trigger] steps[i] is Uname) by {
        lemma_stage_never_falls(first, answers, 0, i);
    }
}

/// A file that cannot be read is not inserted.
///
/// When the file of a module that is loaded by its path cannot be read, the
/// work ends with that failure. Whatever answers follow in a course, no step
/// hands anything to the kernel.
pub proof fn law_unread_file_is_not_inserted(
    path: Seq<char>,
    params: Seq<char>,
    failure: IoError,
    answers: Seq<Answer>,
)
    requires
        answers.len() >= 1,
        answers[0] == (Answer::Read { outcome: Err(failure) }),
    ensures
        forall|i: int|
            1 <= i <= answers.len() ==> #[trigger] course(load_file(path, params), answers)[i]
                == failed(ErrorView::Io(failure)),
        forall|i: int|
            0 <= i <= answers.len() ==> !changes_kernel(
                #[trigger] course(load_file(path, params), answers)[i],
            ),
{
    let first = load_file(path, params);
    let steps = course(first, answers);
    lemma_course(first, answers);
    lemma_step(first, answers, 1);
    assert forall|i: int| 1 <= i <= answers.len() implies #[trigger] steps[i] == failed(
        ErrorView::Io(failure),
    ) by {
        lemma_done_is_final(first, answers, 1, i);
    }
}

} // verus!
