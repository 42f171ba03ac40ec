//! Running a list of statements: which failures end the run, and when.
use vstd::prelude::*;

verus! {

/// So many failed EXPECT statements in a row end a run, to keep the log in check.
pub const MAX_EXPECT_ERRORS: usize = 32;

/// How a run of statements fails, with failures of the type `E`.
#[derive(Clone, Debug, Eq, Hash, PartialEq)]
pub enum RunError<E> {
    /// One statement failed.
    Single(E),
    /// One statement failed, and there are messages about it.
    WithMessages(E),
    /// Several EXPECT statements failed.
    Failure(Vec<E>),
    /// Too many EXPECT statements failed.
    Abort(Vec<E>),
}

/// The view of `RunError`.
pub enum RunErrorView<E> {
    Single(E),
    WithMessages(E),
    Failure(Seq<E>),
    Abort(Seq<E>),
}

impl<E> View for RunError<E> {
    type V = RunErrorView<E>;

    open spec fn view(&self) -> RunErrorView<E> {
        match self {
            RunError::Single(e) => RunErrorView::Single(*e),
            RunError::WithMessages(e) => RunErrorView::WithMessages(*e),
            RunError::Failure(errors) => RunErrorView::Failure(errors@),
            RunError::Abort(errors) => RunErrorView::Abort(errors@),
        }
    }
}

/// What the failures of EXPECT statements come to: a single one counts by itself.
pub open spec fn expect_result<E>(errors: Seq<E>) -> Result<(), RunErrorView<E>> {
    if errors.len() == 0 {
        Ok(())
    } else if errors.len() == 1 {
        Err(RunErrorView::Single(errors[0]))
    } else {
        Err(RunErrorView::Failure(errors))
    }
}

/// Before a statement: failed EXPECT statements end the run, unless the next statement is an
/// EXPECT statement, too.
pub open spec fn before_statement<E>(errors: Seq<E>, is_expect: bool) -> Result<
    Seq<E>,
    RunErrorView<E>,
> {
    if is_expect {
        Ok(errors)
    } else {
        match expect_result(errors) {
            Ok(_) => Ok(Seq::empty()),
            Err(e) => Err(e),
        }
    }
}

/// After a statement that failed with `failure`, if it did: the failures to keep in mind.
pub open spec fn after_statement<E>(
    errors: Seq<E>,
    is_expect: bool,
    failure: Option<E>,
    messages: bool,
) -> Result<Seq<E>, RunErrorView<E>> {
    match failure {
        None => Ok(errors),
        Some(e) => if messages {
            Err(RunErrorView::WithMessages(e))
        } else if !is_expect {
            Err(RunErrorView::Single(e))
        } else if errors.len() + 1 >= MAX_EXPECT_ERRORS {
            Err(RunErrorView::Abort(errors.push(e)))
        } else {
            Ok(errors.push(e))
        },
    }
}

/// The view of a result.
pub open spec fn run_view<E>(r: Result<(), RunError<E>>) -> Result<(), RunErrorView<E>> {
    match r {
        Ok(_) => Ok(()),
        Err(e) => Err(e@),
    }
}

/// A run of statements. Errors from failed EXPECT statements do not end it immediately.
pub struct StatementRun<E> {
    expect_errors: Vec<E>,
}

impl<E> View for StatementRun<E> {
    type V = Seq<E>;

    closed spec fn view(&self) -> Seq<E> {
        self.expect_errors@
    }
}

/// What failures come to.
fn expect_err_result<E>(mut errors: Vec<E>) -> (r: Result<(), RunError<E>>)
    ensures
        run_view(r) == expect_result(errors@),
{
    if errors.len() == 0 {
        Ok(())
    } else if errors.len() == 1 {
        match errors.pop() {
            Some(e) => Err(RunError::Single(e)),
            None => Ok(()),
        }
    } else {
        Err(RunError::Failure(errors))
    }
}

impl<E> StatementRun<E> {
    /// There are fewer failures than end a run.
    #[verifier::type_invariant]
    pub closed spec fn wf(self) -> bool {
        self.expect_errors@.len() < MAX_EXPECT_ERRORS
    }

    /// Nothing has failed.
    pub fn new() -> (run: StatementRun<E>)
        ensures
            run@ == Seq::<E>::empty(),
    {
        StatementRun { expect_errors: Vec::new() }
    }

    /// Before a statement. Failures that end the run are handed out with the error.
    pub fn begin_statement(&mut self, is_expect: bool) -> (r: Result<(), RunError<E>>)
        ensures
            match r {
                Ok(_) => before_statement(old(self)@, is_expect) == Ok::<_, RunErrorView<E>>(
                    final(self)@,
                ),
                Err(e) => before_statement(old(self)@, is_expect) == Err::<Seq<E>, _>(e@)
                    && final(self)@ == Seq::<E>::empty(),
            },
    {
        if is_expect {
            return Ok(());
        }
        let mut errors: Vec<E> = Vec::new();
        std::mem::swap(&mut errors, &mut self.expect_errors);
        assert(self@ =~= Seq::<E>::empty());
        expect_err_result(errors)
    }

    /// After a statement that failed with `failure`, if it did. There may be messages about it. If
    /// there are too many failures, they are handed out with the error.
    pub fn end_statement(&mut self, is_expect: bool, failure: Option<E>, messages: bool) -> (r:
        Result<(), RunError<E>>)
        ensures
            match r {
                Ok(_) => after_statement(old(self)@, is_expect, failure, messages) == Ok::<
                    _,
                    RunErrorView<E>,
                >(final(self)@) && final(self)@.len() < MAX_EXPECT_ERRORS,
                Err(e) => after_statement(old(self)@, is_expect, failure, messages) == Err::<
                    Seq<E>,
                    _,
                >(e@) && final(self)@ == if e is Abort {
                    Seq::<E>::empty()
                } else {
                    old(self)@
                },
            },
    {
        proof {
            use_type_invariant(&*self);
        }
        match failure {
            None => Ok(()),
            Some(e) => {
                if messages {
                    return Err(RunError::WithMessages(e));
                }
                if !is_expect {
                    return Err(RunError::Single(e));
                }
                let mut errors: Vec<E> = Vec::new();
                std::mem::swap(&mut errors, &mut self.expect_errors);
                errors.push(e);
                // Abort testing if we have too many failures
                if errors.len() >= MAX_EXPECT_ERRORS {
                    return Err(RunError::Abort(errors));
                }
                self.expect_errors = errors;
                Ok(())
            },
        }
    }

    /// After the last statement.
    pub fn finish(self) -> (r: Result<(), RunError<E>>)
        ensures
            run_view(r) == expect_result(self@),
    {
        expect_err_result(self.expect_errors)
    }
}

/// The failures among the results of statements, in order.
pub open spec fn failures<E>(results: Seq<Option<E>>) -> Seq<E>
    decreases results.len(),
{
    if results.len() == 0 {
        Seq::empty()
    } else {
        match results.last() {
            Some(e) => failures(results.drop_last()).push(e),
            None => failures(results.drop_last()),
        }
    }
}

/// What EXPECT statements one after the other come to, without messages: the failures to keep in
/// mind after the last one.
pub open spec fn expects_run<E>(results: Seq<Option<E>>) -> Result<Seq<E>, RunErrorView<E>>
    decreases results.len(),
{
    if results.len() == 0 {
        Ok(Seq::empty())
    } else {
        match expects_run(results.drop_last()) {
            Ok(errors) => match before_statement(errors, true) {
                Ok(errors) => after_statement(errors, true, results.last(), false),
                Err(e) => Err(e),
            },
            Err(e) => Err(e),
        }
    }
}

/// EXPECT statements one after the other are all checked, and their failures are kept in order,
/// as long as there are fewer than the largest number. The run aborts with exactly that many.
pub proof fn lemma_expects_run<E>(results: Seq<Option<E>>)
    ensures
        failures(results).len() < MAX_EXPECT_ERRORS ==> expects_run(results) == Ok::<
            _,
            RunErrorView<E>,
        >(failures(results)),
        failures(results).len() >= MAX_EXPECT_ERRORS ==> (expects_run(results) matches Err(
            RunErrorView::Abort(errors),
        ) && errors == failures(results).take(MAX_EXPECT_ERRORS as int)),
    decreases results.len(),
{
    if results.len() > 0 {
        let before = results.drop_last();
        lemma_expects_run(before);
        if failures(before).len() >= MAX_EXPECT_ERRORS {
            assert(failures(results).take(MAX_EXPECT_ERRORS as int) =~= failures(before).take(
                MAX_EXPECT_ERRORS as int,
            ));
        } else if failures(results).len() >= MAX_EXPECT_ERRORS {
            assert(failures(results).take(MAX_EXPECT_ERRORS as int) =~= failures(results));
        }
    }
}

/// Failed EXPECT statements are not forgotten: a statement of another kind does not run after
/// them, and neither does the script succeed.
pub proof fn lemma_failures_end_run<E>(errors: Seq<E>)
    requires
        errors.len() > 0,
    ensures
        before_statement(errors, false) is Err,
        expect_result(errors) is Err,
{
}

/// The failures that an error tells of.
pub open spec fn told_failures<E>(error: RunErrorView<E>) -> Seq<E> {
    match error {
        RunErrorView::Single(e) => seq![e],
        RunErrorView::WithMessages(e) => seq![e],
        RunErrorView::Failure(errors) => errors,
        RunErrorView::Abort(errors) => errors,
    }
}

/// When EXPECT statements failed, the error tells of each failure, in order, and of no other. It is
/// an error of one statement exactly if one failed.
pub proof fn lemma_expect_result<E>(errors: Seq<E>, is_expect: bool)
    ensures
        expect_result(errors) is Ok <==> errors.len() == 0,
        expect_result(errors) matches Err(e) ==> told_failures(e) == errors && (e is Single <==>
            errors.len() == 1) && (e is Failure <==> errors.len() > 1),
        is_expect ==> before_statement(errors, is_expect) == Ok::<_, RunErrorView<E>>(errors),
        !is_expect ==> match before_statement(errors, is_expect) {
            Ok(kept) => errors.len() == 0 && kept.len() == 0,
            Err(e) => expect_result(errors) == Err::<(), _>(e),
        },
{
}

/// A statement that does not fail changes nothing. A failure ends the run, unless it is that of an
/// EXPECT statement without messages: such failures are kept, until there are 32 of them. An error
/// tells of the last failure, and an abort of all that were kept, too.
pub proof fn lemma_after_statement<E>(
    errors: Seq<E>,
    is_expect: bool,
    failure: Option<E>,
    messages: bool,
)
    ensures
        match (failure, after_statement(errors, is_expect, failure, messages)) {
            (None, Ok(kept)) => kept == errors,
            (None, Err(_)) => false,
            (Some(e), Ok(kept)) => is_expect && !messages && kept == errors.push(e) && kept.len()
                < 32,
            (Some(e), Err(error)) => {
                &&& told_failures(error).last() == e
                &&& error is WithMessages <==> messages
                &&& error is Single <==> !messages && !is_expect
                &&& error is Abort ==> is_expect && !messages && errors.len() + 1 >= 32
                    && told_failures(error) == errors.push(e)
                &&& error !is Failure
            },
        },
{
}

/// What happens to the error of a statement.
#[derive(Clone, Copy, Debug, Eq, Hash, PartialEq, Structural)]
pub enum ErrorWrap {
    /// It explains itself.
    Keep,
    /// It is shown as the reason why a statement could not be run.
    Statement,
    /// The same, without a hint to use validation.
    StatementValidated,
}

/// How the error of a statement is shown. An error of our own has a code.
pub fn error_wrap(has_code: bool, validate: bool) -> (wrap: ErrorWrap)
    ensures
        wrap is Keep <==> has_code,
        wrap is StatementValidated <==> !has_code && validate,
{
    if has_code {
        ErrorWrap::Keep
    } else if validate {
        ErrorWrap::StatementValidated
    } else {
        ErrorWrap::Statement
    }
}

/// Whether to run another frame
#[derive(Clone, Copy, Debug, Eq, Hash, PartialEq, Structural)]
pub enum Continue {
    /// Continue main loop
    Continue,
    /// Exit main loop
    Exit,
}

/// How often a script is run without a window: once, unless something else is asked for.
pub fn repeat_count(repeat: Option<u64>) -> (count: u64)
    ensures
        count == match repeat {
            Some(n) => n,
            None => 1,
        },
{
    match repeat {
        Some(n) => n,
        None => 1,
    }
}

/// How many frames a window shows. Zero means that there is no end.
pub fn max_frames(repeat: Option<u64>) -> (count: u64)
    ensures
        count == match repeat {
            Some(n) => n,
            None => 0,
        },
{
    match repeat {
        Some(n) => n,
        None => 0,
    }
}

/// The number of frames after one more.
pub open spec fn next_frame(frame: u64) -> u64 {
    if frame == u64::MAX {
        0
    } else {
        (frame + 1) as u64
    }
}

/// Whether there is another frame after so many of them.
pub open spec fn goes_on(frames: u64, max_frames: u64) -> bool {
    max_frames == 0 || frames < max_frames
}

/// How many frames are shown when so many were shown before the next one.
pub open spec fn frames_shown(frame: u64, max_frames: u64) -> nat
    decreases max_frames - frame,
{
    if frame < max_frames && goes_on(next_frame(frame), max_frames) {
        1 + frames_shown(next_frame(frame), max_frames)
    } else {
        1
    }
}

/// A window shows exactly as many frames as are asked for. If none are asked for, it never ends.
pub proof fn lemma_frames_shown(frame: u64, max_frames: u64)
    ensures
        frame < max_frames ==> frames_shown(frame, max_frames) == max_frames - frame,
        max_frames == 0 ==> goes_on(next_frame(frame), max_frames),
        max_frames == 1 ==> !goes_on(next_frame(0), max_frames),
        next_frame(frame) == frame + 1 || frame == u64::MAX && next_frame(frame) == 0,
    decreases max_frames - frame,
{
    if frame + 1 < max_frames {
        lemma_frames_shown(next_frame(frame), max_frames);
    }
}

/// After a frame: the number of frames so far, and whether there is another one. Without an end
/// the count starts over after the largest number.
pub fn after_frame(frame: u64, max_frames: u64) -> (r: (u64, Continue))
    ensures
        r.0 == (if frame == u64::MAX {
            0
        } else {
            frame + 1
        }),
        r.1 is Continue <==> max_frames == 0 || r.0 < max_frames,
        r.0 == next_frame(frame),
        r.1 is Continue <==> goes_on(r.0, max_frames),
{
    let next: u64 = if frame == u64::MAX {
        0
    } else {
        frame + 1
    };
    if max_frames == 0 || next < max_frames {
        (next, Continue::Continue)
    } else {
        (next, Continue::Exit)
    }
}

} // verus!
