//! The retrying handshake, as the decisions it takes between the sends and
//! receives that its caller performs.
//!
//! The caller starts with [`Handshake::begin`] and does what each [`Step`]
//! asks: on [`Step::Send`] it sends the packet and reports with
//! [`Sending::sent`]; on [`Step::Receive`] it awaits a response and reports
//! with [`Receiving::received`]; on [`Step::Done`] it returns the result.

use crate::connection::ConnectionError;
use vstd::prelude::*;

verus! {

/// How far a handshake has come: of `retries` attempts allowed, attempt number
/// `attempt` is under way, and `last_error` is the error recorded last, that
/// of the attempt before or, where this is the first, a timeout.
pub struct Progress {
    pub retries: nat,
    pub attempt: nat,
    pub last_error: ConnectionError,
}

/// What a handshake asks for next, over [`Progress`].
pub enum Next<D> {
    /// Send the packet.
    Send(Progress),
    /// Await a response.
    Receive(Progress),
    /// Return this result.
    Done(Result<D, ConnectionError>),
}

/// The head of the retry loop: after `made` attempts, with `last_error` the
/// error recorded last, the next attempt is due if one is left of `retries`,
/// else the handshake is over with `last_error`.
pub open spec fn proceed_spec<D>(retries: nat, made: nat, last_error: ConnectionError) -> Next<D> {
    if made < retries {
        Next::Send(Progress { retries, attempt: made + 1, last_error })
    } else {
        Next::Done(Err(last_error))
    }
}

/// The first step of a handshake with `retries` attempts: no attempt is made
/// yet, and the error recorded is a timeout.
pub open spec fn begin_spec<D>(retries: nat) -> Next<D> {
    proceed_spec(retries, 0, ConnectionError::Timeout)
}

/// The step after a send: a failed send ends the handshake with its error, a
/// successful one is followed by a receive.
pub open spec fn sent_spec<D>(progress: Progress, outcome: Result<(), ConnectionError>) -> Next<D> {
    match outcome {
        Err(error) => Next::Done(Err(error)),
        Ok(_) => Next::Receive(progress),
    }
}

/// The step after a receive: a response ends the handshake with it; a failure
/// is recorded as the last error, and the loop goes on from its head.
pub open spec fn received_spec<D>(progress: Progress, outcome: Result<D, ConnectionError>) -> Next<
    D,
> {
    match outcome {
        Ok(response) => Next::Done(Ok(response)),
        Err(error) => proceed_spec(progress.retries, progress.attempt, error),
    }
}

/// A handshake whose next send is due.
pub struct Sending {
    retries: usize,
    attempt: usize,
    last_error: ConnectionError,
}

/// A handshake whose packet is sent and whose response is due.
pub struct Receiving {
    retries: usize,
    attempt: usize,
    last_error: ConnectionError,
}

/// What the caller of a handshake does next.
pub enum Step<D> {
    /// Send the packet, then report with [`Sending::sent`].
    Send(Sending),
    /// Await a response, then report with [`Receiving::received`].
    Receive(Receiving),
    /// The handshake is over: return this result.
    Done(Result<D, ConnectionError>),
}

impl View for Sending {
    type V = Progress;

    closed spec fn view(&self) -> Progress {
        Progress {
            retries: self.retries as nat,
            attempt: self.attempt as nat,
            last_error: self.last_error,
        }
    }
}

impl View for Receiving {
    type V = Progress;

    closed spec fn view(&self) -> Progress {
        Progress {
            retries: self.retries as nat,
            attempt: self.attempt as nat,
            last_error: self.last_error,
        }
    }
}

impl<D> View for Step<D> {
    type V = Next<D>;

    open spec fn view(&self) -> Next<D> {
        match self {
            Step::Send(sending) => Next::Send(sending@),
            Step::Receive(receiving) => Next::Receive(receiving@),
            Step::Done(result) => Next::Done(*result),
        }
    }
}

/// The entry to the handshake.
pub struct Handshake;

impl Handshake {
    /// Starts a handshake that may take up to `retries` attempts.
    pub fn begin<D>(retries: usize) -> (step: Step<D>)
        ensures
            step@ == begin_spec::<D>(retries as nat),
    {
        proceed(retries, 0, ConnectionError::Timeout)
    }
}

/// The head of the retry loop.
fn proceed<D>(retries: usize, made: usize, last_error: ConnectionError) -> (step: Step<D>)
    requires
        made <= retries,
    ensures
        step@ == proceed_spec::<D>(retries as nat, made as nat, last_error),
{
    if made < retries {
        Step::Send(Sending { retries, attempt: made + 1, last_error })
    } else {
        Step::Done(Err(last_error))
    }
}

impl Sending {
    /// The attempt under way is one of those allowed.
    #[verifier::type_invariant]
    spec fn in_range(self) -> bool {
        0 < self.attempt <= self.retries
    }

    /// The number of the attempt under way, counted from 1.
    pub fn attempt(&self) -> (out: usize)
        ensures
            out == self@.attempt,
            0 < out <= self@.retries,
    {
        proof {
            use_type_invariant(self);
        }
        self.attempt
    }

    /// The error of the attempt before this one, or a timeout where this is
    /// the first.
    pub fn last_error(&self) -> (out: &ConnectionError)
        ensures
            *out == self@.last_error,
    {
        &self.last_error
    }

    /// Takes the outcome of the send that was due.
    pub fn sent<D>(self, outcome: Result<(), ConnectionError>) -> (step: Step<D>)
        ensures
            step@ == sent_spec::<D>(self@, outcome),
    {
        proof {
            use_type_invariant(&self);
        }
        match outcome {
            Err(error) => Step::Done(Err(error)),
            Ok(_) => Step::Receive(
                Receiving {
                    retries: self.retries,
                    attempt: self.attempt,
                    last_error: self.last_error,
                },
            ),
        }
    }
}

impl Receiving {
    /// The attempt under way is one of those allowed.
    #[verifier::type_invariant]
    spec fn in_range(self) -> bool {
        0 < self.attempt <= self.retries
    }

    /// The number of the attempt under way, counted from 1.
    pub fn attempt(&self) -> (out: usize)
        ensures
            out == self@.attempt,
            0 < out <= self@.retries,
    {
        proof {
            use_type_invariant(self);
        }
        self.attempt
    }

    /// Takes the outcome of the receive that was due.
    pub fn received<D>(self, outcome: Result<D, ConnectionError>) -> (step: Step<D>)
        ensures
            step@ == received_spec::<D>(self@, outcome),
    {
        proof {
            use_type_invariant(&self);
        }
        match outcome {
            Ok(response) => Step::Done(Ok(response)),
            Err(error) => proceed(self.retries, self.attempt, error),
        }
    }
}

/// What the transport makes of one attempt.
pub enum Attempt<D> {
    /// The send fails with this error.
    SendFailed(ConnectionError),
    /// The packet is sent, and no response is received, with this error.
    ReceiveFailed(ConnectionError),
    /// The packet is sent, and this response is received.
    Received(D),
}

/// How a handshake ended: the number of packets sent, the number of
/// responses awaited, and the result.
pub struct Outcome<D> {
    pub sends: nat,
    pub receives: nat,
    pub result: Result<D, ConnectionError>,
}

/// The number of responses awaited in an attempt: none where the send fails,
/// else one.
pub open spec fn receives_in<D>(attempt: Attempt<D>) -> nat {
    if attempt is SendFailed {
        0
    } else {
        1
    }
}

/// What an attempt ends a handshake with, if it ends it.
pub open spec fn verdict<D>(attempt: Attempt<D>) -> Result<D, ConnectionError> {
    match attempt {
        Attempt::SendFailed(error) => Err(error),
        Attempt::ReceiveFailed(error) => Err(error),
        Attempt::Received(response) => Ok(response),
    }
}

/// The step that follows a send that is due, where the transport makes
/// `attempt` of it.
pub open spec fn attempt_spec<D>(progress: Progress, attempt: Attempt<D>) -> Next<D> {
    match attempt {
        Attempt::SendFailed(error) => sent_spec::<D>(progress, Err(error)),
        Attempt::ReceiveFailed(error) => match sent_spec::<D>(progress, Ok(())) {
            Next::Receive(waiting) => received_spec::<D>(waiting, Err(error)),
            other => other,
        },
        Attempt::Received(response) => match sent_spec::<D>(progress, Ok(())) {
            Next::Receive(waiting) => received_spec::<D>(waiting, Ok(response)),
            other => other,
        },
    }
}

/// How a handshake that stands at `next` ends where the transport makes
/// `script` of the attempts to come, one entry for each; `None` where the
/// script ends before the handshake does.
pub open spec fn run<D>(next: Next<D>, script: Seq<Attempt<D>>) -> Option<Outcome<D>>
    decreases script.len(),
{
    match next {
        Next::Done(result) => Some(Outcome { sends: 0, receives: 0, result }),
        Next::Receive(_) => None,
        Next::Send(progress) => if script.len() == 0 {
            None
        } else {
            match run(attempt_spec(progress, script[0]), script.drop_first()) {
                None => None,
                Some(rest) => Some(
                    Outcome {
                        sends: rest.sends + 1,
                        receives: rest.receives + receives_in(script[0]),
                        result: rest.result,
                    },
                ),
            }
        },
    }
}

/// How a handshake with `retries` attempts ends where the transport makes
/// `script` of them.
pub open spec fn handshake_run<D>(retries: nat, script: Seq<Attempt<D>>) -> Option<Outcome<D>> {
    run(begin_spec::<D>(retries), script)
}

proof fn lemma_run_ends<D>(progress: Progress, script: Seq<Attempt<D>>)
    requires
        0 < progress.attempt <= progress.retries,
        script.len() > progress.retries - progress.attempt,
    ensures
        run(Next::Send(progress), script) matches Some(outcome) && 0 < outcome.sends
            <= progress.retries - progress.attempt + 1 && outcome.sends - 1 <= outcome.receives
            <= outcome.sends,
    decreases script.len(),
{
    reveal_with_fuel(run, 2);
    match attempt_spec(progress, script[0]) {
        Next::Send(following) => {
            lemma_run_ends(following, script.drop_first());
        },
        _ => {},
    }
}

proof fn lemma_run_decided<D>(progress: Progress, script: Seq<Attempt<D>>, failures: nat)
    requires
        0 < progress.attempt,
        progress.attempt + failures <= progress.retries,
        failures < script.len(),
        forall|i: int| 0 <= i < failures ==> script[i] is ReceiveFailed,
        !(script[failures as int] is ReceiveFailed),
    ensures
        run(Next::Send(progress), script) == Some(
            Outcome {
                sends: failures + 1,
                receives: failures + receives_in(script[failures as int]),
                result: verdict(script[failures as int]),
            },
        ),
    decreases failures,
{
    reveal_with_fuel(run, 2);
    if failures > 0 {
        let rest = script.drop_first();
        match attempt_spec(progress, script[0]) {
            Next::Send(following) => {
                assert(forall|i: int| 0 <= i < failures - 1 ==> rest[i] == script[i + 1]);
                lemma_run_decided(following, rest, (failures - 1) as nat);
            },
            _ => {},
        }
    }
}

proof fn lemma_run_exhausted<D>(progress: Progress, script: Seq<Attempt<D>>)
    requires
        0 < progress.attempt <= progress.retries,
        script.len() > progress.retries - progress.attempt,
        forall|i: int| 0 <= i <= progress.retries - progress.attempt ==> script[i] is ReceiveFailed,
    ensures
        run(Next::Send(progress), script) == Some(
            Outcome {
                sends: (progress.retries - progress.attempt + 1) as nat,
                receives: (progress.retries - progress.attempt + 1) as nat,
                result: verdict(script[progress.retries - progress.attempt]),
            },
        ),
    decreases progress.retries - progress.attempt,
{
    reveal_with_fuel(run, 2);
    if progress.attempt < progress.retries {
        let rest = script.drop_first();
        match attempt_spec(progress, script[0]) {
            Next::Send(following) => {
                assert(forall|i: int|
                    0 <= i <= following.retries - following.attempt ==> rest[i] == script[i + 1]);
                lemma_run_exhausted(following, rest);
            },
            _ => {},
        }
    }
}

/// With no attempt allowed, a handshake sends nothing, awaits nothing and
/// fails with a timeout, whatever the transport would do.
pub proof fn lemma_no_retries<D>(script: Seq<Attempt<D>>)
    ensures
        handshake_run(0, script) == Some(
            Outcome::<D> { sends: 0, receives: 0, result: Err(ConnectionError::Timeout) },
        ),
{
}

/// Where the transport has an answer for each attempt allowed, a handshake
/// ends, sends no more packets than attempts are allowed, and awaits a
/// response after each send but, at most, the last.
pub proof fn lemma_sends_bounded<D>(retries: nat, script: Seq<Attempt<D>>)
    requires
        script.len() >= retries,
    ensures
        handshake_run(retries, script) matches Some(outcome) && outcome.sends <= retries
            && outcome.receives <= outcome.sends <= outcome.receives + 1,
{
    if retries > 0 {
        lemma_run_ends(
            Progress { retries, attempt: 1, last_error: ConnectionError::Timeout },
            script,
        );
    }
}

/// A send that fails ends the handshake with its error and is the last send,
/// however many attempts are left; no response is awaited after it.
pub proof fn lemma_send_failure_ends<D>(
    retries: nat,
    script: Seq<Attempt<D>>,
    failures: nat,
    error: ConnectionError,
)
    requires
        failures < retries,
        failures < script.len(),
        forall|i: int| 0 <= i < failures ==> script[i] is ReceiveFailed,
        script[failures as int] == Attempt::<D>::SendFailed(error),
    ensures
        handshake_run(retries, script) == Some(
            Outcome::<D> { sends: failures + 1, receives: failures, result: Err(error) },
        ),
{
    lemma_run_decided(
        Progress { retries, attempt: 1, last_error: ConnectionError::Timeout },
        script,
        failures,
    );
}

/// A response received after `failures` failed receives, within the attempts
/// allowed, ends the handshake with that response after `failures + 1` sends
/// and as many receives.
pub proof fn lemma_response_ends<D>(
    retries: nat,
    script: Seq<Attempt<D>>,
    failures: nat,
    response: D,
)
    requires
        failures < retries,
        failures < script.len(),
        forall|i: int| 0 <= i < failures ==> script[i] is ReceiveFailed,
        script[failures as int] == Attempt::Received(response),
    ensures
        handshake_run(retries, script) == Some(
            Outcome { sends: failures + 1, receives: failures + 1, result: Ok(response) },
        ),
{
    lemma_run_decided(
        Progress { retries, attempt: 1, last_error: ConnectionError::Timeout },
        script,
        failures,
    );
}

/// Where every attempt allowed fails to receive, the handshake sends and
/// awaits once for each and fails with the error of the last.
pub proof fn lemma_retries_exhausted<D>(retries: nat, script: Seq<Attempt<D>>)
    requires
        0 < retries <= script.len(),
        forall|i: int| 0 <= i < retries ==> script[i] is ReceiveFailed,
    ensures
        handshake_run(retries, script) == Some(
            Outcome { sends: retries, receives: retries, result: verdict(script[retries - 1]) },
        ),
{
    lemma_run_exhausted(
        Progress { retries, attempt: 1, last_error: ConnectionError::Timeout },
        script,
    );
}

} // verus!
