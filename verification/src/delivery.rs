//! The decisions of the post office, the collection boxes, the mailbox and the mailman.

use crate::error::{CollectionBoxError, CorrespondenceError, DeliveryError, ReceiveError};
use vstd::prelude::*;

verus! {

/// Where the post office stands after it has tried to deliver a message (or, when `farewell`
/// holds, the farewell): `None` while it goes on delivering, `Some` of its final outcome once
/// it stops, which it does at the first failed delivery or after delivering the farewell.
pub open spec fn office_verdict(farewell: bool, delivered: Result<(), DeliveryError>) -> Option<
    Result<(), DeliveryError>,
> {
    match delivered {
        Err(e) => Some(Err(e)),
        Ok(()) => if farewell {
            Some(Ok(()))
        } else {
            None
        },
    }
}

/// The error a collection box reports when the post office no longer takes messages, given
/// the outcome the post office stopped with.
pub open spec fn refusal(outcome: Result<(), DeliveryError>) -> CollectionBoxError {
    match outcome {
        Ok(()) => CollectionBoxError::FarewellAlreadySent,
        Err(e) => CollectionBoxError::DeliveryError(e),
    }
}

/// The outcome of a correspondence, given how handling the incoming messages stopped and what
/// sending the closing farewell came to. A correspondence that stopped because of an error ends
/// with that error; otherwise only a failed delivery of the farewell counts as a failure, and a
/// farewell that was already sent does not.
pub open spec fn closing_outcome(
    stopped: Result<(), CorrespondenceError>,
    farewell: Result<(), CollectionBoxError>,
) -> Result<(), CorrespondenceError> {
    match stopped {
        Err(e) => Err(e),
        Ok(()) => match farewell {
            Err(CollectionBoxError::DeliveryError(e)) => Err(
                CorrespondenceError::CollectionBoxError(CollectionBoxError::DeliveryError(e)),
            ),
            _ => Ok(()),
        },
    }
}

/// The item a mailbox hands out for what receiving gave: the message, the error, or the end of
/// the messages when the penpal said farewell.
pub open spec fn item_of<T>(received: Result<Option<T>, ReceiveError>) -> Option<
    Result<T, ReceiveError>,
> {
    match received {
        Ok(Some(message)) => Some(Ok(message)),
        Ok(None) => None,
        Err(e) => Some(Err(e)),
    }
}

/// The delivery attempts of a post office: for each, whether it was the farewell and what
/// delivering it came to.
pub type Attempts = Seq<(bool, Result<(), DeliveryError>)>;

/// Whether a delivery attempt makes the post office stop.
pub open spec fn stops(attempt: (bool, Result<(), DeliveryError>)) -> bool {
    office_verdict(attempt.0, attempt.1) is Some
}

/// The bookkeeping of a post office: it delivers until its first failed delivery or its
/// delivered farewell, gives that verdict once, and delivers nothing after it.
pub struct PostOffice {
    open: bool,
    attempts: Ghost<Attempts>,
}

impl PostOffice {
    /// The delivery attempts made so far, in order.
    pub closed spec fn attempts(&self) -> Attempts {
        self.attempts@
    }

    /// Whether the post office still delivers.
    pub closed spec fn is_open_spec(&self) -> bool {
        self.open
    }

    /// Every attempt but the last one let the post office go on, and the post office is open
    /// exactly when no attempt stopped it.
    pub open spec fn wf(&self) -> bool {
        let a = self.attempts();
        &&& forall|i: int| 0 <= i < a.len() - 1 ==> !#[trigger] stops(a[i])
        &&& self.is_open_spec() <==> (a.len() == 0 || !stops(a.last()))
    }

    /// A post office that has delivered nothing yet.
    pub fn new() -> (office: Self)
        ensures
            office.wf(),
            office.is_open_spec(),
            office.attempts() == Seq::<(bool, Result<(), DeliveryError>)>::empty(),
    {
        PostOffice { open: true, attempts: Ghost(Seq::empty()) }
    }

    /// Whether the post office still delivers.
    pub fn is_open(&self) -> (open: bool)
        ensures
            open == self.is_open_spec(),
    {
        self.open
    }

    /// Takes in what delivering a message (or, when `farewell` holds, the farewell) came to.
    /// Returns `None` while the post office keeps delivering; it stops at the first failed
    /// delivery or after delivering the farewell, and then returns `Some` of that result.
    pub fn record(&mut self, farewell: bool, delivered: Result<(), DeliveryError>) -> (verdict:
        Option<Result<(), DeliveryError>>)
        requires
            old(self).wf(),
            old(self).is_open_spec(),
        ensures
            verdict == office_verdict(farewell, delivered),
            final(self).wf(),
            final(self).attempts() == old(self).attempts().push((farewell, delivered)),
            final(self).is_open_spec() == (verdict is None),
    {
        let ghost before = self.attempts@;
        let verdict = match delivered {
            Err(e) => Some(Err(e)),
            Ok(()) => if farewell {
                Some(Ok(()))
            } else {
                None
            },
        };
        self.open = verdict.is_none();
        self.attempts = Ghost(before.push((farewell, delivered)));
        proof {
            let a = self.attempts@;
            assert forall|i: int| 0 <= i < a.len() - 1 implies !#[trigger] stops(a[i]) by {
                assert(a[i] == before[i]);
                if i < before.len() - 1 {
                } else {
                    assert(i == before.len() - 1);
                }
            }
        }
        verdict
    }
}

/// The error of a collection box whose message the post office did not take, given the outcome
/// the post office stopped with.
pub fn refused_send(outcome: Result<(), DeliveryError>) -> (err: CollectionBoxError)
    ensures
        err == refusal(outcome),
{
    match outcome {
        Ok(()) => CollectionBoxError::FarewellAlreadySent,
        Err(e) => CollectionBoxError::DeliveryError(e),
    }
}

/// What the mailman does with the next item of the mailbox.
pub enum MailmanTask<I> {
    /// Hand the message to the callback.
    Handle(I),
    /// Stop handling messages with this outcome, and say farewell.
    SayFarewell(Result<(), CorrespondenceError>),
}

/// The first failure among the outcomes of handling messages, or success when there is none.
pub open spec fn first_failure(outcomes: Seq<Result<(), CorrespondenceError>>) -> Result<
    (),
    CorrespondenceError,
>
    decreases outcomes.len(),
{
    if outcomes.len() == 0 {
        Ok(())
    } else if outcomes[0] is Err {
        outcomes[0]
    } else {
        first_failure(outcomes.drop_first())
    }
}

/// The bookkeeping of the mailman of a correspondence: it hands messages to the callback
/// until the messages end or the first failure, of the callback or of receiving.
pub struct Mailman {
    running: bool,
    outcomes: Ghost<Seq<Result<(), CorrespondenceError>>>,
}

impl Mailman {
    /// The outcomes so far of handling messages, a failure to receive one among them.
    pub closed spec fn outcomes(&self) -> Seq<Result<(), CorrespondenceError>> {
        self.outcomes@
    }

    /// Whether the mailman still hands out messages.
    pub closed spec fn is_running_spec(&self) -> bool {
        self.running
    }

    /// Every outcome but the last one is a success, and while the mailman runs all are.
    pub open spec fn wf(&self) -> bool {
        let o = self.outcomes();
        &&& forall|i: int| 0 <= i < o.len() - 1 ==> #[trigger] o[i] is Ok
        &&& self.is_running_spec() ==> forall|i: int| 0 <= i < o.len() ==> #[trigger] o[i] is Ok
    }

    /// A mailman that has handled nothing yet.
    pub fn new() -> (mailman: Self)
        ensures
            mailman.wf(),
            mailman.is_running_spec(),
            mailman.outcomes() == Seq::<Result<(), CorrespondenceError>>::empty(),
    {
        Mailman { running: true, outcomes: Ghost(Seq::empty()) }
    }

    /// Whether the mailman still hands out messages.
    pub fn is_running(&self) -> (running: bool)
        ensures
            running == self.is_running_spec(),
    {
        self.running
    }

    /// Decides what to do with the next item of the mailbox: hand on a message, or stop with
    /// success when the messages end (`None`), or with the failure to receive.
    pub fn take<I>(&mut self, item: Option<Result<I, ReceiveError>>) -> (task: MailmanTask<I>)
        requires
            old(self).wf(),
            old(self).is_running_spec(),
        ensures
            final(self).wf(),
            match item {
                None => task == MailmanTask::<I>::SayFarewell(Ok(())) && !final(self).is_running_spec()
                    && final(self).outcomes() == old(self).outcomes(),
                Some(Err(e)) => task == MailmanTask::<I>::SayFarewell(
                    Err(CorrespondenceError::ReceiveError(e)),
                ) && !final(self).is_running_spec() && final(self).outcomes() == old(
                    self,
                ).outcomes().push(Err(CorrespondenceError::ReceiveError(e))),
                Some(Ok(message)) => task == MailmanTask::Handle(message)
                    && final(self).is_running_spec() && final(self).outcomes() == old(
                    self,
                ).outcomes(),
            },
    {
        match item {
            None => {
                self.running = false;
                MailmanTask::SayFarewell(Ok(()))
            },
            Some(Err(e)) => {
                let ghost before = self.outcomes@;
                self.running = false;
                self.outcomes = Ghost(before.push(Err(CorrespondenceError::ReceiveError(e))));
                proof {
                    let o = self.outcomes@;
                    assert forall|i: int| 0 <= i < o.len() - 1 implies #[trigger] o[i] is Ok by {
                        assert(o[i] == before[i]);
                    }
                }
                MailmanTask::SayFarewell(Err(CorrespondenceError::ReceiveError(e)))
            },
            Some(Ok(message)) => MailmanTask::Handle(message),
        }
    }

    /// Takes in what the callback made of a message: the mailman goes on after a success
    /// (`None`) and stops with the failure (`Some`).
    pub fn handled(&mut self, outcome: Result<(), CorrespondenceError>) -> (stop: Option<
        Result<(), CorrespondenceError>,
    >)
        requires
            old(self).wf(),
            old(self).is_running_spec(),
        ensures
            final(self).wf(),
            final(self).outcomes() == old(self).outcomes().push(outcome),
            outcome is Ok ==> stop is None && final(self).is_running_spec(),
            outcome is Err ==> stop == Some(outcome) && !final(self).is_running_spec(),
    {
        let ghost before = self.outcomes@;
        self.outcomes = Ghost(before.push(outcome));
        proof {
            let o = self.outcomes@;
            assert forall|i: int| 0 <= i < o.len() - 1 implies #[trigger] o[i] is Ok by {
                assert(o[i] == before[i]);
            }
        }
        match outcome {
            Ok(()) => None,
            Err(e) => {
                self.running = false;
                Some(Err(e))
            },
        }
    }
}

/// The outcome a correspondence ends with, given how handling the incoming messages stopped
/// (an error, or the penpal's farewell) and what sending the closing farewell came to.
pub fn correspondence_outcome(
    stopped: Result<(), CorrespondenceError>,
    farewell: Result<(), CollectionBoxError>,
) -> (outcome: Result<(), CorrespondenceError>)
    ensures
        outcome == closing_outcome(stopped, farewell),
        stopped is Err ==> outcome == stopped,
        stopped is Ok ==> (farewell matches Err(CollectionBoxError::DeliveryError(d)) ==> outcome == Err::<(), CorrespondenceError>(CorrespondenceError::CollectionBoxError(CollectionBoxError::DeliveryError(d)))),
        outcome is Ok <==> (stopped is Ok && !(farewell matches Err(CollectionBoxError::DeliveryError(_)))),
{
    match stopped {
        Err(e) => Err(e),
        Ok(()) => match farewell {
            Err(CollectionBoxError::DeliveryError(e)) => Err(
                CorrespondenceError::CollectionBoxError(CollectionBoxError::DeliveryError(e)),
            ),
            _ => Ok(()),
        },
    }
}

/// The item a mailbox hands out for what receiving gave; `None` ends the messages.
pub fn mailbox_item<T>(received: Result<Option<T>, ReceiveError>) -> (item: Option<
    Result<T, ReceiveError>,
>)
    ensures
        item == item_of(received),
        received matches Err(e) ==> item == Some(Err::<T, ReceiveError>(e)),
        received matches Ok(Some(m)) ==> item == Some(Ok::<T, ReceiveError>(m)),
        item is None <==> received == Ok::<Option<T>, ReceiveError>(None),
{
    match received {
        Ok(Some(message)) => Some(Ok(message)),
        Ok(None) => None,
        Err(e) => Some(Err(e)),
    }
}

/// Once the farewell is delivered the post office stops with success, and a collection box
/// whose message it then refuses reports that the farewell was already sent.
pub proof fn lemma_farewell_closes_office()
    ensures
        office_verdict(true, Ok(())) == Some(Ok::<(), DeliveryError>(())),
        refusal(Ok(())) == CollectionBoxError::FarewellAlreadySent,
{
}

/// A failed delivery stops the post office with that failure, whatever was being delivered,
/// and a collection box whose message it then refuses reports that same failure.
pub proof fn lemma_failure_closes_office(farewell: bool, e: DeliveryError)
    ensures
        office_verdict(farewell, Err(e)) == Some(Err::<(), DeliveryError>(e)),
        refusal(Err(e)) == CollectionBoxError::DeliveryError(e),
{
}

/// While a post office is open it has delivered no farewell and met no failure; once it has
/// stopped, its verdict is that of its last attempt, and no attempt before that one stopped it.
pub proof fn lemma_office_gives_one_verdict(office: PostOffice)
    requires
        office.wf(),
    ensures
        office.is_open_spec() ==> forall|i: int|
            0 <= i < office.attempts().len() ==> !(#[trigger] office.attempts()[i]).0
                && office.attempts()[i].1 is Ok,
        !office.is_open_spec() ==> office.attempts().len() > 0 && stops(office.attempts().last())
            && forall|i: int|
            0 <= i < office.attempts().len() - 1 ==> !stops(#[trigger] office.attempts()[i]),
{
    let a = office.attempts();
    if office.is_open_spec() {
        assert forall|i: int| 0 <= i < a.len() implies !(#[trigger] a[i]).0 && a[i].1 is Ok by {
            if i < a.len() - 1 {
                assert(!stops(a[i]));
            } else {
                assert(a[i] == a.last());
            }
        }
    }
}

/// The outcome a mailman stops with is the first failure among the outcomes of handling
/// messages, or success when the messages ended without one.
pub proof fn lemma_mailman_stops_at_first_failure(mailman: Mailman)
    requires
        mailman.wf(),
    ensures
        first_failure(mailman.outcomes()) == (if mailman.outcomes().len() > 0
            && mailman.outcomes().last() is Err {
            mailman.outcomes().last()
        } else {
            Ok(())
        }),
{
    lemma_first_failure_of_successes_then(mailman.outcomes());
}

proof fn lemma_first_failure_of_successes_then(o: Seq<Result<(), CorrespondenceError>>)
    requires
        forall|i: int| 0 <= i < o.len() - 1 ==> #[trigger] o[i] is Ok,
    ensures
        first_failure(o) == (if o.len() > 0 && o.last() is Err {
            o.last()
        } else {
            Ok(())
        }),
    decreases o.len(),
{
    if o.len() > 0 {
        if o.len() == 1 {
            assert(o.last() == o[0]);
            if o[0] is Ok {
                assert(o.drop_first().len() == 0);
                assert(first_failure(o.drop_first()) == Ok::<(), CorrespondenceError>(()));
            }
        } else {
            let rest = o.drop_first();
            assert(o[0] is Ok);
            assert forall|i: int| 0 <= i < rest.len() - 1 implies #[trigger] rest[i] is Ok by {
                assert(rest[i] == o[i + 1]);
            }
            lemma_first_failure_of_successes_then(rest);
            assert(rest.last() == o.last());
            assert(first_failure(o) == first_failure(rest));
        }
    }
}

/// A mailbox hands out every message and every failure to receive, of whatever kind; only the
/// penpal's farewell ends the messages.
pub proof fn lemma_mailbox_items<T>(message: T, e: ReceiveError)
    ensures
        item_of(Ok::<Option<T>, ReceiveError>(Some(message))) == Some(Ok::<T, ReceiveError>(message)),
        item_of(Err::<Option<T>, ReceiveError>(e)) == Some(Err::<T, ReceiveError>(e)),
        item_of(Ok::<Option<T>, ReceiveError>(None)) is None,
{
}

/// After the penpal's farewell, a correspondence whose closing farewell is refused because of
/// any failed delivery ends with that failure; it ends well only when the closing farewell is
/// taken or was already sent.
pub proof fn lemma_failed_farewell_fails_correspondence(d: DeliveryError)
    ensures
        closing_outcome(Ok(()), Err(CollectionBoxError::DeliveryError(d))) == Err::<
            (),
            CorrespondenceError,
        >(CorrespondenceError::CollectionBoxError(CollectionBoxError::DeliveryError(d))),
        closing_outcome(Ok(()), Ok(())) == Ok::<(), CorrespondenceError>(()),
        closing_outcome(Ok(()), Err(CollectionBoxError::FarewellAlreadySent)) == Ok::<
            (),
            CorrespondenceError,
        >(()),
{
}

/// A message delivered without failure keeps the post office open.
pub proof fn lemma_message_keeps_office_open()
    ensures
        office_verdict(false, Ok(())) is None,
{
}

/// The error that stops a correspondence is the outcome it ends with, whatever sending the
/// closing farewell came to.
pub proof fn lemma_error_ends_correspondence(
    e: CorrespondenceError,
    farewell: Result<(), CollectionBoxError>,
)
    ensures
        closing_outcome(Err(e), farewell) == Err::<(), CorrespondenceError>(e),
{
}

} // verus!
