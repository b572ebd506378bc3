//! The rotation of one profile's key: issue a new key, wait until the
//! service honours it, then retire the old one.
//!
//! The machine decides; its caller talks to the identity service. Each
//! step takes what the service answered to the last action and gives the
//! next action. The steps of one rotation are strictly in sequence.

use crate::aws_config::AWSConfig;
use crate::rotate_error::RotateError;
use vstd::prelude::*;

verus! {

/// The seconds to wait before the new key is probed again.
pub const PROBE_RETRY_SECONDS: u64 = 3;

/// The reason recorded when a rotation is cancelled from outside.
pub const CANCELLED: &'static str = "rotation cancelled";

/// The reason recorded when the service's answer does not fit the action
/// that was pending.
pub const UNEXPECTED: &'static str = "unexpected answer from the identity service";

/// Where a rotation stands.
#[derive(Debug)]
pub enum RotationState {
    /// Nothing has happened yet; the old key is the only one.
    Start,
    /// A new key exists but is not yet known to be honoured.
    Issued { new_credential: AWSConfig },
    /// The new key is honoured; the old key still exists.
    Confirmed { new_credential: AWSConfig },
    /// The old key is gone: the rotation is done.
    Retired { new_credential: AWSConfig },
    /// The rotation has failed for the given reason.
    Failed { reason: String },
}

/// What the identity service answered to the last action.
#[derive(Debug)]
pub enum ServiceEvent {
    /// The new key was created.
    Issued { credential: AWSConfig },
    /// The new key could not be created.
    IssueFailed { reason: String },
    /// A call authenticated with the new key went through.
    ProbeSucceeded,
    /// A call authenticated with the new key was refused.
    ProbeFailed { reason: String },
    /// The old key was deleted.
    Retired,
    /// The old key could not be deleted.
    RetireFailed { reason: String },
    /// The caller gave up on this rotation.
    Cancelled,
}

/// What the caller is to do next.
#[derive(Debug)]
pub enum Action {
    /// Create a new key, authenticated with `auth`.
    Issue { auth: AWSConfig },
    /// Make a call authenticated with `auth`, at once.
    Probe { auth: AWSConfig },
    /// Wait `delay_seconds`, then make a call authenticated with `auth`.
    ProbeAfter { auth: AWSConfig, delay_seconds: u64 },
    /// Delete the key `access_key_id`, authenticated with `auth`.
    Retire { auth: AWSConfig, access_key_id: String },
    /// Nothing more: the rotation has ended.
    Done,
}

/// A state, as plain text.
pub enum StateModel {
    Start,
    Issued((Seq<char>, Seq<char>)),
    Confirmed((Seq<char>, Seq<char>)),
    Retired((Seq<char>, Seq<char>)),
    Failed(Seq<char>),
}

/// An event, as plain text.
pub enum EventModel {
    Issued((Seq<char>, Seq<char>)),
    IssueFailed(Seq<char>),
    ProbeSucceeded,
    ProbeFailed(Seq<char>),
    Retired,
    RetireFailed(Seq<char>),
    Cancelled,
}

/// An action, as plain text.
pub enum ActionModel {
    Issue((Seq<char>, Seq<char>)),
    Probe((Seq<char>, Seq<char>)),
    ProbeAfter((Seq<char>, Seq<char>), int),
    Retire((Seq<char>, Seq<char>), Seq<char>),
    Done,
}

impl View for RotationState {
    type V = StateModel;

    open spec fn view(&self) -> StateModel {
        match *self {
            RotationState::Start => StateModel::Start,
            RotationState::Issued { new_credential } => StateModel::Issued(new_credential@),
            RotationState::Confirmed { new_credential } => StateModel::Confirmed(new_credential@),
            RotationState::Retired { new_credential } => StateModel::Retired(new_credential@),
            RotationState::Failed { reason } => StateModel::Failed(reason@),
        }
    }
}

impl View for ServiceEvent {
    type V = EventModel;

    open spec fn view(&self) -> EventModel {
        match *self {
            ServiceEvent::Issued { credential } => EventModel::Issued(credential@),
            ServiceEvent::IssueFailed { reason } => EventModel::IssueFailed(reason@),
            ServiceEvent::ProbeSucceeded => EventModel::ProbeSucceeded,
            ServiceEvent::ProbeFailed { reason } => EventModel::ProbeFailed(reason@),
            ServiceEvent::Retired => EventModel::Retired,
            ServiceEvent::RetireFailed { reason } => EventModel::RetireFailed(reason@),
            ServiceEvent::Cancelled => EventModel::Cancelled,
        }
    }
}

impl View for Action {
    type V = ActionModel;

    open spec fn view(&self) -> ActionModel {
        match *self {
            Action::Issue { auth } => ActionModel::Issue(auth@),
            Action::Probe { auth } => ActionModel::Probe(auth@),
            Action::ProbeAfter { auth, delay_seconds } => ActionModel::ProbeAfter(auth@, delay_seconds as int),
            Action::Retire { auth, access_key_id } => ActionModel::Retire(auth@, access_key_id@),
            Action::Done => ActionModel::Done,
        }
    }
}

/// Whether the state is one that no event leaves.
pub open spec fn is_terminal(state: StateModel) -> bool {
    state is Retired || state is Failed
}

/// The action with which every rotation begins: issue a new key,
/// authenticated with the old one.
pub open spec fn first_action(old_credential: (Seq<char>, Seq<char>)) -> ActionModel {
    ActionModel::Issue(old_credential)
}

/// The transition function: the state after `event` arrives in `state`,
/// and the action to take then. `old_credential` is the key that is being
/// rotated away.
///
/// A refused probe keeps the state and asks for another probe after a
/// pause, without limit. A cancellation, and an answer that does not fit
/// the pending action, fail the rotation. An ended rotation stays as it is.
pub open spec fn transition(old_credential: (Seq<char>, Seq<char>), state: StateModel, event: EventModel) -> (StateModel, ActionModel) {
    match (state, event) {
        (StateModel::Retired(_), _) => (state, ActionModel::Done),
        (StateModel::Failed(_), _) => (state, ActionModel::Done),
        (_, EventModel::Cancelled) => (StateModel::Failed(CANCELLED@), ActionModel::Done),
        (StateModel::Start, EventModel::Issued(fresh)) => (StateModel::Issued(fresh), ActionModel::Probe(fresh)),
        (StateModel::Start, EventModel::IssueFailed(reason)) => (StateModel::Failed(reason), ActionModel::Done),
        (StateModel::Issued(fresh), EventModel::ProbeSucceeded) => (
            StateModel::Confirmed(fresh),
            ActionModel::Retire(fresh, old_credential.0),
        ),
        (StateModel::Issued(fresh), EventModel::ProbeFailed(_)) => (
            StateModel::Issued(fresh),
            ActionModel::ProbeAfter(fresh, PROBE_RETRY_SECONDS as int),
        ),
        (StateModel::Confirmed(fresh), EventModel::Retired) => (StateModel::Retired(fresh), ActionModel::Done),
        (StateModel::Confirmed(_), EventModel::RetireFailed(reason)) => (
            StateModel::Failed(reason),
            ActionModel::Done,
        ),
        _ => (StateModel::Failed(UNEXPECTED@), ActionModel::Done),
    }
}

/// What an ended rotation has produced: the new key pair, or the reason
/// of the failure. A rotation that has not ended has produced nothing.
pub open spec fn result_of(state: StateModel) -> Option<Result<(Seq<char>, Seq<char>), Seq<char>>> {
    match state {
        StateModel::Retired(fresh) => Some(Ok(fresh)),
        StateModel::Failed(reason) => Some(Err(reason)),
        _ => None,
    }
}

/// One profile's rotation in progress.
#[derive(Debug)]
pub struct Rotation {
    pub profile: String,
    pub old_credential: AWSConfig,
    pub state: RotationState,
}

impl Rotation {
    /// Begins the rotation of `profile`, whose current key is
    /// `old_credential`: nothing has happened yet, and the first action is
    /// to issue a new key with the old one.
    pub fn begin(profile: String, old_credential: AWSConfig) -> (r: (Rotation, Action))
        ensures
            r.0.profile == profile,
            r.0.old_credential == old_credential,
            r.0.state@ == StateModel::Start,
            r.1@ == first_action(old_credential@),
    {
        let auth = old_credential.clone();
        (Rotation { profile, old_credential, state: RotationState::Start }, Action::Issue { auth })
    }

    /// Takes the service's answer to the last action and gives the next
    /// action, as [`transition`] says. Profile and old key stay.
    pub fn step(self, event: ServiceEvent) -> (r: (Rotation, Action))
        ensures
            r.0.profile == self.profile,
            r.0.old_credential == self.old_credential,
            (r.0.state@, r.1@) == transition(self.old_credential@, self.state@, event@),
    {
        let Rotation { profile, old_credential, state } = self;
        let (state, action): (RotationState, Action) = match (state, event) {
            (RotationState::Retired { new_credential }, _) => (RotationState::Retired { new_credential }, Action::Done),
            (RotationState::Failed { reason }, _) => (RotationState::Failed { reason }, Action::Done),
            (_, ServiceEvent::Cancelled) => (RotationState::Failed { reason: CANCELLED.to_owned() }, Action::Done),
            (RotationState::Start, ServiceEvent::Issued { credential }) => {
                let auth = credential.clone();
                (RotationState::Issued { new_credential: credential }, Action::Probe { auth })
            },
            (RotationState::Start, ServiceEvent::IssueFailed { reason }) => (RotationState::Failed { reason }, Action::Done),
            (RotationState::Issued { new_credential }, ServiceEvent::ProbeSucceeded) => {
                let auth = new_credential.clone();
                let access_key_id = old_credential.access_key_id.clone();
                (RotationState::Confirmed { new_credential }, Action::Retire { auth, access_key_id })
            },
            (RotationState::Issued { new_credential }, ServiceEvent::ProbeFailed { .. }) => {
                let auth = new_credential.clone();
                (
                    RotationState::Issued { new_credential },
                    Action::ProbeAfter { auth, delay_seconds: PROBE_RETRY_SECONDS },
                )
            },
            (RotationState::Confirmed { new_credential }, ServiceEvent::Retired) => (
                RotationState::Retired { new_credential },
                Action::Done,
            ),
            (RotationState::Confirmed { .. }, ServiceEvent::RetireFailed { reason }) => (
                RotationState::Failed { reason },
                Action::Done,
            ),
            _ => (RotationState::Failed { reason: UNEXPECTED.to_owned() }, Action::Done),
        };
        (Rotation { profile, old_credential, state }, action)
    }

    /// Whether the rotation has ended.
    pub fn is_finished(&self) -> (done: bool)
        ensures
            done == is_terminal(self.state@),
    {
        match &self.state {
            RotationState::Retired { .. } => true,
            RotationState::Failed { .. } => true,
            _ => false,
        }
    }

    /// What the rotation has produced, once it has ended: the profile with
    /// its new key pair, or the error that carries the profile's name.
    pub fn result(self) -> (r: Option<Result<(String, AWSConfig), RotateError>>)
        ensures
            match r {
                None => result_of(self.state@) is None,
                Some(Ok(pair)) => pair.0 == self.profile && result_of(self.state@) == Some(
                    Ok::<(Seq<char>, Seq<char>), Seq<char>>(pair.1@),
                ),
                Some(Err(e)) => e.profile == Some(self.profile) && result_of(self.state@) == Some(
                    Err::<(Seq<char>, Seq<char>), Seq<char>>(e.message@),
                ),
            },
    {
        let Rotation { profile, old_credential: _, state } = self;
        match state {
            RotationState::Retired { new_credential } => Some(Ok((profile, new_credential))),
            RotationState::Failed { reason } => Some(Err(RotateError { message: reason, profile: Some(profile) })),
            _ => None,
        }
    }
}

/// The old key is retired only in answer to a successful probe of the new
/// key, with the new key as authentication and the old key's identifier
/// as the key to delete.
pub proof fn retire_follows_confirmation(old_credential: (Seq<char>, Seq<char>), state: StateModel, event: EventModel)
    requires
        transition(old_credential, state, event).1 is Retire,
    ensures
        state is Issued,
        event is ProbeSucceeded,
        transition(old_credential, state, event) == (
            StateModel::Confirmed(state->Issued_0),
            ActionModel::Retire(state->Issued_0, old_credential.0),
        ),
{
}

/// A rotation ends in `Retired` only from `Confirmed`, and reaches
/// `Confirmed` only from `Issued`, and `Issued` only from `Start` or
/// `Issued`: the three steps come in order, with the same new key.
pub proof fn steps_come_in_order(old_credential: (Seq<char>, Seq<char>), state: StateModel, event: EventModel)
    requires
        !is_terminal(state),
    ensures
        ({
            let next = transition(old_credential, state, event).0;
            &&& next is Retired ==> state == StateModel::Confirmed(next->Retired_0)
            &&& next is Confirmed ==> state == StateModel::Issued(next->Confirmed_0)
            &&& next is Issued ==> state is Start || state == next
            &&& next !is Start
        }),
{
}

/// An ended rotation stays as it is and asks for nothing more.
pub proof fn ended_rotation_stays(old_credential: (Seq<char>, Seq<char>), state: StateModel, event: EventModel)
    requires
        is_terminal(state),
    ensures
        transition(old_credential, state, event) == (state, ActionModel::Done),
{
}

/// A refused probe never ends the rotation: the state stays `Issued` and
/// the next action is another probe of the same key after the pause.
pub proof fn refused_probe_is_retried(old_credential: (Seq<char>, Seq<char>), fresh: (Seq<char>, Seq<char>), reason: Seq<char>)
    ensures
        transition(old_credential, StateModel::Issued(fresh), EventModel::ProbeFailed(reason)) == (
            StateModel::Issued(fresh),
            ActionModel::ProbeAfter(fresh, 3),
        ),
{
}

/// The machine asks for no further action exactly when the rotation has
/// ended.
pub proof fn done_means_ended(old_credential: (Seq<char>, Seq<char>), state: StateModel, event: EventModel)
    ensures
        transition(old_credential, state, event).1 is Done <==> is_terminal(
            transition(old_credential, state, event).0,
        ),
{
}

} // verus!
