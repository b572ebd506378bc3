//! The coordinator of a batch: which rotations to launch for the requested
//! profiles, and how their outcomes are merged into the registry.
//!
//! The rotations of a batch are independent. The coordinator hands each
//! one a copy of its profile's current key, waits for all of them, and
//! only then merges: a success replaces the profile's entry, a failure
//! leaves every entry as it was.

use crate::aws_config::AWSConfig;
use crate::registry::entries_map;
use crate::registry::entries_put;
use crate::registry::entry_index;
use crate::registry::lemma_entries_put;
use crate::registry::lemma_entry_index_from;
use crate::registry::names_distinct;
use crate::registry::EntryModel;
use crate::registry::ProfileRegistry;
use crate::rotate_error::RotateError;
use crate::rotation::result_of;
use crate::rotation::Rotation;
use crate::rotation::RotationState;
use crate::rotation::StateModel;
use vstd::prelude::*;

verus! {

/// The reason of the failure of a requested profile that the registry
/// does not hold.
pub const PROFILE_NOT_FOUND: &'static str = "profile not found";

/// How the rotation of one requested profile ended.
#[derive(Debug)]
pub enum RotationOutcome {
    /// The profile has a new key pair, and the old key is retired.
    Success { profile: String, new_credential: AWSConfig },
    /// The rotation failed; the profile's stored key pair stays.
    Failure { profile: String, reason: String },
}

/// An outcome, as plain text.
pub enum OutcomeModel {
    Success(Seq<char>, (Seq<char>, Seq<char>)),
    Failure(Seq<char>, Seq<char>),
}

impl View for RotationOutcome {
    type V = OutcomeModel;

    open spec fn view(&self) -> OutcomeModel {
        match *self {
            RotationOutcome::Success { profile, new_credential } => OutcomeModel::Success(
                profile@,
                new_credential@,
            ),
            RotationOutcome::Failure { profile, reason } => OutcomeModel::Failure(profile@, reason@),
        }
    }
}

impl OutcomeModel {
    /// The profile that the outcome belongs to.
    pub open spec fn profile(self) -> Seq<char> {
        match self {
            OutcomeModel::Success(profile, _) => profile,
            OutcomeModel::Failure(profile, _) => profile,
        }
    }
}

impl RotationOutcome {
    /// The profile that the outcome belongs to.
    pub fn profile(&self) -> (name: &str)
        ensures
            name@ == self@.profile(),
    {
        match self {
            RotationOutcome::Success { profile, .. } => profile.as_str(),
            RotationOutcome::Failure { profile, .. } => profile.as_str(),
        }
    }
}

/// The outcome of a rotation that ended in `state`, for `profile`.
pub open spec fn outcome_of(profile: Seq<char>, state: StateModel) -> Option<OutcomeModel> {
    match result_of(state) {
        Some(Ok(fresh)) => Some(OutcomeModel::Success(profile, fresh)),
        Some(Err(reason)) => Some(OutcomeModel::Failure(profile, reason)),
        None => None,
    }
}

impl Rotation {
    /// The outcome of the rotation, once it has ended.
    pub fn outcome(self) -> (o: Option<RotationOutcome>)
        ensures
            o is Some <==> outcome_of(self.profile@, self.state@) is Some,
            o matches Some(outcome) ==> outcome_of(self.profile@, self.state@) == Some(outcome@),
    {
        let Rotation { profile, old_credential: _, state } = self;
        match state {
            RotationState::Retired { new_credential } => Some(
                RotationOutcome::Success { profile, new_credential },
            ),
            RotationState::Failed { reason } => Some(RotationOutcome::Failure { profile, reason }),
            _ => None,
        }
    }
}

/// What the coordinator does for one requested profile.
#[derive(Debug)]
pub enum Dispatch {
    /// Launch a rotation of `profile`, starting from this copy of its key.
    Launch { profile: String, credential: AWSConfig },
    /// Launch nothing: the outcome is known already.
    Settled { outcome: RotationOutcome },
}

/// A dispatch, as plain text.
pub enum DispatchModel {
    Launch(Seq<char>, (Seq<char>, Seq<char>)),
    Settled(OutcomeModel),
}

impl View for Dispatch {
    type V = DispatchModel;

    open spec fn view(&self) -> DispatchModel {
        match *self {
            Dispatch::Launch { profile, credential } => DispatchModel::Launch(profile@, credential@),
            Dispatch::Settled { outcome } => DispatchModel::Settled(outcome@),
        }
    }
}

/// The dispatch that is owed for a requested name: a launch with the
/// registry's key where the registry holds the name, and else the failure
/// `profile not found`.
pub open spec fn dispatch_for(registry: Map<Seq<char>, (Seq<char>, Seq<char>)>, name: Seq<char>) -> DispatchModel {
    if registry.dom().contains(name) {
        DispatchModel::Launch(name, registry[name])
    } else {
        DispatchModel::Settled(OutcomeModel::Failure(name, PROFILE_NOT_FOUND@))
    }
}

/// Decides, for each requested name in order, what to do. A dry run
/// dispatches nothing at all.
pub fn fan_out(profile_names: &Vec<String>, registry: &ProfileRegistry, dry_run: bool) -> (dispatches: Vec<Dispatch>)
    ensures
        dry_run ==> dispatches@.len() == 0,
        !dry_run ==> dispatches@.len() == profile_names@.len(),
        !dry_run ==> forall|i: int|
            0 <= i < profile_names@.len() ==> (#[trigger] dispatches@[i])@ == dispatch_for(
                registry@,
                profile_names@[i]@,
            ),
{
    let mut dispatches: Vec<Dispatch> = Vec::new();
    if dry_run {
        return dispatches;
    }
    let mut i: usize = 0;
    while i < profile_names.len()
        invariant
            i <= profile_names@.len(),
            dispatches@.len() == i,
            forall|k: int|
                0 <= k < i ==> (#[trigger] dispatches@[k])@ == dispatch_for(registry@, profile_names@[k]@),
        decreases profile_names@.len() - i,
    {
        let profile: String = profile_names[i].clone();
        let dispatch = match registry.get(profile.as_str()) {
            Some(current) => Dispatch::Launch { profile, credential: current.clone() },
            None => Dispatch::Settled {
                outcome: RotationOutcome::Failure { profile, reason: PROFILE_NOT_FOUND.to_owned() },
            },
        };
        dispatches.push(dispatch);
        i = i + 1;
    }
    dispatches
}

/// Whether the outcome is the one of the dispatch: the settled outcome
/// itself, or an outcome of the launched profile.
pub open spec fn answers(dispatch: DispatchModel, outcome: OutcomeModel) -> bool {
    match dispatch {
        DispatchModel::Settled(settled) => outcome == settled,
        DispatchModel::Launch(profile, _) => outcome.profile() == profile,
    }
}

/// The entries after the first `n` outcomes are merged in order: a success
/// binds its profile to the new key pair, a failure changes nothing.
pub open spec fn merged_entries(entries: Seq<EntryModel>, outcomes: Seq<OutcomeModel>, n: int) -> Seq<EntryModel>
    decreases n,
{
    if n <= 0 || n > outcomes.len() {
        entries
    } else {
        let before = merged_entries(entries, outcomes, n - 1);
        match outcomes[n - 1] {
            OutcomeModel::Success(profile, fresh) => entries_put(before, profile, fresh),
            OutcomeModel::Failure(_, _) => before,
        }
    }
}

/// The failures among the first `n` outcomes, in order: profile and reason.
pub open spec fn failures_of(outcomes: Seq<OutcomeModel>, n: int) -> Seq<(Seq<char>, Seq<char>)>
    decreases n,
{
    if n <= 0 || n > outcomes.len() {
        Seq::empty()
    } else {
        let before = failures_of(outcomes, n - 1);
        match outcomes[n - 1] {
            OutcomeModel::Success(_, _) => before,
            OutcomeModel::Failure(profile, reason) => before.push((profile, reason)),
        }
    }
}

/// The outcomes of a batch, as plain text.
pub open spec fn outcomes_model(outcomes: Seq<RotationOutcome>) -> Seq<OutcomeModel> {
    Seq::new(outcomes.len(), |i: int| outcomes[i]@)
}

/// Every success among the outcomes belongs to a profile of the registry.
pub open spec fn successes_are_known(registry: Map<Seq<char>, (Seq<char>, Seq<char>)>, outcomes: Seq<OutcomeModel>) -> bool {
    forall|i: int|
        0 <= i < outcomes.len() && (#[trigger] outcomes[i]) is Success ==> registry.dom().contains(
            outcomes[i].profile(),
        )
}

/// What a batch has come to.
#[derive(Debug)]
pub struct RunReport {
    /// The registry with every rotated profile's new key pair.
    pub registry: ProfileRegistry,
    /// The rotated profiles alone: what is to be written to the store.
    pub updates: ProfileRegistry,
    /// One error for each failed profile, in the order of the outcomes.
    pub failures: Vec<RotateError>,
}

/// A list of errors as plain text, in order: profile and reason. An error
/// that belongs to no profile counts as one of the profile with no name.
pub open spec fn failure_texts(failures: Seq<RotateError>) -> Seq<(Seq<char>, Seq<char>)> {
    Seq::new(
        failures.len(),
        |i: int|
            (
                match failures[i].profile {
                    Some(profile) => profile@,
                    None => Seq::empty(),
                },
                failures[i].message@,
            ),
    )
}

/// Merges the outcomes of a batch into a copy of the registry. Each
/// success replaces its profile's entry; a failure leaves the registry as
/// it is and is reported with its profile's name.
pub fn fan_in(registry: &ProfileRegistry, outcomes: &Vec<RotationOutcome>) -> (report: RunReport)
    requires
        successes_are_known(registry@, outcomes_model(outcomes@)),
    ensures
        registry.wf() ==> report.registry.wf(),
        registry.wf() ==> report.registry@.dom() == registry@.dom(),
        report.registry.entries() == merged_entries(
            registry.entries(),
            outcomes_model(outcomes@),
            outcomes@.len() as int,
        ),
        report.updates.wf(),
        report.updates.entries() == merged_entries(
            Seq::empty(),
            outcomes_model(outcomes@),
            outcomes@.len() as int,
        ),
        forall|i: int| 0 <= i < report.failures@.len() ==> (#[trigger] report.failures@[i]).profile is Some,
        failure_texts(report.failures@) == failures_of(
            outcomes_model(outcomes@),
            outcomes@.len() as int,
        ),
{
    let ghost results = outcomes_model(outcomes@);
    let mut merged = registry.clone();
    let mut updates = ProfileRegistry::new();
    let mut failures: Vec<RotateError> = Vec::new();
    let mut i: usize = 0;
    while i < outcomes.len()
        invariant
            i <= outcomes@.len(),
            results == outcomes_model(outcomes@),
            registry.wf() ==> merged.wf(),
            merged.entries() == merged_entries(registry.entries(), results, i as int),
            updates.wf(),
            updates.entries() == merged_entries(Seq::empty(), results, i as int),
            forall|k: int| 0 <= k < failures@.len() ==> (#[trigger] failures@[k]).profile is Some,
            failure_texts(failures@) == failures_of(results, i as int),
        decreases outcomes@.len() - i,
    {
        assert(results[i as int] == outcomes@[i as int]@);
        match &outcomes[i] {
            RotationOutcome::Success { profile, new_credential } => {
                merged.insert(profile.clone(), new_credential.clone());
                updates.insert(profile.clone(), new_credential.clone());
            },
            RotationOutcome::Failure { profile, reason } => {
                failures.push(RotateError { message: reason.clone(), profile: Some(profile.clone()) });
                assert(failure_texts(failures@) =~= failures_of(results, i as int).push(
                    (profile@, reason@),
                ));
            },
        }
        i = i + 1;
    }
    proof {
        if registry.wf() {
            merge_keeps_the_profiles(registry.entries(), results);
        }
    }
    RunReport { registry: merged, updates, failures }
}

/// Whether every success among the outcomes belongs to a profile of the
/// registry: the condition under which [`fan_in`] may be called.
pub fn outcomes_fit(registry: &ProfileRegistry, outcomes: &Vec<RotationOutcome>) -> (fit: bool)
    ensures
        fit == successes_are_known(registry@, outcomes_model(outcomes@)),
{
    let ghost results = outcomes_model(outcomes@);
    let mut i: usize = 0;
    while i < outcomes.len()
        invariant
            i <= outcomes@.len(),
            results == outcomes_model(outcomes@),
            forall|k: int|
                0 <= k < i && (#[trigger] results[k]) is Success ==> registry@.dom().contains(
                    results[k].profile(),
                ),
        decreases outcomes@.len() - i,
    {
        assert(results[i as int] == outcomes@[i as int]@);
        match &outcomes[i] {
            RotationOutcome::Success { profile, .. } => {
                if !registry.contains(profile.as_str()) {
                    return false;
                }
            },
            RotationOutcome::Failure { .. } => {},
        }
        i = i + 1;
    }
    true
}

/// One outcome for each dispatch of a batch is one outcome for each
/// requested name, in order: none is dropped, a name that the registry
/// does not hold has failed as not found, and every success belongs to a
/// profile of the registry, as [`fan_in`] asks.
pub proof fn outcomes_of_a_batch_fit(registry: Map<Seq<char>, (Seq<char>, Seq<char>)>, names: Seq<Seq<char>>, dispatches: Seq<DispatchModel>, outcomes: Seq<OutcomeModel>)
    requires
        dispatches.len() == names.len(),
        forall|i: int| 0 <= i < names.len() ==> #[trigger] dispatches[i] == dispatch_for(registry, names[i]),
        outcomes.len() == dispatches.len(),
        forall|i: int| 0 <= i < dispatches.len() ==> answers(dispatches[i], #[trigger] outcomes[i]),
    ensures
        outcomes.len() == names.len(),
        forall|i: int| 0 <= i < names.len() ==> (#[trigger] outcomes[i]).profile() == names[i],
        forall|i: int|
            0 <= i < names.len() && !registry.dom().contains(names[i]) ==> #[trigger] outcomes[i]
                == OutcomeModel::Failure(names[i], PROFILE_NOT_FOUND@),
        successes_are_known(registry, outcomes),
{
    assert forall|i: int| 0 <= i < names.len() implies (#[trigger] outcomes[i]).profile() == names[i] && (
    !registry.dom().contains(names[i]) ==> outcomes[i] == OutcomeModel::Failure(
        names[i],
        PROFILE_NOT_FOUND@,
    )) && (outcomes[i] is Success ==> registry.dom().contains(outcomes[i].profile())) by {
        assert(dispatches[i] == dispatch_for(registry, names[i]));
        assert(answers(dispatches[i], outcomes[i]));
    }
}

/// Merging keeps the names distinct, and one merged outcome changes the
/// mapping at the profile of a success and nowhere else.
proof fn lemma_merge_step(entries: Seq<EntryModel>, outcomes: Seq<OutcomeModel>, n: int)
    requires
        names_distinct(entries),
        0 <= n <= outcomes.len(),
    ensures
        names_distinct(merged_entries(entries, outcomes, n)),
        n > 0 ==> entries_map(merged_entries(entries, outcomes, n)) == match outcomes[n - 1] {
            OutcomeModel::Success(profile, fresh) => entries_map(
                merged_entries(entries, outcomes, n - 1),
            ).insert(profile, fresh),
            OutcomeModel::Failure(_, _) => entries_map(merged_entries(entries, outcomes, n - 1)),
        },
    decreases n,
{
    if n > 0 {
        lemma_merge_step(entries, outcomes, n - 1);
        match outcomes[n - 1] {
            OutcomeModel::Success(profile, fresh) => {
                lemma_entries_put(merged_entries(entries, outcomes, n - 1), profile, fresh);
            },
            OutcomeModel::Failure(_, _) => {},
        }
    }
}

/// The merge invents no profile and drops none: where every success
/// belongs to a known profile, the merged registry has the same names in
/// the same order.
pub proof fn merge_keeps_the_profiles(entries: Seq<EntryModel>, outcomes: Seq<OutcomeModel>)
    requires
        names_distinct(entries),
        successes_are_known(entries_map(entries), outcomes),
    ensures
        names_distinct(merged_entries(entries, outcomes, outcomes.len() as int)),
        merged_entries(entries, outcomes, outcomes.len() as int).len() == entries.len(),
        forall|i: int|
            0 <= i < entries.len() ==> (#[trigger] merged_entries(
                entries,
                outcomes,
                outcomes.len() as int,
            )[i]).0 == entries[i].0,
        entries_map(merged_entries(entries, outcomes, outcomes.len() as int)).dom() == entries_map(
            entries,
        ).dom(),
{
    lemma_merge_keeps(entries, outcomes, outcomes.len() as int);
}

proof fn lemma_merge_keeps(entries: Seq<EntryModel>, outcomes: Seq<OutcomeModel>, n: int)
    requires
        names_distinct(entries),
        successes_are_known(entries_map(entries), outcomes),
        0 <= n <= outcomes.len(),
    ensures
        names_distinct(merged_entries(entries, outcomes, n)),
        merged_entries(entries, outcomes, n).len() == entries.len(),
        forall|i: int|
            0 <= i < entries.len() ==> (#[trigger] merged_entries(entries, outcomes, n)[i]).0
                == entries[i].0,
        entries_map(merged_entries(entries, outcomes, n)).dom() == entries_map(entries).dom(),
    decreases n,
{
    lemma_merge_step(entries, outcomes, n);
    if n > 0 {
        lemma_merge_keeps(entries, outcomes, n - 1);
        let before = merged_entries(entries, outcomes, n - 1);
        let after = merged_entries(entries, outcomes, n);
        match outcomes[n - 1] {
            OutcomeModel::Success(profile, fresh) => {
                assert(outcomes[n - 1].profile() == profile);
                assert(entries_map(before).dom().contains(profile));
                lemma_entry_index_from(before, profile, 0);
                assert(entry_index(before, profile) < before.len());
                assert(entries_map(after).dom() =~= entries_map(entries).dom());
                assert forall|i: int| 0 <= i < entries.len() implies (#[trigger] after[i]).0
                    == entries[i].0 by {
                    assert(before[i].0 == entries[i].0);
                }
            },
            OutcomeModel::Failure(_, _) => {},
        }
    }
}

/// A profile without a success among the outcomes keeps its entry: the
/// merged registry binds it as the registry before the merge did, or as
/// little.
pub proof fn failed_profile_keeps_its_credential(entries: Seq<EntryModel>, outcomes: Seq<OutcomeModel>, profile: Seq<char>)
    requires
        names_distinct(entries),
        forall|i: int|
            0 <= i < outcomes.len() && (#[trigger] outcomes[i]) is Success ==> outcomes[i].profile()
                != profile,
    ensures
        entries_map(merged_entries(entries, outcomes, outcomes.len() as int)).dom().contains(profile)
            == entries_map(entries).dom().contains(profile),
        entries_map(merged_entries(entries, outcomes, outcomes.len() as int))[profile] == entries_map(
            entries,
        )[profile],
{
    lemma_unrotated(entries, outcomes, outcomes.len() as int, profile);
}

proof fn lemma_unrotated(entries: Seq<EntryModel>, outcomes: Seq<OutcomeModel>, n: int, profile: Seq<char>)
    requires
        names_distinct(entries),
        0 <= n <= outcomes.len(),
        forall|i: int|
            0 <= i < n && (#[trigger] outcomes[i]) is Success ==> outcomes[i].profile() != profile,
    ensures
        entries_map(merged_entries(entries, outcomes, n)).dom().contains(profile) == entries_map(
            entries,
        ).dom().contains(profile),
        entries_map(merged_entries(entries, outcomes, n))[profile] == entries_map(entries)[profile],
    decreases n,
{
    lemma_merge_step(entries, outcomes, n);
    if n > 0 {
        lemma_unrotated(entries, outcomes, n - 1, profile);
        if outcomes[n - 1] is Success {
            assert(outcomes[n - 1].profile() != profile);
        }
    }
}

/// A profile whose last success among the outcomes is at `at` is bound to
/// the key pair of that success.
pub proof fn rotated_profile_gets_its_new_credential(entries: Seq<EntryModel>, outcomes: Seq<OutcomeModel>, at: int)
    requires
        names_distinct(entries),
        0 <= at < outcomes.len(),
        outcomes[at] is Success,
        forall|j: int|
            at < j < outcomes.len() && (#[trigger] outcomes[j]) is Success ==> outcomes[j].profile()
                != outcomes[at].profile(),
    ensures
        entries_map(merged_entries(entries, outcomes, outcomes.len() as int)).dom().contains(
            outcomes[at].profile(),
        ),
        entries_map(merged_entries(entries, outcomes, outcomes.len() as int))[outcomes[at].profile()]
            == outcomes[at]->Success_1,
{
    lemma_rotated(entries, outcomes, outcomes.len() as int, at);
}

proof fn lemma_rotated(entries: Seq<EntryModel>, outcomes: Seq<OutcomeModel>, n: int, at: int)
    requires
        names_distinct(entries),
        0 <= at < n <= outcomes.len(),
        outcomes[at] is Success,
        forall|j: int|
            at < j < n && (#[trigger] outcomes[j]) is Success ==> outcomes[j].profile()
                != outcomes[at].profile(),
    ensures
        entries_map(merged_entries(entries, outcomes, n)).dom().contains(outcomes[at].profile()),
        entries_map(merged_entries(entries, outcomes, n))[outcomes[at].profile()]
            == outcomes[at]->Success_1,
    decreases n,
{
    lemma_merge_step(entries, outcomes, n);
    if at < n - 1 {
        lemma_rotated(entries, outcomes, n - 1, at);
        if outcomes[n - 1] is Success {
            assert(outcomes[n - 1].profile() != outcomes[at].profile());
        }
    }
}

/// The failure list holds exactly the failures among the outcomes: a
/// profile and reason are listed if and only if some outcome is that
/// failure, and a batch without failures has an empty list.
pub proof fn failures_are_exactly_the_failed(outcomes: Seq<OutcomeModel>, profile: Seq<char>, reason: Seq<char>)
    ensures
        failures_of(outcomes, outcomes.len() as int).contains((profile, reason)) <==> exists|i: int|
            0 <= i < outcomes.len() && #[trigger] outcomes[i] == OutcomeModel::Failure(profile, reason),
        (forall|i: int| 0 <= i < outcomes.len() ==> (#[trigger] outcomes[i]) is Success) ==> failures_of(
            outcomes,
            outcomes.len() as int,
        ).len() == 0,
{
    lemma_failures(outcomes, outcomes.len() as int, profile, reason);
}

proof fn lemma_failures(outcomes: Seq<OutcomeModel>, n: int, profile: Seq<char>, reason: Seq<char>)
    requires
        0 <= n <= outcomes.len(),
    ensures
        failures_of(outcomes, n).contains((profile, reason)) <==> exists|i: int|
            0 <= i < n && #[trigger] outcomes[i] == OutcomeModel::Failure(profile, reason),
        (forall|i: int| 0 <= i < n ==> (#[trigger] outcomes[i]) is Success) ==> failures_of(
            outcomes,
            n,
        ).len() == 0,
    decreases n,
{
    if n > 0 {
        lemma_failures(outcomes, n - 1, profile, reason);
        let before = failures_of(outcomes, n - 1);
        let after = failures_of(outcomes, n);
        if failures_of(outcomes, n).contains((profile, reason)) {
            let k = choose|k: int| 0 <= k < after.len() && after[k] == (profile, reason);
            if k < before.len() {
                assert(before[k] == (profile, reason));
                assert(before.contains((profile, reason)));
                let i = choose|i: int|
                    0 <= i < n - 1 && #[trigger] outcomes[i] == OutcomeModel::Failure(profile, reason);
                assert(0 <= i < n && outcomes[i] == OutcomeModel::Failure(profile, reason));
            } else {
                assert(outcomes[n - 1] == OutcomeModel::Failure(profile, reason));
            }
        }
        if exists|i: int| 0 <= i < n && #[trigger] outcomes[i] == OutcomeModel::Failure(profile, reason) {
            let i = choose|i: int|
                0 <= i < n && #[trigger] outcomes[i] == OutcomeModel::Failure(profile, reason);
            if i < n - 1 {
                assert(before.contains((profile, reason)));
                let k = choose|k: int| 0 <= k < before.len() && before[k] == (profile, reason);
                assert(after[k] == (profile, reason));
            } else {
                assert(after[after.len() - 1] == (profile, reason));
            }
        }
        if forall|i: int| 0 <= i < n ==> (#[trigger] outcomes[i]) is Success {
            assert(outcomes[n - 1] is Success);
        }
    } else {
        assert(!failures_of(outcomes, n).contains((profile, reason)));
    }
}

/// Isolation: the profile of a failure, if no rotation of it succeeded,
/// keeps the key pair it had; the profile of a success gets the key pair
/// of its last success; and the failure is listed. Neither touches the
/// other.
pub proof fn one_failure_does_not_touch_another_profile(entries: Seq<EntryModel>, outcomes: Seq<OutcomeModel>, failed: int, rotated: int)
    requires
        names_distinct(entries),
        0 <= failed < outcomes.len(),
        0 <= rotated < outcomes.len(),
        outcomes[failed] is Failure,
        outcomes[rotated] is Success,
        forall|i: int|
            0 <= i < outcomes.len() && (#[trigger] outcomes[i]) is Success ==> outcomes[i].profile()
                != outcomes[failed].profile(),
        forall|j: int|
            rotated < j < outcomes.len() && (#[trigger] outcomes[j]) is Success ==> outcomes[j].profile()
                != outcomes[rotated].profile(),
    ensures
        ({
            let merged = entries_map(merged_entries(entries, outcomes, outcomes.len() as int));
            let x = outcomes[failed].profile();
            let y = outcomes[rotated].profile();
            &&& merged.dom().contains(x) == entries_map(entries).dom().contains(x)
            &&& merged[x] == entries_map(entries)[x]
            &&& merged.dom().contains(y)
            &&& merged[y] == outcomes[rotated]->Success_1
            &&& failures_of(outcomes, outcomes.len() as int).contains(
                (x, outcomes[failed]->Failure_1),
            )
        }),
{
    let x = outcomes[failed].profile();
    failed_profile_keeps_its_credential(entries, outcomes, x);
    rotated_profile_gets_its_new_credential(entries, outcomes, rotated);
    failures_are_exactly_the_failed(outcomes, x, outcomes[failed]->Failure_1);
}

/// A batch without outcomes, as a dry run has it, changes nothing: the
/// registry stays, nothing is to be written, no failure is listed, and a
/// document to which no update is applied is the same document.
pub proof fn no_outcomes_change_nothing(entries: Seq<EntryModel>, doc: crate::document::DocumentModel)
    ensures
        merged_entries(entries, Seq::empty(), 0) == entries,
        merged_entries(Seq::empty(), Seq::empty(), 0) == Seq::<EntryModel>::empty(),
        failures_of(Seq::empty(), 0) == Seq::<(Seq<char>, Seq<char>)>::empty(),
        crate::store::document_with_updates(doc, Seq::empty()) == doc,
{
}

/// A rotation whose last step fails can be run again from the stored key
/// pair: the failed retirement ends the rotation as a failure of that
/// profile, the merge leaves the profile's entry and the store's updates
/// untouched, and the next batch launches the profile with the same key
/// pair and the same first action as before.
pub proof fn retire_failure_can_be_run_again(entries: Seq<EntryModel>, profile: Seq<char>, fresh: (Seq<char>, Seq<char>), reason: Seq<char>, doc: crate::document::DocumentModel)
    requires
        names_distinct(entries),
        entries_map(entries).dom().contains(profile),
    ensures
        ({
            let old_credential = entries_map(entries)[profile];
            let ended = crate::rotation::transition(
                old_credential,
                StateModel::Confirmed(fresh),
                crate::rotation::EventModel::RetireFailed(reason),
            );
            let outcomes = seq![OutcomeModel::Failure(profile, reason)];
            let merged = merged_entries(entries, outcomes, 1);
            &&& ended == (StateModel::Failed(reason), crate::rotation::ActionModel::Done)
            &&& outcome_of(profile, ended.0) == Some(outcomes[0])
            &&& merged == entries
            &&& crate::store::document_with_updates(doc, merged_entries(Seq::empty(), outcomes, 1)) == doc
            &&& dispatch_for(entries_map(merged), profile) == DispatchModel::Launch(profile, old_credential)
            &&& crate::rotation::first_action(old_credential) == crate::rotation::ActionModel::Issue(
                old_credential,
            )
        }),
{
    let outcomes = seq![OutcomeModel::Failure(profile, reason)];
    assert(merged_entries(entries, outcomes, 0) == entries);
    assert(merged_entries(Seq::<EntryModel>::empty(), outcomes, 0) == Seq::<EntryModel>::empty());
}

} // verus!
