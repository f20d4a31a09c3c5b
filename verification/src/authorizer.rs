//! One submission per rule group, in order, each with an outcome of its own.
//!
//! The submission itself is the caller's: this module says which request is due
//! and keeps what came of it.

use vstd::prelude::*;
use rusoto_core::Region;
use crate::error::FatalError;
use crate::region::{region_is_known, select_region};
use crate::request::{
    create_auth_request, lemma_admitting_request_is_well_formed, AuthorizationRequest,
};

verus! {

/// What the remote API reported for a request that failed.
#[derive(Debug, PartialEq)]
pub enum RemoteFailure {
    /// A fault of a category that the client knows, with the fault's own text.
    Typed(String),
    /// A fault that the client could map to no category, with the error document
    /// as it was sent.
    Opaque(String),
}

/// What came of the request for one rule group.
#[derive(Debug, PartialEq)]
pub enum AuthorizationOutcome {
    Success,
    Failure(RemoteFailure),
}

/// The outcomes on record once `outcome` is reported: it is recorded for the
/// first group that has none yet; when every group has one, nothing changes.
pub open spec fn record_step(
    groups: Seq<Seq<char>>,
    recorded: Seq<AuthorizationOutcome>,
    outcome: AuthorizationOutcome,
) -> Seq<AuthorizationOutcome> {
    if recorded.len() < groups.len() {
        recorded.push(outcome)
    } else {
        recorded
    }
}

/// The group whose request is due: the first one without an outcome.
pub open spec fn pending_group(
    groups: Seq<Seq<char>>,
    recorded: Seq<AuthorizationOutcome>,
) -> Option<Seq<char>> {
    if recorded.len() < groups.len() {
        Some(groups[recorded.len() as int])
    } else {
        None
    }
}

/// The outcomes on record after the outcomes `reported` came in, in that order,
/// starting with none on record.
pub open spec fn recorded_after(
    groups: Seq<Seq<char>>,
    reported: Seq<AuthorizationOutcome>,
) -> Seq<AuthorizationOutcome>
    decreases reported.len(),
{
    if reported.len() == 0 {
        Seq::empty()
    } else {
        record_step(groups, recorded_after(groups, reported.drop_last()), reported.last())
    }
}

/// A run over the configured rule groups: the groups, what every request of the
/// run carries, and the outcomes so far.
pub struct IngressUpdate {
    region: Option<Region>,
    groups: Vec<String>,
    address: String,
    description: String,
    dry_run: bool,
    outcomes: Vec<AuthorizationOutcome>,
}

impl IngressUpdate {
    /// No run holds more outcomes than groups.
    pub closed spec fn well_formed(&self) -> bool {
        self.outcomes@.len() <= self.groups@.len()
    }

    /// The rule groups of the run, in the order of their requests.
    pub closed spec fn groups(&self) -> Seq<Seq<char>> {
        self.groups.deep_view()
    }

    /// The address that the run admits.
    pub closed spec fn address(&self) -> Seq<char> {
        self.address@
    }

    /// The annotation of every rule of the run.
    pub closed spec fn description(&self) -> Seq<char> {
        self.description@
    }

    /// Whether the run only validates.
    pub closed spec fn dry_run(&self) -> bool {
        self.dry_run
    }

    /// Whether the operator asked for a region.
    pub closed spec fn has_region(&self) -> bool {
        self.region is Some
    }

    /// The outcomes so far: the outcome at `i` is that of the group at `i`.
    pub closed spec fn outcomes(&self) -> Seq<AuthorizationOutcome> {
        self.outcomes@
    }

    /// The region that the operator asked for, if any.
    pub fn region(&self) -> (region: &Option<Region>)
        ensures
            region is Some == self.has_region(),
    {
        &self.region
    }

    /// Whether every group has its outcome.
    pub fn is_complete(&self) -> (complete: bool)
        requires
            self.well_formed(),
        ensures
            complete == (pending_group(self.groups(), self.outcomes()) is None),
            complete == (self.outcomes().len() == self.groups().len()),
            self.outcomes().len() <= self.groups().len(),
    {
        self.outcomes.len() == self.groups.len()
    }

    /// The request that is due: that for the first group without an outcome, or
    /// `None` when every group has one.
    pub fn next_request(&self) -> (request: Option<AuthorizationRequest>)
        requires
            self.well_formed(),
        ensures
            match pending_group(self.groups(), self.outcomes()) {
                Some(group) => request is Some && request->Some_0.admits(
                    group,
                    self.address(),
                    self.description(),
                    self.dry_run(),
                ),
                None => request is None,
            },
    {
        let next = self.outcomes.len();
        if next < self.groups.len() {
            Some(
                create_auth_request(
                    self.groups[next].as_str(),
                    self.address.as_str(),
                    self.description.as_str(),
                    self.dry_run,
                ),
            )
        } else {
            None
        }
    }

    /// Records what came of the request that was due. Returns whether a request
    /// was due; when none was, the outcome is dropped and nothing changes.
    pub fn record(&mut self, outcome: AuthorizationOutcome) -> (accepted: bool)
        requires
            old(self).well_formed(),
        ensures
            final(self).well_formed(),
            accepted == (pending_group(old(self).groups(), old(self).outcomes()) is Some),
            final(self).outcomes() == record_step(old(self).groups(), old(self).outcomes(), outcome),
            final(self).groups() == old(self).groups(),
            final(self).address() == old(self).address(),
            final(self).description() == old(self).description(),
            final(self).dry_run() == old(self).dry_run(),
            final(self).has_region() == old(self).has_region(),
    {
        if self.outcomes.len() < self.groups.len() {
            self.outcomes.push(outcome);
            true
        } else {
            false
        }
    }

    /// The outcomes so far, in the order of the groups.
    pub fn into_outcomes(self) -> (outcomes: Vec<AuthorizationOutcome>)
        requires
            self.well_formed(),
        ensures
            outcomes@ == self.outcomes(),
            outcomes@.len() <= self.groups().len(),
    {
        self.outcomes
    }
}

/// A copy of `texts`.
fn copy_texts(texts: &Vec<String>) -> (copy: Vec<String>)
    ensures
        copy.deep_view() == texts.deep_view(),
{
    let mut copy: Vec<String> = Vec::new();
    let mut i: usize = 0;
    while i < texts.len()
        invariant
            i <= texts.len(),
            copy.deep_view() == texts.deep_view().take(i as int),
        decreases texts.len() - i,
    {
        let ghost before = copy.deep_view();
        let text = texts[i].clone();
        copy.push(text);
        assert(copy.deep_view() =~= before.push(text@));
        assert(texts.deep_view().take(i + 1) =~= texts.deep_view().take(i as int).push(texts[i as int]@));
        i += 1;
    }
    assert(texts.deep_view().take(texts.len() as int) =~= texts.deep_view());
    copy
}

/// Begins a run that admits `ip_address` to each of `security_group_ids`, in that
/// order, with `description` as the annotation of every rule. A requested region
/// that is no region ends the run before any request is due.
pub fn update_ips(
    ip_address: &str,
    security_group_ids: &Vec<String>,
    requested_region: &Option<String>,
    description: &str,
    is_dry_run: bool,
) -> (result: Result<IngressUpdate, FatalError>)
    ensures
        match result {
            Ok(run) => {
                &&& run.well_formed()
                &&& requested_region is Some ==> region_is_known(requested_region->Some_0@)
                &&& run.has_region() == requested_region is Some
                &&& run.groups() == security_group_ids.deep_view()
                &&& run.address() == ip_address@
                &&& run.description() == description@
                &&& run.dry_run() == is_dry_run
                &&& run.outcomes() == Seq::<AuthorizationOutcome>::empty()
            },
            Err(error) => {
                &&& error is InvalidRegion
                &&& requested_region is Some
                &&& !region_is_known(requested_region->Some_0@)
            },
        },
{
    let region = match select_region(requested_region) {
        Ok(region) => region,
        Err(error) => {
            return Err(error);
        },
    };
    Ok(
        IngressUpdate {
            region,
            groups: copy_texts(security_group_ids),
            address: ip_address.to_string(),
            description: description.to_string(),
            dry_run: is_dry_run,
            outcomes: Vec::new(),
        },
    )
}

/// Whether `outcome` is what `submit` gave for the request that admits `address`
/// to `group`.
pub open spec fn answers<F: Fn(AuthorizationRequest) -> AuthorizationOutcome>(
    submit: F,
    group: Seq<char>,
    address: Seq<char>,
    description: Seq<char>,
    dry_run: bool,
    outcome: AuthorizationOutcome,
) -> bool {
    exists|request: AuthorizationRequest|
        {
            &&& request.admits(group, address, description, dry_run)
            &&& #[trigger] call_ensures(submit, (request,), outcome)
        }
}

/// Runs a whole update with `submit` standing for the remote API: one request
/// per group, in order, each submitted whatever came of the ones before. The
/// outcome at each position is what `submit` gave for the request of the group at
/// that position.
pub fn authorize_all<F: Fn(AuthorizationRequest) -> AuthorizationOutcome>(
    security_group_ids: &Vec<String>,
    ip_address: &str,
    description: &str,
    is_dry_run: bool,
    submit: F,
) -> (outcomes: Vec<AuthorizationOutcome>)
    requires
        forall|request: AuthorizationRequest|
            request.well_formed() ==> call_requires(submit, (request,)),
    ensures
        outcomes@.len() == security_group_ids@.len(),
        forall|i: int|
            0 <= i < security_group_ids@.len() ==> answers(
                submit,
                security_group_ids@[i]@,
                ip_address@,
                description@,
                is_dry_run,
                #[trigger] outcomes@[i],
            ),
{
    let mut run = IngressUpdate {
        region: None,
        groups: copy_texts(security_group_ids),
        address: ip_address.to_string(),
        description: description.to_string(),
        dry_run: is_dry_run,
        outcomes: Vec::new(),
    };
    while !run.is_complete()
        invariant
            run.well_formed(),
            run.groups() == security_group_ids.deep_view(),
            run.address() == ip_address@,
            run.description() == description@,
            run.dry_run() == is_dry_run,
            forall|request: AuthorizationRequest|
                request.well_formed() ==> call_requires(submit, (request,)),
            forall|i: int|
                0 <= i < run.outcomes().len() ==> answers(
                    submit,
                    security_group_ids@[i]@,
                    ip_address@,
                    description@,
                    is_dry_run,
                    #[trigger] run.outcomes()[i],
                ),
        decreases run.groups().len() - run.outcomes().len(),
    {
        let ghost due = run.outcomes().len() as int;
        match run.next_request() {
            Some(request) => {
                proof {
                    lemma_admitting_request_is_well_formed(
                        request,
                        security_group_ids@[due]@,
                        ip_address@,
                        description@,
                        is_dry_run,
                    );
                }
                let outcome = submit(request);
                run.record(outcome);
            },
            None => {},
        }
    }
    run.into_outcomes()
}

/// Outcomes stay with their groups: when one outcome is reported for each request
/// in turn, the request that is due before the outcome at `i` comes in is that of
/// the group at `i`, the outcomes on record are the reported ones in their order,
/// and once every group has an outcome no request is due.
pub proof fn lemma_outcomes_follow_groups(
    groups: Seq<Seq<char>>,
    reported: Seq<AuthorizationOutcome>,
)
    requires
        reported.len() <= groups.len(),
    ensures
        recorded_after(groups, reported) == reported,
        forall|i: int|
            0 <= i < reported.len() ==> pending_group(
                groups,
                #[trigger] recorded_after(groups, reported.take(i)),
            ) == Some(groups[i]),
        reported.len() == groups.len() ==> pending_group(groups, recorded_after(groups, reported))
            is None,
{
    lemma_recorded_prefix(groups, reported);
    assert forall|i: int| 0 <= i < reported.len() implies pending_group(
        groups,
        #[trigger] recorded_after(groups, reported.take(i)),
    ) == Some(groups[i]) by {
        lemma_recorded_prefix(groups, reported.take(i));
    }
}

/// As long as there are no more outcomes than groups, every reported outcome is
/// recorded.
proof fn lemma_recorded_prefix(groups: Seq<Seq<char>>, reported: Seq<AuthorizationOutcome>)
    requires
        reported.len() <= groups.len(),
    ensures
        recorded_after(groups, reported) == reported,
    decreases reported.len(),
{
    if reported.len() > 0 {
        lemma_recorded_prefix(groups, reported.drop_last());
        assert(reported.drop_last().push(reported.last()) =~= reported);
    }
}

} // verus!
