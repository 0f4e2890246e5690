//! Follows flight plans and flight releases with the regional authority
//! until a decision is made, and says what is then written to storage.

use crate::cache::{has_key, lemma_select_is_filter, select, KeyedCache};
use crate::grpc::{
    FlightPlanRequest, FlightPlanResponse, FlightReleaseRequest, FlightReleaseResponse,
};
use crate::region::{RegionError, RegionInterface, RequestStatus, StatusResponse};
use crate::time::{utc_now, Timestamp};
use vstd::prelude::*;

verus! {

/// Which of the two requests a loop follows.
#[derive(Clone, Copy, Debug, PartialEq, Eq, Structural)]
pub enum Workflow {
    /// The approval of a flight plan.
    FlightPlan,
    /// The release of a flight.
    FlightRelease,
}

/// Where a flight stands, as storage records it.
#[derive(Clone, Copy, Debug, PartialEq, Eq, Structural)]
pub enum FlightStatus {
    /// Ready to board.
    Ready,
    /// Boarding.
    Boarding,
    /// In the air.
    InFlight,
    /// Landed and done.
    Finished,
    /// Called off.
    Cancelled,
    /// Not yet confirmed.
    Draft,
}

/// The fields of a stored flight plan that the loops read.
#[derive(Clone, Copy, Debug, PartialEq, Eq, Structural)]
pub struct FlightPlanData {
    /// When the flight is due to leave.
    pub scheduled_departure: Option<Timestamp>,
    /// Where the flight stands.
    pub flight_status: FlightStatus,
    /// When the authority approved the plan, once it has.
    pub flight_plan_approval: Option<Timestamp>,
    /// When the authority released the flight, once it has.
    pub flight_release_approval: Option<Timestamp>,
}

/// A flight plan as storage hands it out.
#[derive(Debug)]
pub struct FlightPlanObject {
    /// The key of the flight plan.
    pub id: String,
    /// Its fields, if storage holds any.
    pub data: Option<FlightPlanData>,
}

impl View for FlightPlanObject {
    type V = (Seq<char>, Option<FlightPlanData>);

    open spec fn view(&self) -> (Seq<char>, Option<FlightPlanData>) {
        (self.id@, self.data)
    }
}

impl DeepView for FlightPlanObject {
    type V = (Seq<char>, Option<FlightPlanData>);

    open spec fn deep_view(&self) -> (Seq<char>, Option<FlightPlanData>) {
        self@
    }
}

/// A field of a stored flight plan.
#[derive(Clone, Copy, Debug, PartialEq, Eq, Structural)]
pub enum Field {
    /// When the flight is due to leave.
    ScheduledDeparture,
    /// Where the flight stands.
    FlightStatus,
    /// When the authority approved the plan.
    FlightPlanApproval,
    /// When the authority released the flight.
    FlightReleaseApproval,
}

impl Field {
    /// The time that `data` holds in this field, if the field holds a time
    /// and is set.
    pub open spec fn time_in(self, data: FlightPlanData) -> Option<Timestamp> {
        match self {
            Field::ScheduledDeparture => data.scheduled_departure,
            Field::FlightStatus => None,
            Field::FlightPlanApproval => data.flight_plan_approval,
            Field::FlightReleaseApproval => data.flight_release_approval,
        }
    }

    /// Whether `data` leaves this field unset.
    pub open spec fn unset_in(self, data: FlightPlanData) -> bool {
        self != Field::FlightStatus && self.time_in(data) is None
    }

    /// Reads the time that `data` holds in this field.
    pub fn read(&self, data: &FlightPlanData) -> (time: Option<Timestamp>)
        ensures
            time == self.time_in(*data),
    {
        match self {
            Field::ScheduledDeparture => data.scheduled_departure,
            Field::FlightStatus => None,
            Field::FlightPlanApproval => data.flight_plan_approval,
            Field::FlightReleaseApproval => data.flight_release_approval,
        }
    }

    /// The name of the field's column in storage.
    pub fn name(&self) -> (name: &'static str)
        ensures
            *self == Field::ScheduledDeparture ==> name@ == "scheduled_departure"@,
            *self == Field::FlightStatus ==> name@ == "flight_status"@,
            *self == Field::FlightPlanApproval ==> name@ == "flight_plan_approval"@,
            *self == Field::FlightReleaseApproval ==> name@ == "flight_release_approval"@,
    {
        match self {
            Field::ScheduledDeparture => "scheduled_departure",
            Field::FlightStatus => "flight_status",
            Field::FlightPlanApproval => "flight_plan_approval",
            Field::FlightReleaseApproval => "flight_release_approval",
        }
    }
}

/// Tests whether `status` is one of `statuses`.
pub fn status_among(statuses: &Vec<FlightStatus>, status: FlightStatus) -> (among: bool)
    ensures
        among == statuses@.contains(status),
{
    let mut i: usize = 0;
    while i < statuses.len()
        invariant
            0 <= i <= statuses@.len(),
            forall|j: int| 0 <= j < i ==> statuses@[j] != status,
        decreases statuses@.len() - i,
    {
        if statuses[i] == status {
            return true;
        }
        i += 1;
    }
    false
}

/// One condition on a stored flight plan.
#[derive(Debug)]
pub enum Predicate {
    /// The field is unset.
    IsNull(Field),
    /// The field is set and not later than the time.
    LessOrEqual(Field, Timestamp),
    /// The field is set and not earlier than the time.
    GreaterOrEqual(Field, Timestamp),
    /// The flight's status is none of these.
    StatusNotIn(Vec<FlightStatus>),
}

impl Predicate {
    /// Whether `data` meets the condition.
    pub open spec fn holds(&self, data: FlightPlanData) -> bool {
        match self {
            Predicate::IsNull(field) => field.unset_in(data),
            Predicate::LessOrEqual(field, limit) => field.time_in(data) matches Some(t)
                && !limit.precedes(t),
            Predicate::GreaterOrEqual(field, limit) => field.time_in(data) matches Some(t)
                && !t.precedes(*limit),
            Predicate::StatusNotIn(statuses) => !statuses@.contains(data.flight_status),
        }
    }

    /// Tests whether `data` meets the condition.
    pub fn test(&self, data: &FlightPlanData) -> (met: bool)
        ensures
            met == self.holds(*data),
    {
        match self {
            Predicate::IsNull(field) => {
                match field {
                    Field::FlightStatus => false,
                    _ => field.read(data).is_none(),
                }
            },
            Predicate::LessOrEqual(field, limit) => {
                match field.read(data) {
                    Some(time) => !limit.is_before(&time),
                    None => false,
                }
            },
            Predicate::GreaterOrEqual(field, limit) => {
                match field.read(data) {
                    Some(time) => !time.is_before(limit),
                    None => false,
                }
            },
            Predicate::StatusNotIn(statuses) => !status_among(statuses, data.flight_status),
        }
    }
}

/// A search in storage: the flight plans that meet every condition.
#[derive(Debug)]
pub struct AdvancedSearchFilter {
    /// The conditions.
    pub predicates: Vec<Predicate>,
}

impl AdvancedSearchFilter {
    /// Whether the search finds a flight plan with these fields.
    pub open spec fn finds(&self, data: FlightPlanData) -> bool {
        forall|i: int|
            0 <= i < self.predicates@.len() ==> (#[trigger] self.predicates@[i]).holds(data)
    }

    /// Tests whether the search finds a flight plan with these fields.
    pub fn matches(&self, data: &FlightPlanData) -> (found: bool)
        ensures
            found == self.finds(*data),
    {
        let mut i: usize = 0;
        while i < self.predicates.len()
            invariant
                0 <= i <= self.predicates@.len(),
                forall|j: int| 0 <= j < i ==> (#[trigger] self.predicates@[j]).holds(*data),
            decreases self.predicates@.len() - i,
        {
            if !self.predicates[i].test(data) {
                return false;
            }
            i += 1;
        }
        true
    }

    /// Whether the search finds exactly the flight plans that are to be
    /// taken to the authority at `now`.
    pub open spec fn finds_upcoming(
        &self,
        workflow: Workflow,
        now: Timestamp,
        lookahead_limit_seconds: u32,
    ) -> bool {
        forall|data: FlightPlanData|
            #[trigger] self.finds(data) <==> is_upcoming(
                workflow,
                data,
                now,
                lookahead_limit_seconds,
            )
    }
}

impl Workflow {
    /// The field in which storage records the authority's approval.
    pub open spec fn decision_field(self) -> Field {
        match self {
            Workflow::FlightPlan => Field::FlightPlanApproval,
            Workflow::FlightRelease => Field::FlightReleaseApproval,
        }
    }

    /// Names the field in which storage records the authority's approval.
    pub fn approval_field(&self) -> (field: Field)
        ensures
            field == self.decision_field(),
    {
        match self {
            Workflow::FlightPlan => Field::FlightPlanApproval,
            Workflow::FlightRelease => Field::FlightReleaseApproval,
        }
    }
}

/// Whether a flight plan with these fields is to be taken to the authority
/// at `now`: no approval is recorded yet, it leaves between `now` and
/// `lookahead_limit_seconds` later, and it is neither finished nor
/// cancelled.
pub open spec fn is_upcoming(
    workflow: Workflow,
    data: FlightPlanData,
    now: Timestamp,
    lookahead_limit_seconds: u32,
) -> bool {
    &&& workflow.decision_field().time_in(data) is None
    &&& data.scheduled_departure matches Some(departure) && !departure.precedes(now)
        && !now.later_by(lookahead_limit_seconds).precedes(departure)
    &&& data.flight_status != FlightStatus::Finished
    &&& data.flight_status != FlightStatus::Cancelled
}

/// The search for the flight plans that are to be taken to the authority at
/// `now`.
pub fn upcoming_flights_at(
    workflow: Workflow,
    now: Timestamp,
    lookahead_limit_seconds: u32,
) -> (filter: AdvancedSearchFilter)
    ensures
        filter.finds_upcoming(workflow, now, lookahead_limit_seconds),
        filter.predicates@.len() == 4,
        filter.predicates@[0] == Predicate::IsNull(workflow.decision_field()),
        filter.predicates@[1] matches Predicate::LessOrEqual(field, limit) && field
            == Field::ScheduledDeparture && limit == now.later_by(lookahead_limit_seconds),
        filter.predicates@[2] matches Predicate::GreaterOrEqual(field, limit) && field
            == Field::ScheduledDeparture && limit == now,
        filter.predicates@[3] matches Predicate::StatusNotIn(statuses) && statuses@
            == seq![FlightStatus::Finished, FlightStatus::Cancelled],
{
    let trigger_datetime = now.plus_seconds(lookahead_limit_seconds);
    let mut closed: Vec<FlightStatus> = Vec::new();
    closed.push(FlightStatus::Finished);
    closed.push(FlightStatus::Cancelled);
    assert(closed@ =~= seq![FlightStatus::Finished, FlightStatus::Cancelled]);
    let ghost closed_view = closed@;
    let mut predicates: Vec<Predicate> = Vec::new();
    predicates.push(Predicate::IsNull(workflow.approval_field()));
    predicates.push(Predicate::LessOrEqual(Field::ScheduledDeparture, trigger_datetime));
    predicates.push(Predicate::GreaterOrEqual(Field::ScheduledDeparture, now));
    predicates.push(Predicate::StatusNotIn(closed));
    let filter = AdvancedSearchFilter { predicates };
    assert forall|data: FlightPlanData| #[trigger] filter.finds(data) <==> is_upcoming(
        workflow,
        data,
        now,
        lookahead_limit_seconds,
    ) by {
        assert(closed_view[0] == FlightStatus::Finished);
        assert(closed_view[1] == FlightStatus::Cancelled);
        assert(closed_view.contains(FlightStatus::Finished));
        assert(closed_view.contains(FlightStatus::Cancelled));
        if filter.finds(data) {
            assert(filter.predicates@[0].holds(data));
            assert(filter.predicates@[1].holds(data));
            assert(filter.predicates@[2].holds(data));
            assert(filter.predicates@[3].holds(data));
        }
    }
    filter
}

/// The search for the flight plans that are to be taken to the authority
/// now, by the clock.
pub fn upcoming_flights_filter(workflow: Workflow, lookahead_limit_seconds: u32) -> (filter:
    AdvancedSearchFilter)
    ensures
        exists|now: Timestamp| #[trigger]
            filter.finds_upcoming(workflow, now, lookahead_limit_seconds),
{
    let now = utc_now();
    upcoming_flights_at(workflow, now, lookahead_limit_seconds)
}

/// A request that the authority has been told of and has not decided yet.
#[derive(Debug)]
pub struct FlightDetails {
    /// The key of the flight plan.
    pub flight_plan_id: String,
    /// When the flight is due to leave.
    pub departure_time: Timestamp,
}

/// The mathematical content of a [`FlightDetails`].
pub struct FlightRecord {
    /// The key of the flight plan.
    pub flight_plan_id: Seq<char>,
    /// When the flight is due to leave.
    pub departure_time: Timestamp,
}

impl View for FlightDetails {
    type V = FlightRecord;

    open spec fn view(&self) -> FlightRecord {
        FlightRecord { flight_plan_id: self.flight_plan_id@, departure_time: self.departure_time }
    }
}

/// The request that a stored flight plan gives rise to, if the plan has its
/// fields and a departure time among them.
pub open spec fn details_of(object: (Seq<char>, Option<FlightPlanData>)) -> Option<FlightRecord> {
    match object.1 {
        Some(data) => match data.scheduled_departure {
            Some(departure) => Some(
                FlightRecord { flight_plan_id: object.0, departure_time: departure },
            ),
            None => None,
        },
        None => None,
    }
}

impl FlightDetails {
    /// Reads the request out of a stored flight plan. Fails when the plan
    /// has no fields or no departure time.
    pub fn try_from(object: FlightPlanObject) -> (details: Result<FlightDetails, ()>)
        ensures
            details is Ok <==> details_of(object@) is Some,
            details matches Ok(d) ==> Some(d@) == details_of(object@),
    {
        let Some(data) = object.data else {
            return Err(());
        };
        let Some(departure_time) = data.scheduled_departure else {
            return Err(());
        };
        Ok(FlightDetails { flight_plan_id: object.id, departure_time })
    }
}

/// One field of a stored flight plan with the value to write into it.
#[derive(Clone, Copy, Debug, PartialEq, Eq, Structural)]
pub enum FieldUpdate {
    /// The time at which the authority approved the plan.
    FlightPlanApproval(Timestamp),
    /// The time at which the authority released the flight.
    FlightReleaseApproval(Timestamp),
    /// Where the flight stands.
    FlightStatus(FlightStatus),
}

impl FieldUpdate {
    /// The field that is written.
    pub open spec fn target(self) -> Field {
        match self {
            FieldUpdate::FlightPlanApproval(_) => Field::FlightPlanApproval,
            FieldUpdate::FlightReleaseApproval(_) => Field::FlightReleaseApproval,
            FieldUpdate::FlightStatus(_) => Field::FlightStatus,
        }
    }

    /// Names the field that is written: the update leaves every other field
    /// as it is.
    pub fn field(&self) -> (field: Field)
        ensures
            field == self.target(),
    {
        match self {
            FieldUpdate::FlightPlanApproval(_) => Field::FlightPlanApproval,
            FieldUpdate::FlightReleaseApproval(_) => Field::FlightReleaseApproval,
            FieldUpdate::FlightStatus(_) => Field::FlightStatus,
        }
    }
}

/// A change of one field of one stored flight plan.
#[derive(Debug)]
pub struct UpdateObject {
    /// The key of the flight plan.
    pub id: String,
    /// The field and its new value.
    pub update: FieldUpdate,
}

impl View for UpdateObject {
    type V = (Seq<char>, FieldUpdate);

    open spec fn view(&self) -> (Seq<char>, FieldUpdate) {
        (self.id@, self.update)
    }
}

impl DeepView for UpdateObject {
    type V = (Seq<char>, FieldUpdate);

    open spec fn deep_view(&self) -> (Seq<char>, FieldUpdate) {
        self@
    }
}

/// What is written to storage when the authority has released a flight: the
/// time of the release.
pub fn mark_release_approved(flight_plan_id: &String, timestamp: &Timestamp) -> (updated:
    UpdateObject)
    ensures
        updated@ == (flight_plan_id@, FieldUpdate::FlightReleaseApproval(*timestamp)),
{
    UpdateObject {
        id: flight_plan_id.clone(),
        update: FieldUpdate::FlightReleaseApproval(*timestamp),
    }
}

/// What is written to storage when the authority has refused to release a
/// flight: nothing.
pub fn mark_release_denied(flight_plan_id: &String, _timestamp: &Timestamp) -> (updated: Option<
    UpdateObject,
>)
    ensures
        updated is None,
{
    None
}

/// What is written to storage when the authority has approved a flight
/// plan: the time of the approval.
pub fn mark_plan_approved(flight_plan_id: &String, timestamp: &Timestamp) -> (updated:
    UpdateObject)
    ensures
        updated@ == (flight_plan_id@, FieldUpdate::FlightPlanApproval(*timestamp)),
{
    UpdateObject { id: flight_plan_id.clone(), update: FieldUpdate::FlightPlanApproval(*timestamp) }
}

/// What is written to storage when the authority has refused a flight plan:
/// the flight is cancelled.
pub fn mark_plan_denied(flight_plan_id: &String, _timestamp: &Timestamp) -> (updated: Option<
    UpdateObject,
>)
    ensures
        updated matches Some(u) && u@ == (
            flight_plan_id@,
            FieldUpdate::FlightStatus(FlightStatus::Cancelled),
        ),
{
    Some(
        UpdateObject {
            id: flight_plan_id.clone(),
            update: FieldUpdate::FlightStatus(FlightStatus::Cancelled),
        },
    )
}

/// Whether storage found the written value valid.
#[derive(Clone, Copy, Debug, PartialEq, Eq, Structural)]
pub struct ValidationResult {
    /// True when the value was taken.
    pub success: bool,
}

/// What storage answers to an update.
#[derive(Clone, Copy, Debug, PartialEq, Eq, Structural)]
pub struct UpdateResponse {
    /// The verdict on the written value, if storage gave one.
    pub validation_result: Option<ValidationResult>,
}

/// How an update of storage went.
#[derive(Clone, Copy, Debug, PartialEq, Eq, Structural)]
pub enum UpdateOutcome {
    /// Storage took the value.
    Recorded,
    /// Storage could not be reached or failed.
    StorageError,
    /// Storage found the value invalid.
    ValidationFailure,
    /// Storage gave no verdict on the value.
    ValidationMissing,
}

/// Reads how an update went from what storage answered, where `None` stands
/// for a call that failed. Whatever the outcome, the update is not tried
/// again.
pub fn update_outcome(response: Option<UpdateResponse>) -> (outcome: UpdateOutcome)
    ensures
        response is None <==> outcome == UpdateOutcome::StorageError,
        response matches Some(r) ==> (r.validation_result is None <==> outcome
            == UpdateOutcome::ValidationMissing),
        response matches Some(r) ==> (r.validation_result matches Some(v) && v.success <==> outcome
            == UpdateOutcome::Recorded),
        response matches Some(r) ==> (r.validation_result matches Some(v) && !v.success <==> outcome
            == UpdateOutcome::ValidationFailure),
{
    match response {
        None => UpdateOutcome::StorageError,
        Some(r) => match r.validation_result {
            Some(result) => {
                if result.success {
                    UpdateOutcome::Recorded
                } else {
                    UpdateOutcome::ValidationFailure
                }
            },
            None => UpdateOutcome::ValidationMissing,
        },
    }
}

/// Whether a request is still awaited at `now`: its flight has not been due
/// to leave before then.
pub open spec fn awaited(entry: (Seq<char>, FlightRecord), now: Timestamp) -> bool {
    !entry.1.departure_time.precedes(now)
}

/// The requests that are still awaited at `now`, in their order.
pub open spec fn awaited_entries(entries: Seq<(Seq<char>, FlightRecord)>, now: Timestamp) -> Seq<
    (Seq<char>, FlightRecord),
> {
    entries.filter(|e: (Seq<char>, FlightRecord)| awaited(e, now))
}

/// The keys of the requests whose flight was due to leave before `now`.
pub open spec fn expired_ids(entries: Seq<(Seq<char>, FlightRecord)>, now: Timestamp) -> Seq<
    Seq<char>,
> {
    entries.filter(|e: (Seq<char>, FlightRecord)| !awaited(e, now)).map_values(
        |e: (Seq<char>, FlightRecord)| e.0,
    )
}

/// Drops the requests whose flight was due to leave before `now` and hands
/// back their keys. The flights themselves are not touched.
pub fn remove_expired_before(cache: &mut KeyedCache<FlightDetails>, now: Timestamp) -> (expired:
    Vec<String>)
    requires
        old(cache).wf(),
    ensures
        final(cache).wf(),
        final(cache)@ == awaited_entries(old(cache)@, now),
        expired.deep_view() == expired_ids(old(cache)@, now),
        forall|i: int|
            0 <= i < final(cache)@.len() ==> awaited(#[trigger] final(cache)@[i], now),
{
    let ghost all = cache@;
    let ghost gone = |e: (Seq<char>, FlightRecord)| !awaited(e, now);
    let ghost key_of = |e: (Seq<char>, FlightRecord)| e.0;
    let mut keep: Vec<bool> = Vec::new();
    let mut expired: Vec<String> = Vec::new();
    let mut i: usize = 0;
    proof {
        reveal(Seq::filter);
        assert(expired.deep_view() =~= all.take(0).filter(gone).map_values(key_of));
    }
    while i < cache.len()
        invariant
            0 <= i <= all.len(),
            all == cache@,
            gone == |e: (Seq<char>, FlightRecord)| !awaited(e, now),
            key_of == |e: (Seq<char>, FlightRecord)| e.0,
            keep@.len() == i,
            forall|j: int| 0 <= j < i ==> keep@[j] == awaited(#[trigger] all[j], now),
            expired.deep_view() == all.take(i as int).filter(gone).map_values(key_of),
        decreases all.len() - i,
    {
        let ghost before = expired.deep_view();
        let stays = !cache.value(i).departure_time.is_before(&now);
        proof {
            all.take(i as int).lemma_filter_push(all[i as int], gone);
            assert(all.take(i + 1) =~= all.take(i as int).push(all[i as int]));
        }
        if !stays {
            expired.push(cache.key(i).clone());
            assert(expired.deep_view() =~= before.push(all[i as int].0));
            assert(all.take(i + 1).filter(gone).map_values(key_of) =~= before.push(
                all[i as int].0,
            ));
        }
        keep.push(stays);
        i += 1;
    }
    assert(all.take(i as int) =~= all);
    cache.retain_flagged(&keep);
    proof {
        let stay = |e: (Seq<char>, FlightRecord)| awaited(e, now);
        lemma_select_is_filter(all, keep@, stay);
        assert forall|i: int| 0 <= i < cache@.len() implies awaited(#[trigger] cache@[i], now) by {
            all.lemma_filter_pred(stay, i);
        }
    }
    expired
}

/// Drops the requests whose flight was due to leave before now, by the
/// clock, and hands back their keys.
pub fn remove_expired_requests(cache: &mut KeyedCache<FlightDetails>) -> (expired: Vec<String>)
    requires
        old(cache).wf(),
    ensures
        final(cache).wf(),
        exists|now: Timestamp|
            final(cache)@ == #[trigger] awaited_entries(old(cache)@, now) && expired.deep_view()
                == expired_ids(old(cache)@, now),
{
    let now = utc_now();
    remove_expired_before(cache, now)
}

/// What became of one stored flight plan in the admission of new requests.
#[derive(Clone, Copy, Debug, PartialEq, Eq, Structural)]
pub enum Admission {
    /// The request was followed already: the authority was not told again.
    AlreadyTracked,
    /// The plan lacks its fields or its departure time: it was passed over
    /// and the authority was not told.
    Malformed,
    /// The authority took the request, which is followed from now on.
    Submitted,
    /// The authority did not take the request, which is not followed.
    Refused,
}

/// Whether the authority is to be told of `object` while `entries` are the
/// requests that are followed: the plan is well formed and not among them.
pub open spec fn wants_submission(
    entries: Seq<(Seq<char>, FlightRecord)>,
    object: (Seq<char>, Option<FlightPlanData>),
) -> bool {
    !has_key(entries, object.0) && details_of(object) is Some
}

/// What becomes of `object` while `entries` are the requests that are
/// followed, where `accepted` says whether the authority takes it when told.
pub open spec fn admission(
    entries: Seq<(Seq<char>, FlightRecord)>,
    object: (Seq<char>, Option<FlightPlanData>),
    accepted: bool,
) -> Admission {
    if has_key(entries, object.0) {
        Admission::AlreadyTracked
    } else if details_of(object) is None {
        Admission::Malformed
    } else if accepted {
        Admission::Submitted
    } else {
        Admission::Refused
    }
}

/// Whether `outcome` can be what becomes of `object` while `entries` are
/// the requests that are followed.
pub open spec fn admission_fits(
    entries: Seq<(Seq<char>, FlightRecord)>,
    object: (Seq<char>, Option<FlightPlanData>),
    outcome: Admission,
) -> bool {
    outcome == admission(entries, object, true) || outcome == admission(entries, object, false)
}

/// The requests that are followed after `object` met with `outcome`: a
/// submitted request joins at the end.
pub open spec fn admit_step(
    entries: Seq<(Seq<char>, FlightRecord)>,
    object: (Seq<char>, Option<FlightPlanData>),
    outcome: Admission,
) -> Seq<(Seq<char>, FlightRecord)> {
    match details_of(object) {
        Some(details) if outcome == Admission::Submitted => entries.push((object.0, details)),
        _ => entries,
    }
}

/// The requests that are followed after each of `objects` in turn met with
/// its outcome.
pub open spec fn admit_run(
    entries: Seq<(Seq<char>, FlightRecord)>,
    objects: Seq<(Seq<char>, Option<FlightPlanData>)>,
    outcomes: Seq<Admission>,
) -> Seq<(Seq<char>, FlightRecord)>
    decreases objects.len(),
{
    if objects.len() == 0 || outcomes.len() == 0 {
        entries
    } else {
        admit_step(
            admit_run(entries, objects.drop_last(), outcomes.drop_last()),
            objects.last(),
            outcomes.last(),
        )
    }
}

/// Whether `outcomes` can be what became of `objects`, taken in turn,
/// starting from the requests `entries`.
pub open spec fn run_fits(
    entries: Seq<(Seq<char>, FlightRecord)>,
    objects: Seq<(Seq<char>, Option<FlightPlanData>)>,
    outcomes: Seq<Admission>,
) -> bool {
    &&& outcomes.len() == objects.len()
    &&& forall|k: int|
        0 <= k < objects.len() ==> admission_fits(
            admit_run(entries, objects.take(k), outcomes.take(k)),
            objects[k],
            #[trigger] outcomes[k],
        )
}

/// Tests whether the authority is to be told of `object`.
pub fn admission_due(cache: &KeyedCache<FlightDetails>, object: &FlightPlanObject) -> (due: bool)
    ensures
        due == wants_submission(cache@, object@),
{
    if cache.contains_key(&object.id) {
        return false;
    }
    match object.data {
        Some(data) => data.scheduled_departure.is_some(),
        None => false,
    }
}

/// Settles what becomes of `object`, where `accepted` says whether the
/// authority took it: a request that was taken is followed from now on.
/// `accepted` is not looked at where the authority was not to be told.
pub fn enrol(
    cache: &mut KeyedCache<FlightDetails>,
    object: &FlightPlanObject,
    accepted: bool,
) -> (outcome: Admission)
    requires
        old(cache).wf(),
    ensures
        final(cache).wf(),
        outcome == admission(old(cache)@, object@, accepted),
        final(cache)@ == admit_step(old(cache)@, object@, outcome),
{
    if cache.contains_key(&object.id) {
        return Admission::AlreadyTracked;
    }
    let Some(data) = object.data else {
        return Admission::Malformed;
    };
    let Some(departure_time) = data.scheduled_departure else {
        return Admission::Malformed;
    };
    if !accepted {
        return Admission::Refused;
    }
    let details = FlightDetails { flight_plan_id: object.id.clone(), departure_time };
    cache.insert(object.id.clone(), details);
    Admission::Submitted
}

/// Tells the authority of one request, by the key of its flight plan and
/// with no data, and says whether it took it: whether it answered, and
/// answered that the plan is submitted or the flight released.
fn submit_request<R: RegionInterface>(
    workflow: Workflow,
    region: &R,
    flight_plan_id: &String,
) -> (accepted: bool)
    ensures
        submission_fits(workflow, region, flight_plan_id@, accepted),
{
    match workflow {
        Workflow::FlightPlan => {
            let request = FlightPlanRequest {
                flight_plan_id: flight_plan_id.clone(),
                data: String::new(),
            };
            let answer = region.submit_flight_plan(request);
            assert(plan_submission(region, flight_plan_id@, request, answer));
            match answer {
                Ok(response) => response.submitted,
                Err(_) => false,
            }
        },
        Workflow::FlightRelease => {
            let request = FlightReleaseRequest {
                flight_plan_id: flight_plan_id.clone(),
                data: String::new(),
            };
            let answer = region.request_flight_release(request);
            assert(release_submission(region, flight_plan_id@, request, answer));
            match answer {
                Ok(response) => response.released,
                Err(_) => false,
            }
        },
    }
}

/// Whether `answer` is an answer of the authority to `request`, and
/// `request` tells it of the flight plan `flight_plan_id` with no data.
pub open spec fn plan_submission<R: RegionInterface>(
    region: &R,
    flight_plan_id: Seq<char>,
    request: FlightPlanRequest,
    answer: Result<FlightPlanResponse, RegionError>,
) -> bool {
    &&& request.flight_plan_id@ == flight_plan_id
    &&& request.data@ == Seq::<char>::empty()
    &&& call_ensures(R::submit_flight_plan, (region, request), answer)
}

/// Whether `answer` is an answer of the authority to `request`, and
/// `request` asks it to release the flight `flight_plan_id` with no data.
pub open spec fn release_submission<R: RegionInterface>(
    region: &R,
    flight_plan_id: Seq<char>,
    request: FlightReleaseRequest,
    answer: Result<FlightReleaseResponse, RegionError>,
) -> bool {
    &&& request.flight_plan_id@ == flight_plan_id
    &&& request.data@ == Seq::<char>::empty()
    &&& call_ensures(R::request_flight_release, (region, request), answer)
}

/// Whether `accepted` says how the authority took the request for the
/// flight plan `flight_plan_id`: it is true exactly when the authority
/// answered the submission and its answer says that the plan is submitted
/// or, in the release of flights, that the flight is released.
pub open spec fn submission_fits<R: RegionInterface>(
    workflow: Workflow,
    region: &R,
    flight_plan_id: Seq<char>,
    accepted: bool,
) -> bool {
    match workflow {
        Workflow::FlightPlan => exists|
            request: FlightPlanRequest,
            answer: Result<FlightPlanResponse, RegionError>,
        | #[trigger]
            plan_submission(region, flight_plan_id, request, answer) && accepted == (
            answer matches Ok(response) && response.submitted),
        Workflow::FlightRelease => exists|
            request: FlightReleaseRequest,
            answer: Result<FlightReleaseResponse, RegionError>,
        | #[trigger]
            release_submission(region, flight_plan_id, request, answer) && accepted == (
            answer matches Ok(response) && response.released),
    }
}

/// Takes the flight plans that storage found to the authority: each one
/// that is well formed and not followed yet is submitted, and followed from
/// then on if the authority took it. Hands back what became of each.
pub fn get_new_requests<R: RegionInterface>(
    workflow: Workflow,
    cache: &mut KeyedCache<FlightDetails>,
    region: &R,
    upcoming_flights: &Vec<FlightPlanObject>,
) -> (outcomes: Vec<Admission>)
    requires
        old(cache).wf(),
    ensures
        final(cache).wf(),
        run_fits(old(cache)@, upcoming_flights.deep_view(), outcomes@),
        submissions_fit(workflow, region, upcoming_flights.deep_view(), outcomes@),
        final(cache)@ == admit_run(old(cache)@, upcoming_flights.deep_view(), outcomes@),
{
    let ghost start = cache@;
    let ghost objects = upcoming_flights.deep_view();
    let mut outcomes: Vec<Admission> = Vec::new();
    let mut i: usize = 0;
    while i < upcoming_flights.len()
        invariant
            0 <= i <= upcoming_flights@.len(),
            objects == upcoming_flights.deep_view(),
            objects.len() == upcoming_flights@.len(),
            cache.wf(),
            outcomes@.len() == i,
            cache@ == admit_run(start, objects.take(i as int), outcomes@),
            forall|k: int|
                0 <= k < i ==> admission_fits(
                    admit_run(start, objects.take(k), outcomes@.take(k)),
                    objects[k],
                    #[trigger] outcomes@[k],
                ),
            forall|k: int|
                0 <= k < i && was_told(#[trigger] outcomes@[k]) ==> submission_fits(
                    workflow,
                    region,
                    objects[k].0,
                    outcomes@[k] == Admission::Submitted,
                ),
        decreases upcoming_flights@.len() - i,
    {
        let object = &upcoming_flights[i];
        let ghost before = outcomes@;
        let ghost entries = cache@;
        assert(object@ == objects[i as int]);
        let accepted = if admission_due(cache, object) {
            submit_request(workflow, region, &object.id)
        } else {
            false
        };
        let outcome = enrol(cache, object, accepted);
        outcomes.push(outcome);
        proof {
            assert(outcomes@.take(i as int) =~= before);
            assert(outcomes@.drop_last() =~= before);
            assert(objects.take(i + 1).drop_last() =~= objects.take(i as int));
            assert(objects.take(i + 1).last() == objects[i as int]);
            assert forall|k: int| 0 <= k < i + 1 implies admission_fits(
                admit_run(start, objects.take(k), outcomes@.take(k)),
                objects[k],
                #[trigger] outcomes@[k],
            ) by {
                if k < i {
                    assert(outcomes@.take(k) =~= before.take(k));
                    assert(outcomes@[k] == before[k]);
                }
            }
            assert forall|k: int|
                0 <= k < i + 1 && was_told(#[trigger] outcomes@[k]) implies submission_fits(
                workflow,
                region,
                objects[k].0,
                outcomes@[k] == Admission::Submitted,
            ) by {
                if k < i {
                    assert(outcomes@[k] == before[k]);
                }
            }
        }
        i += 1;
    }
    proof {
        assert(objects.take(i as int) =~= objects);
        assert forall|k: int| 0 <= k < objects.len() implies admission_fits(
            admit_run(start, objects.take(k), outcomes@.take(k)),
            objects[k],
            #[trigger] outcomes@[k],
        ) by {}
    }
    outcomes
}

/// Whether the authority was told of a flight plan that met with `outcome`.
pub open spec fn was_told(outcome: Admission) -> bool {
    outcome == Admission::Submitted || outcome == Admission::Refused
}

/// Whether the outcomes say how the authority took each flight plan that it
/// was told of: such a plan is submitted exactly when the authority
/// answered its submission and took it, and refused otherwise.
pub open spec fn submissions_fit<R: RegionInterface>(
    workflow: Workflow,
    region: &R,
    objects: Seq<(Seq<char>, Option<FlightPlanData>)>,
    outcomes: Seq<Admission>,
) -> bool {
    forall|k: int|
        0 <= k < objects.len() && k < outcomes.len() && was_told(#[trigger] outcomes[k])
            ==> submission_fits(
            workflow,
            region,
            objects[k].0,
            outcomes[k] == Admission::Submitted,
        )
}

/// A request that is followed stays followed through an admission.
pub proof fn lemma_admission_keeps_keys(
    entries: Seq<(Seq<char>, FlightRecord)>,
    objects: Seq<(Seq<char>, Option<FlightPlanData>)>,
    outcomes: Seq<Admission>,
    key: Seq<char>,
)
    requires
        has_key(entries, key),
    ensures
        has_key(admit_run(entries, objects, outcomes), key),
    decreases objects.len(),
{
    if objects.len() == 0 || outcomes.len() == 0 {
    } else {
        let before = admit_run(entries, objects.drop_last(), outcomes.drop_last());
        lemma_admission_keeps_keys(entries, objects.drop_last(), outcomes.drop_last(), key);
        let after = admit_step(before, objects.last(), outcomes.last());
        let i = choose|i: int| 0 <= i < before.len() && (#[trigger] before[i]).0 == key;
        assert(after[i].0 == key);
    }
}

/// A flight plan whose request is followed already is not submitted again:
/// the admission passes it over as tracked.
pub proof fn lemma_tracked_is_not_resubmitted(
    entries: Seq<(Seq<char>, FlightRecord)>,
    objects: Seq<(Seq<char>, Option<FlightPlanData>)>,
    outcomes: Seq<Admission>,
)
    requires
        run_fits(entries, objects, outcomes),
    ensures
        forall|k: int|
            0 <= k < objects.len() && has_key(entries, objects[k].0) ==> #[trigger] outcomes[k]
                == Admission::AlreadyTracked,
{
    assert forall|k: int|
        0 <= k < objects.len() && has_key(entries, objects[k].0) implies #[trigger] outcomes[k]
        == Admission::AlreadyTracked by {
        lemma_admission_keeps_keys(entries, objects.take(k), outcomes.take(k), objects[k].0);
    }
}

/// Admission twice in a row, on the same flight plans and with nothing
/// dropped in between, submits nothing twice: what the first run submitted
/// or found tracked, the second run finds tracked, and the second run
/// submits only what the authority refused in the first.
pub proof fn lemma_admission_is_idempotent(
    entries: Seq<(Seq<char>, FlightRecord)>,
    objects: Seq<(Seq<char>, Option<FlightPlanData>)>,
    first: Seq<Admission>,
    second: Seq<Admission>,
)
    requires
        run_fits(entries, objects, first),
        run_fits(admit_run(entries, objects, first), objects, second),
    ensures
        forall|k: int|
            0 <= k < objects.len() && (first[k] == Admission::Submitted || first[k]
                == Admission::AlreadyTracked) ==> #[trigger] second[k] == Admission::AlreadyTracked,
        forall|k: int|
            0 <= k < objects.len() && (#[trigger] second[k] == Admission::Submitted || second[k]
                == Admission::Refused) ==> first[k] == Admission::Refused,
{
    let middle = admit_run(entries, objects, first);
    lemma_tracked_is_not_resubmitted(middle, objects, second);
    assert forall|k: int|
        0 <= k < objects.len() && (first[k] == Admission::Submitted || first[k]
            == Admission::AlreadyTracked) implies has_key(middle, objects[k].0) by {
        let before = admit_run(entries, objects.take(k), first.take(k));
        let after = admit_run(entries, objects.take(k + 1), first.take(k + 1));
        assert(objects.take(k + 1).drop_last() =~= objects.take(k));
        assert(first.take(k + 1).drop_last() =~= first.take(k));
        assert(objects.take(k + 1).last() == objects[k]);
        assert(first.take(k + 1).last() == first[k]);
        assert(after == admit_step(before, objects[k], first[k]));
        assert(admission_fits(before, objects[k], first[k]));
        if first[k] == Admission::Submitted {
            assert(after[after.len() - 1].0 == objects[k].0);
        }
        assert(has_key(after, objects[k].0));
        lemma_admit_run_splits(entries, objects, first, k + 1);
        lemma_admission_keeps_keys(
            after,
            objects.skip(k + 1),
            first.skip(k + 1),
            objects[k].0,
        );
    }
    assert forall|k: int|
        0 <= k < objects.len() && (#[trigger] second[k] == Admission::Submitted || second[k]
            == Admission::Refused) implies first[k] == Admission::Refused by {
        // a flight plan that was passed over as malformed is passed over again
        let before = admit_run(entries, objects.take(k), first.take(k));
        assert(admission_fits(before, objects[k], first[k]));
        let again = admit_run(middle, objects.take(k), second.take(k));
        assert(admission_fits(again, objects[k], second[k]));
    }
}

/// An admission can be cut in two: the flight plans after the first `k`
/// are taken up where the first `k` left off.
pub proof fn lemma_admit_run_splits(
    entries: Seq<(Seq<char>, FlightRecord)>,
    objects: Seq<(Seq<char>, Option<FlightPlanData>)>,
    outcomes: Seq<Admission>,
    k: int,
)
    requires
        outcomes.len() == objects.len(),
        0 <= k <= objects.len(),
    ensures
        admit_run(entries, objects, outcomes) == admit_run(
            admit_run(entries, objects.take(k), outcomes.take(k)),
            objects.skip(k),
            outcomes.skip(k),
        ),
    decreases objects.len(),
{
    if k == objects.len() {
        assert(objects.take(k) =~= objects);
        assert(outcomes.take(k) =~= outcomes);
        assert(objects.skip(k).len() == 0);
    } else {
        lemma_admit_run_splits(entries, objects.drop_last(), outcomes.drop_last(), k);
        assert(objects.drop_last().take(k) =~= objects.take(k));
        assert(outcomes.drop_last().take(k) =~= outcomes.take(k));
        assert(objects.drop_last().skip(k) =~= objects.skip(k).drop_last());
        assert(outcomes.drop_last().skip(k) =~= outcomes.skip(k).drop_last());
        assert(objects.skip(k).last() == objects.last());
        assert(outcomes.skip(k).last() == outcomes.last());
    }
}

/// Whether an answer of the authority settles a request: it was reached
/// and has decided.
pub open spec fn settled(answer: Option<StatusResponse>) -> bool {
    answer matches Some(response) && response.status != RequestStatus::Pending
}

/// What is written to storage for the request `flight_plan_id` on an answer
/// of the authority: the time of an approval; for a flight plan that was
/// refused, that it is cancelled; nothing else.
pub open spec fn verdict_update(
    workflow: Workflow,
    flight_plan_id: Seq<char>,
    answer: Option<StatusResponse>,
) -> Option<(Seq<char>, FieldUpdate)> {
    match answer {
        Some(response) => match response.status {
            RequestStatus::Pending => None,
            RequestStatus::Approved => Some(
                (
                    flight_plan_id,
                    match workflow {
                        Workflow::FlightPlan => FieldUpdate::FlightPlanApproval(response.timestamp),
                        Workflow::FlightRelease => FieldUpdate::FlightReleaseApproval(
                            response.timestamp,
                        ),
                    },
                ),
            ),
            RequestStatus::Denied => match workflow {
                Workflow::FlightPlan => Some(
                    (flight_plan_id, FieldUpdate::FlightStatus(FlightStatus::Cancelled)),
                ),
                Workflow::FlightRelease => None,
            },
        },
        None => None,
    }
}

/// For each answer, whether the request it is about is still open.
pub open spec fn open_flags(answers: Seq<Option<StatusResponse>>) -> Seq<bool> {
    Seq::new(answers.len(), |i: int| !settled(answers[i]))
}

/// What is written to storage after the authority gave `answers` on the
/// requests `entries`, one answer for each in their order.
pub open spec fn poll_updates(
    workflow: Workflow,
    entries: Seq<(Seq<char>, FlightRecord)>,
    answers: Seq<Option<StatusResponse>>,
) -> Seq<(Seq<char>, FieldUpdate)>
    decreases entries.len(),
{
    if entries.len() == 0 || answers.len() == 0 {
        Seq::empty()
    } else {
        let earlier = poll_updates(workflow, entries.drop_last(), answers.drop_last());
        match verdict_update(workflow, entries.last().0, answers.last()) {
            Some(update) => earlier.push(update),
            None => earlier,
        }
    }
}

/// Says what is written to storage for one request on an answer of the
/// authority, where `None` stands for a call that failed.
pub fn verdict(
    workflow: Workflow,
    flight_plan_id: &String,
    answer: &Option<StatusResponse>,
) -> (update: Option<UpdateObject>)
    ensures
        update is Some <==> verdict_update(workflow, flight_plan_id@, *answer) is Some,
        update matches Some(u) ==> Some(u@) == verdict_update(workflow, flight_plan_id@, *answer),
{
    match answer {
        None => None,
        Some(response) => match response.status {
            RequestStatus::Pending => None,
            RequestStatus::Approved => match workflow {
                Workflow::FlightPlan => Some(
                    mark_plan_approved(flight_plan_id, &response.timestamp),
                ),
                Workflow::FlightRelease => Some(
                    mark_release_approved(flight_plan_id, &response.timestamp),
                ),
            },
            RequestStatus::Denied => match workflow {
                Workflow::FlightPlan => mark_plan_denied(flight_plan_id, &response.timestamp),
                Workflow::FlightRelease => mark_release_denied(
                    flight_plan_id,
                    &response.timestamp,
                ),
            },
        },
    }
}

/// Takes in the authority's answers on the requests that are followed, one
/// for each in their order, where `None` stands for a call that failed. A
/// request that is approved or denied is followed no longer; the others
/// stay as they are. Hands back what is to be written to storage.
pub fn apply_status(
    workflow: Workflow,
    cache: &mut KeyedCache<FlightDetails>,
    answers: &Vec<Option<StatusResponse>>,
) -> (updates: Vec<UpdateObject>)
    requires
        old(cache).wf(),
        answers@.len() == old(cache)@.len(),
    ensures
        final(cache).wf(),
        final(cache)@ == select(old(cache)@, open_flags(answers@)),
        updates.deep_view() == poll_updates(workflow, old(cache)@, answers@),
{
    let ghost all = cache@;
    let mut keep: Vec<bool> = Vec::new();
    let mut updates: Vec<UpdateObject> = Vec::new();
    let mut i: usize = 0;
    assert(updates.deep_view() =~= poll_updates(workflow, all.take(0), answers@.take(0)));
    while i < answers.len()
        invariant
            0 <= i <= answers@.len(),
            answers@.len() == all.len(),
            all == cache@,
            keep@ == open_flags(answers@).take(i as int),
            updates.deep_view() == poll_updates(
                workflow,
                all.take(i as int),
                answers@.take(i as int),
            ),
        decreases answers@.len() - i,
    {
        let ghost before = updates.deep_view();
        let answer = &answers[i];
        let open = match answer {
            Some(response) => match response.status {
                RequestStatus::Pending => true,
                _ => false,
            },
            None => true,
        };
        proof {
            assert(all.take(i + 1).drop_last() =~= all.take(i as int));
            assert(answers@.take(i + 1).drop_last() =~= answers@.take(i as int));
            assert(all.take(i + 1).last() == all[i as int]);
            assert(answers@.take(i + 1).last() == answers@[i as int]);
        }
        match verdict(workflow, cache.key(i), answer) {
            Some(update) => {
                updates.push(update);
                assert(updates.deep_view() =~= before.push(update@));
            },
            None => {},
        }
        keep.push(open);
        assert(keep@ =~= open_flags(answers@).take(i + 1));
        i += 1;
    }
    assert(all.take(i as int) =~= all);
    assert(answers@.take(i as int) =~= answers@);
    assert(keep@ =~= open_flags(answers@));
    cache.retain_flagged(&keep);
    updates
}

/// What a round of questions to the authority brought.
#[derive(Debug)]
pub struct StatusReport {
    /// The authority's answer on each request that was followed, in their
    /// order; `None` where the call failed.
    pub answers: Vec<Option<StatusResponse>>,
    /// What is to be written to storage.
    pub updates: Vec<UpdateObject>,
}

/// Asks the authority about one request and hands on its answer, where
/// `None` stands for a call that failed.
fn request_status<R: RegionInterface>(
    workflow: Workflow,
    region: &R,
    flight_plan_id: &String,
) -> (answer: Option<StatusResponse>)
    ensures
        status_fits(workflow, region, flight_plan_id, answer),
{
    let response = match workflow {
        Workflow::FlightPlan => region.get_flight_plan_status(flight_plan_id),
        Workflow::FlightRelease => region.get_flight_release_status(flight_plan_id),
    };
    assert(status_answer(workflow, region, flight_plan_id, response));
    match response {
        Ok(status) => Some(status),
        Err(_) => None,
    }
}

/// Whether `response` is what the authority says of the request for the
/// flight plan `flight_plan_id`: of the plan's approval or of the flight's
/// release, as the workflow has it.
pub open spec fn status_answer<R: RegionInterface>(
    workflow: Workflow,
    region: &R,
    flight_plan_id: &String,
    response: Result<StatusResponse, RegionError>,
) -> bool {
    match workflow {
        Workflow::FlightPlan => call_ensures(
            R::get_flight_plan_status,
            (region, flight_plan_id),
            response,
        ),
        Workflow::FlightRelease => call_ensures(
            R::get_flight_release_status,
            (region, flight_plan_id),
            response,
        ),
    }
}

/// Whether `answer` hands on what the authority says of the request for
/// the flight plan `flight_plan_id`: the status and its time where the
/// authority answered, nothing where the call failed.
pub open spec fn status_fits<R: RegionInterface>(
    workflow: Workflow,
    region: &R,
    flight_plan_id: &String,
    answer: Option<StatusResponse>,
) -> bool {
    exists|response: Result<StatusResponse, RegionError>| #[trigger]
        status_answer(workflow, region, flight_plan_id, response) && answer == match response {
            Ok(status) => Some(status),
            Err(_) => None,
        }
}

/// Whether `answer` hands on what the authority says when it is asked about
/// the request that is held under `key`.
pub open spec fn asked_of<R: RegionInterface>(
    workflow: Workflow,
    region: &R,
    key: Seq<char>,
    answer: Option<StatusResponse>,
) -> bool {
    exists|flight_plan_id: &String|
        flight_plan_id@ == key && #[trigger] status_fits(workflow, region, flight_plan_id, answer)
}

/// Whether the answers are what the authority says of the requests
/// `entries`: one for each, in their order, asked by the key of the
/// request.
pub open spec fn answers_fit<R: RegionInterface>(
    workflow: Workflow,
    region: &R,
    entries: Seq<(Seq<char>, FlightRecord)>,
    answers: Seq<Option<StatusResponse>>,
) -> bool {
    forall|k: int|
        0 <= k < entries.len() && k < answers.len() ==> asked_of(
            workflow,
            region,
            entries[k].0,
            #[trigger] answers[k],
        )
}

/// Asks the authority about every request that is followed, drops those
/// that it has approved or denied, and hands back its answers and what is
/// to be written to storage.
pub fn check_status<R: RegionInterface>(
    workflow: Workflow,
    cache: &mut KeyedCache<FlightDetails>,
    region: &R,
) -> (report: StatusReport)
    requires
        old(cache).wf(),
    ensures
        final(cache).wf(),
        report.answers@.len() == old(cache)@.len(),
        answers_fit(workflow, region, old(cache)@, report.answers@),
        final(cache)@ == select(old(cache)@, open_flags(report.answers@)),
        report.updates.deep_view() == poll_updates(workflow, old(cache)@, report.answers@),
{
    let mut answers: Vec<Option<StatusResponse>> = Vec::new();
    let mut i: usize = 0;
    while i < cache.len()
        invariant
            0 <= i <= cache@.len(),
            answers@.len() == i,
            forall|k: int|
                0 <= k < i ==> asked_of(workflow, region, cache@[k].0, #[trigger] answers@[k]),
        decreases cache@.len() - i,
    {
        let ghost before = answers@;
        let answer = request_status(workflow, region, cache.key(i));
        answers.push(answer);
        assert forall|k: int| 0 <= k < i + 1 implies asked_of(
            workflow,
            region,
            cache@[k].0,
            #[trigger] answers@[k],
        ) by {
            if k < i {
                assert(answers@[k] == before[k]);
            }
        }
        i += 1;
    }
    let updates = apply_status(workflow, cache, &answers);
    StatusReport { answers, updates }
}

/// What one iteration of a loop brought.
#[derive(Debug)]
pub struct IterationReport {
    /// The keys of the requests that were dropped because their flight was
    /// due to leave before the iteration.
    pub expired: Vec<String>,
    /// What became of each flight plan that storage found.
    pub admissions: Vec<Admission>,
    /// The authority's answers on the requests that were followed then, and
    /// what is to be written to storage.
    pub status: StatusReport,
}

/// Whether `report` and the requests `after` are what an iteration at `now`
/// leaves behind when it starts from the requests `before` and storage
/// found `objects`: first the requests that are overdue are dropped, then
/// the flight plans are admitted, and last the authority is asked about
/// every request that is followed by then.
pub open spec fn iteration_fits<R: RegionInterface>(
    workflow: Workflow,
    region: &R,
    before: Seq<(Seq<char>, FlightRecord)>,
    objects: Seq<(Seq<char>, Option<FlightPlanData>)>,
    now: Timestamp,
    report: IterationReport,
    after: Seq<(Seq<char>, FlightRecord)>,
) -> bool {
    let awaited = awaited_entries(before, now);
    let followed = admit_run(awaited, objects, report.admissions@);
    &&& report.expired.deep_view() == expired_ids(before, now)
    &&& run_fits(awaited, objects, report.admissions@)
    &&& submissions_fit(workflow, region, objects, report.admissions@)
    &&& report.status.answers@.len() == followed.len()
    &&& answers_fit(workflow, region, followed, report.status.answers@)
    &&& report.status.updates.deep_view() == poll_updates(
        workflow,
        followed,
        report.status.answers@,
    )
    &&& after == select(followed, open_flags(report.status.answers@))
}

/// Runs one iteration of a loop at `now` on the flight plans that storage
/// found: drops the overdue requests, admits the new ones, asks the
/// authority about all that are followed, in this order.
pub fn reconcile_at<R: RegionInterface>(
    workflow: Workflow,
    cache: &mut KeyedCache<FlightDetails>,
    region: &R,
    upcoming_flights: &Vec<FlightPlanObject>,
    now: Timestamp,
) -> (report: IterationReport)
    requires
        old(cache).wf(),
    ensures
        final(cache).wf(),
        iteration_fits(
            workflow,
            region,
            old(cache)@,
            upcoming_flights.deep_view(),
            now,
            report,
            final(cache)@,
        ),
{
    let expired = remove_expired_before(cache, now);
    let admissions = get_new_requests(workflow, cache, region, upcoming_flights);
    let status = check_status(workflow, cache, region);
    IterationReport { expired, admissions, status }
}

/// Runs one iteration of a loop now, by the clock, on the flight plans
/// that storage found.
pub fn reconcile<R: RegionInterface>(
    workflow: Workflow,
    cache: &mut KeyedCache<FlightDetails>,
    region: &R,
    upcoming_flights: &Vec<FlightPlanObject>,
) -> (report: IterationReport)
    requires
        old(cache).wf(),
    ensures
        final(cache).wf(),
        exists|now: Timestamp| #[trigger]
            iteration_fits(
                workflow,
                region,
                old(cache)@,
                upcoming_flights.deep_view(),
                now,
                report,
                final(cache)@,
            ),
{
    let now = utc_now();
    reconcile_at(workflow, cache, region, upcoming_flights, now)
}

/// Whether each request is held under the key of its own flight plan.
pub open spec fn keyed_by_id(entries: Seq<(Seq<char>, FlightRecord)>) -> bool {
    forall|i: int|
        0 <= i < entries.len() ==> (#[trigger] entries[i]).0 == entries[i].1.flight_plan_id
}

/// Requests that are picked out of requests held under their own keys are
/// held under their own keys.
pub proof fn lemma_select_keeps_ids(entries: Seq<(Seq<char>, FlightRecord)>, keep: Seq<bool>)
    requires
        keyed_by_id(entries),
    ensures
        keyed_by_id(select(entries, keep)),
    decreases entries.len(),
{
    if entries.len() == 0 || keep.len() == 0 {
    } else {
        let head = entries.drop_last();
        assert forall|i: int| 0 <= i < head.len() implies (#[trigger] head[i]).0
            == head[i].1.flight_plan_id by {
            assert(head[i] == entries[i]);
        }
        lemma_select_keeps_ids(head, keep.drop_last());
        let picked = select(entries, keep);
        let before = select(head, keep.drop_last());
        assert forall|i: int| 0 <= i < picked.len() implies (#[trigger] picked[i]).0
            == picked[i].1.flight_plan_id by {
            if i < before.len() {
                assert(picked[i] == before[i]);
            } else {
                assert(picked[i] == entries[entries.len() - 1]);
            }
        }
    }
}

/// An admission holds each request that it adds under the key of its own
/// flight plan.
pub proof fn lemma_admission_keeps_ids(
    entries: Seq<(Seq<char>, FlightRecord)>,
    objects: Seq<(Seq<char>, Option<FlightPlanData>)>,
    outcomes: Seq<Admission>,
)
    requires
        keyed_by_id(entries),
    ensures
        keyed_by_id(admit_run(entries, objects, outcomes)),
    decreases objects.len(),
{
    if objects.len() == 0 || outcomes.len() == 0 {
    } else {
        lemma_admission_keeps_ids(entries, objects.drop_last(), outcomes.drop_last());
        let before = admit_run(entries, objects.drop_last(), outcomes.drop_last());
        let after = admit_step(before, objects.last(), outcomes.last());
        assert forall|i: int| 0 <= i < after.len() implies (#[trigger] after[i]).0
            == after[i].1.flight_plan_id by {
            if i < before.len() {
                assert(after[i] == before[i]);
            }
        }
    }
}

/// Through an iteration every request stays held under the key of its own
/// flight plan.
pub proof fn lemma_iteration_keeps_ids<R: RegionInterface>(
    workflow: Workflow,
    region: &R,
    before: Seq<(Seq<char>, FlightRecord)>,
    objects: Seq<(Seq<char>, Option<FlightPlanData>)>,
    now: Timestamp,
    report: IterationReport,
    after: Seq<(Seq<char>, FlightRecord)>,
)
    requires
        keyed_by_id(before),
        iteration_fits(workflow, region, before, objects, now, report, after),
    ensures
        keyed_by_id(after),
{
    let stay = |e: (Seq<char>, FlightRecord)| awaited(e, now);
    let flags = Seq::new(before.len(), |i: int| stay(before[i]));
    lemma_select_is_filter(before, flags, stay);
    lemma_select_keeps_ids(before, flags);
    let awaited_now = awaited_entries(before, now);
    lemma_admission_keeps_ids(awaited_now, objects, report.admissions@);
    lemma_select_keeps_ids(
        admit_run(awaited_now, objects, report.admissions@),
        open_flags(report.status.answers@),
    );
}

} // verus!
