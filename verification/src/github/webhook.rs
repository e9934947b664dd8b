use crate::ecs::{
    launch_plan, spawn_runner, LaunchError, LaunchOutcome, LaunchRequest, LaunchRequestView,
    Placement, PlacementView,
};
use crate::github::runner_registration::{
    authorize, context_for, get_runner_registration_token, request_for, token_of, token_request,
    AuthorizationContext, AuthorizationContextView, BrokerError, CredentialFlow,
    CredentialFlowView, Exchange, ExchangeView, TokenRequest, TokenRequestView,
};
use crate::github::signature::{
    claimed_tag, constant_time_equal, hmac_sha256, hmac_sha256_tag, signature_tag, verdict,
    SignatureError,
};
use crate::profile::{decode_label, resolve_label, ResourceProfile};
use crate::response::Status;
use crate::text::{chars_of, has_prefix, same_str, starts_with, text_of, texts};
use vstd::prelude::*;
use vstd::string::*;

verus! {

/// What a delivery says of a job: the action, the labels as delivered, and
/// where the job lives.
#[derive(Clone, Debug, PartialEq, Eq)]
pub struct JobEvent {
    pub action: String,
    pub labels: Vec<String>,
    pub organization: String,
    pub repository: String,
    pub job_url: String,
}

/// A job that is to get a runner: its data, and the sizing it asks for.
#[derive(Clone, Debug, PartialEq, Eq)]
pub struct Ticket {
    pub organization: String,
    pub repository: String,
    pub job_url: String,
    pub labels: Vec<String>,
    pub profile: ResourceProfile,
}

/// Why a delivery is acknowledged without a launch.
#[derive(Clone, Copy, Debug, PartialEq, Eq, Structural)]
pub enum IgnoreReason {
    /// The event is of another family than `workflow_job`.
    EventType,
    /// The action is not `queued`.
    Action,
    /// No label is `self-hosted`.
    NotSelfHosted,
    /// There are not exactly two labels.
    LabelCount,
    /// Not exactly one label begins with `aws-ecs-`.
    NoProfileLabel,
    /// The label that begins with `aws-ecs-` asks for no profile.
    InvalidProfileLabel,
}

/// What is to become of a job.
#[derive(Clone, Debug, PartialEq, Eq)]
pub enum Decision {
    Ignore(IgnoreReason),
    Launch(Ticket),
}

/// A delivery as it arrived: the event type and the signature from its
/// headers, where they were there, and the raw body.
#[derive(Clone, Debug, PartialEq, Eq)]
pub struct Delivery {
    pub event_type: Option<String>,
    pub signature: Option<String>,
    pub body: Vec<u8>,
}

/// What the deployment is configured with.
#[derive(Clone, PartialEq, Eq)]
pub struct Settings {
    pub secret: Option<Vec<u8>>,
    pub flow: CredentialFlow,
    pub placement: Placement,
}

/// How far the handling of one delivery has come.
#[derive(Clone, PartialEq, Eq)]
pub enum State {
    /// Nothing was looked at yet.
    Received,
    /// The delivery is authentic and of the right family; its body is being
    /// read.
    Authenticated,
    /// The job gets a runner; the token for it is being asked for.
    Authorizing { ticket: Ticket, context: AuthorizationContext },
    /// The launch was handed to the backend.
    Launching,
    /// The answer is out.
    Finished,
}

/// What happened outside, as the handler is told of it.
#[derive(Clone, PartialEq, Eq)]
pub enum Event {
    /// A delivery arrived.
    Delivered(Delivery),
    /// The body was read: as a job event, or as nothing of that shape.
    Parsed(Option<JobEvent>),
    /// The identity provider was asked.
    Exchanged(Exchange),
    /// The backend was asked.
    Launched(LaunchOutcome),
}

/// What is to be done outside next.
#[derive(Clone, PartialEq, Eq)]
pub enum Action {
    /// Read the body as a job event.
    ParsePayload,
    /// Ask the identity provider for a registration token.
    RequestToken(TokenRequest),
    /// Hand this launch to the backend.
    Launch(LaunchRequest),
    /// Answer the delivery.
    Respond(Status),
}

/// What a step found, for the log. The answer to the sender tells less.
#[derive(Clone, Copy, Debug, PartialEq, Eq, Structural)]
pub enum Note {
    /// The delivery is authentic and of the right family.
    Authentic,
    /// The delivery carries no signature.
    Unsigned,
    /// The signature header is malformed.
    MalformedSignature(SignatureError),
    /// The signature is not that of the body.
    Forged,
    /// The deployment has no secret.
    MissingSecret,
    /// The delivery asks for no runner.
    Ignored(IgnoreReason),
    /// The body is no job event.
    MalformedPayload,
    /// The job gets a runner.
    Accepted,
    /// No token could be had.
    Broker(BrokerError),
    /// No launch could be planned.
    Launcher(LaunchError),
    /// The launch is planned.
    Planned,
    /// The backend took the launch, and reported this many failures with it.
    Launched { failures: usize },
    /// The backend refused the launch.
    LaunchRejected,
    /// An event came that the state does not wait for.
    OutOfTurn,
}

/// One step of the handler.
#[derive(Clone, PartialEq, Eq)]
pub struct Step {
    pub state: State,
    pub action: Action,
    pub note: Note,
}

/// The model of a `JobEvent`.
pub struct JobEventView {
    pub action: Seq<char>,
    pub labels: Seq<Seq<char>>,
    pub organization: Seq<char>,
    pub repository: Seq<char>,
    pub job_url: Seq<char>,
}

/// The model of a `Ticket`.
pub struct TicketView {
    pub organization: Seq<char>,
    pub repository: Seq<char>,
    pub job_url: Seq<char>,
    pub labels: Seq<Seq<char>>,
    pub profile: ResourceProfile,
}

/// The model of a `Decision`.
pub enum DecisionView {
    Ignore(IgnoreReason),
    Launch(TicketView),
}

/// The model of a `Delivery`.
pub struct DeliveryView {
    pub event_type: Option<Seq<char>>,
    pub signature: Option<Seq<char>>,
    pub body: Seq<u8>,
}

/// The model of the `Settings`.
pub struct SettingsView {
    pub secret: Option<Seq<u8>>,
    pub flow: CredentialFlowView,
    pub placement: PlacementView,
}

/// The model of a `State`.
pub enum StateView {
    Received,
    Authenticated,
    Authorizing { ticket: TicketView, context: AuthorizationContextView },
    Launching,
    Finished,
}

/// The model of an `Event`.
pub enum EventView {
    Delivered(DeliveryView),
    Parsed(Option<JobEventView>),
    Exchanged(ExchangeView),
    Launched(LaunchOutcome),
}

/// The model of an `Action`.
pub enum ActionView {
    ParsePayload,
    RequestToken(TokenRequestView),
    Launch(LaunchRequestView),
    Respond(Status),
}

/// The model of a `Step`.
pub struct StepView {
    pub state: StateView,
    pub action: ActionView,
    pub note: Note,
}

impl View for JobEvent {
    type V = JobEventView;

    open spec fn view(&self) -> Self::V {
        JobEventView {
            action: self.action@,
            labels: texts(self.labels@),
            organization: self.organization@,
            repository: self.repository@,
            job_url: self.job_url@,
        }
    }
}

impl View for Ticket {
    type V = TicketView;

    open spec fn view(&self) -> Self::V {
        TicketView {
            organization: self.organization@,
            repository: self.repository@,
            job_url: self.job_url@,
            labels: texts(self.labels@),
            profile: self.profile,
        }
    }
}

impl View for Decision {
    type V = DecisionView;

    open spec fn view(&self) -> Self::V {
        match *self {
            Decision::Ignore(reason) => DecisionView::Ignore(reason),
            Decision::Launch(ticket) => DecisionView::Launch(ticket@),
        }
    }
}

impl View for Delivery {
    type V = DeliveryView;

    open spec fn view(&self) -> Self::V {
        DeliveryView {
            event_type: text_of(self.event_type),
            signature: text_of(self.signature),
            body: self.body@,
        }
    }
}

/// The bytes of a secret that may be absent.
pub open spec fn bytes_of(secret: Option<Vec<u8>>) -> Option<Seq<u8>> {
    match secret {
        Some(bytes) => Some(bytes@),
        None => None,
    }
}

/// The job event that a body was read as, if it was read as one.
pub open spec fn payload_of(payload: Option<JobEvent>) -> Option<JobEventView> {
    match payload {
        Some(job) => Some(job@),
        None => None,
    }
}

impl View for Settings {
    type V = SettingsView;

    open spec fn view(&self) -> Self::V {
        SettingsView {
            secret: bytes_of(self.secret),
            flow: self.flow@,
            placement: self.placement@,
        }
    }
}

impl View for State {
    type V = StateView;

    open spec fn view(&self) -> Self::V {
        match *self {
            State::Received => StateView::Received,
            State::Authenticated => StateView::Authenticated,
            State::Authorizing { ticket, context } => StateView::Authorizing {
                ticket: ticket@,
                context: context@,
            },
            State::Launching => StateView::Launching,
            State::Finished => StateView::Finished,
        }
    }
}

impl View for Event {
    type V = EventView;

    open spec fn view(&self) -> Self::V {
        match *self {
            Event::Delivered(delivery) => EventView::Delivered(delivery@),
            Event::Parsed(payload) => EventView::Parsed(payload_of(payload)),
            Event::Exchanged(exchange) => EventView::Exchanged(exchange@),
            Event::Launched(outcome) => EventView::Launched(outcome),
        }
    }
}

impl View for Action {
    type V = ActionView;

    open spec fn view(&self) -> Self::V {
        match *self {
            Action::ParsePayload => ActionView::ParsePayload,
            Action::RequestToken(request) => ActionView::RequestToken(request@),
            Action::Launch(request) => ActionView::Launch(request@),
            Action::Respond(status) => ActionView::Respond(status),
        }
    }
}

impl View for Step {
    type V = StepView;

    open spec fn view(&self) -> Self::V {
        StepView { state: self.state@, action: self.action@, note: self.note }
    }
}

/// The beginning of every label that asks for a profile, `aws-ecs-`.
pub open spec fn profile_prefix() -> Seq<char> {
    seq!['a', 'w', 's', '-', 'e', 'c', 's', '-']
}

/// Whether a label is one that asks for a profile.
pub open spec fn is_profile_label(label: Seq<char>) -> bool {
    has_prefix(label, profile_prefix())
}

/// The labels that ask for a profile, in the order of `labels`.
pub open spec fn profile_labels(labels: Seq<Seq<char>>) -> Seq<Seq<char>>
    decreases labels.len(),
{
    if labels.len() == 0 {
        Seq::<Seq<char>>::empty()
    } else if is_profile_label(labels.last()) {
        profile_labels(labels.drop_last()).push(labels.last())
    } else {
        profile_labels(labels.drop_last())
    }
}

/// What is to become of a job of the `workflow_job` family. A runner is
/// launched for a job that is queued, that is labelled `self-hosted`, that
/// has exactly two labels, exactly one of which begins with `aws-ecs-`, and
/// whose label of that kind decodes to a profile. The first of these that
/// fails, in this order, is why the job is ignored.
pub open spec fn job_decision(job: JobEventView) -> DecisionView {
    if job.action != "queued"@ {
        DecisionView::Ignore(IgnoreReason::Action)
    } else if !job.labels.contains("self-hosted"@) {
        DecisionView::Ignore(IgnoreReason::NotSelfHosted)
    } else if job.labels.len() != 2 {
        DecisionView::Ignore(IgnoreReason::LabelCount)
    } else if profile_labels(job.labels).len() != 1 {
        DecisionView::Ignore(IgnoreReason::NoProfileLabel)
    } else {
        match decode_label(profile_labels(job.labels)[0]) {
            Some(profile) => DecisionView::Launch(
                TicketView {
                    organization: job.organization,
                    repository: job.repository,
                    job_url: job.job_url,
                    labels: job.labels,
                    profile,
                },
            ),
            None => DecisionView::Ignore(IgnoreReason::InvalidProfileLabel),
        }
    }
}

/// What is to become of an event: one of another family is ignored whatever
/// it says, one of the `workflow_job` family is judged as a job.
pub open spec fn event_decision(event_type: Seq<char>, job: JobEventView) -> DecisionView {
    if event_type != "workflow_job"@ {
        DecisionView::Ignore(IgnoreReason::EventType)
    } else {
        job_decision(job)
    }
}

/// The step that ends the handling with an answer.
pub open spec fn finish(status: Status, note: Note) -> StepView {
    StepView { state: StateView::Finished, action: ActionView::Respond(status), note }
}

/// The tag that the body of a delivery must have: that of the raw body
/// under the deployment's secret, where it has one.
pub open spec fn expected_tag(settings: SettingsView, delivery: DeliveryView) -> Option<Seq<u8>> {
    match settings.secret {
        Some(secret) => Some(hmac_sha256(secret, delivery.body)),
        None => None,
    }
}

/// The first step, for a delivery and the tag that its body must have. A
/// delivery without a signature, or with a malformed one, is unauthorized;
/// then a deployment without a secret, which has no tag to hold against the
/// delivery, is an internal failure; then a signature that claims another
/// tag is unauthorized. Of an authentic delivery the event type is looked
/// at: another family than `workflow_job` is acknowledged without reading
/// the body; for that family the body is read next.
pub open spec fn judged(delivery: DeliveryView, tag: Option<Seq<u8>>) -> StepView {
    if delivery.signature is None {
        finish(Status::Unauthorized, Note::Unsigned)
    } else if claimed_tag(delivery.signature.unwrap()) is Err {
        finish(
            Status::Unauthorized,
            Note::MalformedSignature(claimed_tag(delivery.signature.unwrap())->Err_0),
        )
    } else if tag is None {
        finish(Status::InternalServerError, Note::MissingSecret)
    } else if claimed_tag(delivery.signature.unwrap())->Ok_0 != tag.unwrap() {
        finish(Status::Unauthorized, Note::Forged)
    } else if delivery.event_type != Some("workflow_job"@) {
        finish(Status::Success, Note::Ignored(IgnoreReason::EventType))
    } else {
        StepView {
            state: StateView::Authenticated,
            action: ActionView::ParsePayload,
            note: Note::Authentic,
        }
    }
}

/// The first step: the delivery is judged against the tag of its raw body
/// under the deployment's secret.
pub open spec fn after_delivery(settings: SettingsView, delivery: DeliveryView) -> StepView {
    judged(delivery, expected_tag(settings, delivery))
}

/// The step after the body was read. A body that is no job event, and a job
/// that is ignored, are acknowledged. For a job that gets a runner the
/// token is asked for next; an organization without an installation is an
/// internal failure.
pub open spec fn after_payload(settings: SettingsView, payload: Option<JobEventView>) -> StepView {
    match payload {
        None => finish(Status::Success, Note::MalformedPayload),
        Some(job) => match job_decision(job) {
            DecisionView::Ignore(reason) => finish(Status::Success, Note::Ignored(reason)),
            DecisionView::Launch(ticket) => match context_for(
                settings.flow,
                ticket.organization,
                ticket.repository,
            ) {
                Err(e) => finish(Status::InternalServerError, Note::Broker(e)),
                Ok(context) => StepView {
                    state: StateView::Authorizing { ticket, context },
                    action: ActionView::RequestToken(request_for(context)),
                    note: Note::Accepted,
                },
            },
        },
    }
}

/// The step after the identity provider was asked. Without a token the
/// handling ends as an internal failure, and nothing is launched. With one,
/// the launch is planned and handed out next; a launch that cannot be
/// planned is an internal failure.
pub open spec fn after_exchange(
    settings: SettingsView,
    ticket: TicketView,
    context: AuthorizationContextView,
    exchange: ExchangeView,
) -> StepView {
    match token_of(exchange) {
        Err(e) => finish(Status::InternalServerError, Note::Broker(e)),
        Ok(token) => match launch_plan(
            settings.placement,
            token.token,
            context,
            ticket.labels,
            ticket.profile,
            ticket.repository,
            ticket.job_url,
        ) {
            Err(e) => finish(Status::InternalServerError, Note::Launcher(e)),
            Ok(request) => StepView {
                state: StateView::Launching,
                action: ActionView::Launch(request),
                note: Note::Planned,
            },
        },
    }
}

/// The last step. A launch that the backend took is acknowledged, with the
/// count of the failures it reported; one that it refused is an internal
/// failure. Nothing is tried again.
pub open spec fn after_launch(outcome: LaunchOutcome) -> StepView {
    match outcome {
        LaunchOutcome::Submitted { failures } => finish(Status::Success, Note::Launched { failures }),
        LaunchOutcome::Rejected => finish(Status::InternalServerError, Note::LaunchRejected),
    }
}

/// The step that a state takes on an event. An event that the state does
/// not wait for ends the handling as an internal failure.
pub open spec fn next(settings: SettingsView, state: StateView, event: EventView) -> StepView {
    match (state, event) {
        (StateView::Received, EventView::Delivered(delivery)) => after_delivery(settings, delivery),
        (StateView::Authenticated, EventView::Parsed(payload)) => after_payload(settings, payload),
        (StateView::Authorizing { ticket, context }, EventView::Exchanged(exchange)) => after_exchange(
            settings,
            ticket,
            context,
            exchange,
        ),
        (StateView::Launching, EventView::Launched(outcome)) => after_launch(outcome),
        _ => finish(Status::InternalServerError, Note::OutOfTurn),
    }
}

/// The labels of a job with two labels that ask for a profile.
proof fn lemma_profile_labels_of_two(labels: Seq<Seq<char>>)
    requires
        labels.len() == 2,
    ensures
        profile_labels(labels) == if is_profile_label(labels[0]) && is_profile_label(labels[1]) {
            seq![labels[0], labels[1]]
        } else if is_profile_label(labels[0]) {
            seq![labels[0]]
        } else if is_profile_label(labels[1]) {
            seq![labels[1]]
        } else {
            Seq::<Seq<char>>::empty()
        },
{
    let front = labels.drop_last();
    assert(front.len() == 1);
    assert(front.last() == labels[0]);
    assert(front.drop_last().len() == 0);
    assert(profile_labels(front.drop_last()) =~= Seq::<Seq<char>>::empty());
    assert(profile_labels(front) =~= if is_profile_label(labels[0]) {
        seq![labels[0]]
    } else {
        Seq::<Seq<char>>::empty()
    });
    assert(labels.last() == labels[1]);
    assert(profile_labels(labels) =~= if is_profile_label(labels[1]) {
        profile_labels(front).push(labels[1])
    } else {
        profile_labels(front)
    });
}

/// How far a state is from the beginning of the handling.
pub open spec fn progress(state: StateView) -> nat {
    match state {
        StateView::Received => 0,
        StateView::Authenticated => 1,
        StateView::Authorizing { .. } => 2,
        StateView::Launching => 3,
        StateView::Finished => 4,
    }
}

/// The handling never stands still or goes back: every step ends it or
/// moves it on, so that a delivery is answered after four steps at most.
pub proof fn lemma_handling_advances(settings: SettingsView, state: StateView, event: EventView)
    ensures
        next(settings, state, event).state is Finished || progress(
            next(settings, state, event).state,
        ) == progress(state) + 1,
{
}

/// Every answer ends the handling, and nothing else does: a step is the
/// last one exactly when its action is to respond.
pub proof fn lemma_one_answer(settings: SettingsView, state: StateView, event: EventView)
    ensures
        next(settings, state, event).state is Finished <==> next(
            settings,
            state,
            event,
        ).action is Respond,
{
}

/// The body of a delivery is read only once the delivery is known to be
/// authentic: the signature is the tag of the raw body under the secret.
pub proof fn lemma_body_is_read_after_authentication(
    settings: SettingsView,
    state: StateView,
    event: EventView,
)
    requires
        next(settings, state, event).action is ParsePayload,
    ensures
        state is Received,
        event is Delivered,
        settings.secret is Some,
        event->Delivered_0.signature is Some,
        verdict(
            hmac_sha256(settings.secret.unwrap(), event->Delivered_0.body),
            event->Delivered_0.signature.unwrap(),
        ) == Ok::<bool, SignatureError>(true),
{
}

/// A delivery whose signature does not verify is answered as unauthorized,
/// whatever else it holds.
pub proof fn lemma_forged_delivery_is_unauthorized(settings: SettingsView, delivery: DeliveryView)
    requires
        settings.secret is Some,
        delivery.signature is Some,
        verdict(hmac_sha256(settings.secret.unwrap(), delivery.body), delivery.signature.unwrap())
            != Ok::<bool, SignatureError>(true),
    ensures
        next(settings, StateView::Received, EventView::Delivered(delivery)).action
            == ActionView::Respond(Status::Unauthorized),
{
}

/// An authentic delivery of another family than `workflow_job` is
/// acknowledged, and its body is never read.
pub proof fn lemma_other_family_is_acknowledged(settings: SettingsView, delivery: DeliveryView)
    requires
        settings.secret is Some,
        delivery.signature is Some,
        verdict(hmac_sha256(settings.secret.unwrap(), delivery.body), delivery.signature.unwrap())
            == Ok::<bool, SignatureError>(true),
        delivery.event_type != Some("workflow_job"@),
    ensures
        next(settings, StateView::Received, EventView::Delivered(delivery)) == finish(
            Status::Success,
            Note::Ignored(IgnoreReason::EventType),
        ),
{
}

/// An event of another family is ignored whatever the job says, and so is a
/// job with another action than `queued`, whatever its labels.
pub proof fn lemma_family_and_action_gate(event_type: Seq<char>, job: JobEventView)
    ensures
        event_type != "workflow_job"@ ==> event_decision(event_type, job) == DecisionView::Ignore(
            IgnoreReason::EventType,
        ),
        job.action != "queued"@ ==> job_decision(job) == DecisionView::Ignore(IgnoreReason::Action),
        job.labels.len() != 2 ==> job_decision(job) is Ignore,
{
}

/// A job that gets a runner passed every gate: it is queued, labelled
/// `self-hosted`, has two labels, and its ticket holds the job's own data
/// with the profile that its one profile label decodes to.
pub proof fn lemma_launch_passed_every_gate(job: JobEventView)
    requires
        job_decision(job) is Launch,
    ensures
        job.action == "queued"@,
        job.labels.contains("self-hosted"@),
        job.labels.len() == 2,
        profile_labels(job.labels).len() == 1,
        decode_label(profile_labels(job.labels)[0]) == Some(job_decision(job)->Launch_0.profile),
        job_decision(job)->Launch_0.profile.whole(),
        job_decision(job)->Launch_0.labels == job.labels,
{
    crate::profile::lemma_decoded_is_whole(profile_labels(job.labels)[0]);
}

/// Without a token nothing is launched: when the exchange with the identity
/// provider did not yield a token, the handling ends at once as an internal
/// failure.
pub proof fn lemma_failed_exchange_ends_handling(
    settings: SettingsView,
    ticket: TicketView,
    context: AuthorizationContextView,
    exchange: ExchangeView,
)
    requires
        !(exchange is Issued),
    ensures
        next(settings, StateView::Authorizing { ticket, context }, EventView::Exchanged(exchange))
            == finish(Status::InternalServerError, Note::Broker(BrokerError::ExchangeFailed)),
{
}

/// A launch is handed out only in answer to a token, and it is the launch
/// planned for the job that the token was asked for.
pub proof fn lemma_launch_needs_token(settings: SettingsView, state: StateView, event: EventView)
    requires
        next(settings, state, event).action is Launch,
    ensures
        state is Authorizing,
        event is Exchanged,
        event->Exchanged_0 is Issued,
        launch_plan(
            settings.placement,
            event->Exchanged_0->Issued_0.token,
            state->Authorizing_context,
            state->Authorizing_ticket.labels,
            state->Authorizing_ticket.profile,
            state->Authorizing_ticket.repository,
            state->Authorizing_ticket.job_url,
        ) == Ok::<LaunchRequestView, LaunchError>(next(settings, state, event).action->Launch_0),
{
}

/// Whether some label is `wanted`.
fn has_label(labels: &Vec<String>, wanted: &str) -> (r: bool)
    ensures
        r == texts(labels@).contains(wanted@),
{
    let n = labels.len();
    let mut i: usize = 0;
    while i < n
        invariant
            n == labels@.len(),
            i <= n,
            forall|j: int| 0 <= j < i ==> texts(labels@)[j] != wanted@,
        decreases n - i,
    {
        if same_str(labels[i].as_str(), wanted) {
            assert(texts(labels@)[i as int] == wanted@);
            return true;
        }
        i += 1;
    }
    false
}

/// Whether a label is one that asks for a profile.
fn asks_for_profile(label: &str) -> (r: bool)
    ensures
        r == is_profile_label(label@),
{
    let chars = chars_of(label);
    let prefix = chars_of("aws-ecs-");
    proof {
        reveal_strlit("aws-ecs-");
        assert(prefix@ =~= profile_prefix());
    }
    starts_with(chars.as_slice(), prefix.as_slice())
}

/// Decides what is to become of a job of the `workflow_job` family.
pub fn classify_job(job: JobEvent) -> (r: Decision)
    ensures
        r@ == job_decision(job@),
{
    if !same_str(job.action.as_str(), "queued") {
        return Decision::Ignore(IgnoreReason::Action);
    }
    if !has_label(&job.labels, "self-hosted") {
        return Decision::Ignore(IgnoreReason::NotSelfHosted);
    }
    if job.labels.len() != 2 {
        return Decision::Ignore(IgnoreReason::LabelCount);
    }
    let first = asks_for_profile(job.labels[0].as_str());
    let second = asks_for_profile(job.labels[1].as_str());
    proof {
        lemma_profile_labels_of_two(texts(job.labels@));
    }
    if first == second {
        return Decision::Ignore(IgnoreReason::NoProfileLabel);
    }
    let resolved = if first {
        resolve_label(job.labels[0].as_str())
    } else {
        resolve_label(job.labels[1].as_str())
    };
    match resolved {
        Some(profile) => Decision::Launch(
            Ticket {
                organization: job.organization,
                repository: job.repository,
                job_url: job.job_url,
                labels: job.labels,
                profile,
            },
        ),
        None => Decision::Ignore(IgnoreReason::InvalidProfileLabel),
    }
}

/// Decides what is to become of an event, from the event type that the
/// delivery declares and what its body says of the job.
pub fn classify(event_type: &str, job: JobEvent) -> (r: Decision)
    ensures
        r@ == event_decision(event_type@, job@),
{
    if !same_str(event_type, "workflow_job") {
        Decision::Ignore(IgnoreReason::EventType)
    } else {
        classify_job(job)
    }
}

/// The step that ends the handling with an answer.
fn finished(status: Status, note: Note) -> (r: Step)
    ensures
        r@ == finish(status, note),
{
    Step { state: State::Finished, action: Action::Respond(status), note }
}

/// Judges a delivery against the tag that its body must have, and looks at
/// its family. `tag` is the tag of the raw body under the deployment's
/// secret, or `None` for a deployment without a secret.
pub fn judge_delivery(delivery: &Delivery, tag: Option<Vec<u8>>) -> (r: Step)
    ensures
        r@ == judged(delivery@, bytes_of(tag)),
{
    let header = match &delivery.signature {
        Some(header) => header,
        None => {
            return finished(Status::Unauthorized, Note::Unsigned);
        },
    };
    let claimed = match signature_tag(header.as_str()) {
        Ok(claimed) => claimed,
        Err(e) => {
            return finished(Status::Unauthorized, Note::MalformedSignature(e));
        },
    };
    let tag = match tag {
        Some(tag) => tag,
        None => {
            return finished(Status::InternalServerError, Note::MissingSecret);
        },
    };
    if !constant_time_equal(claimed.as_slice(), tag.as_slice()) {
        return finished(Status::Unauthorized, Note::Forged);
    }
    let family = match &delivery.event_type {
        Some(event_type) => same_str(event_type.as_str(), "workflow_job"),
        None => false,
    };
    if !family {
        return finished(Status::Success, Note::Ignored(IgnoreReason::EventType));
    }
    Step { state: State::Authenticated, action: Action::ParsePayload, note: Note::Authentic }
}

/// Takes the first step: computes the tag of the raw body and judges the
/// delivery against it.
fn on_delivery(settings: &Settings, delivery: Delivery) -> (r: Step)
    ensures
        r@ == after_delivery(settings@, delivery@),
{
    let tag = match &settings.secret {
        Some(secret) => Some(hmac_sha256_tag(secret.as_slice(), delivery.body.as_slice())),
        None => None,
    };
    judge_delivery(&delivery, tag)
}

/// Takes the step after the body was read: judges the job and, for one that
/// gets a runner, decides for whom the token is asked.
fn on_payload(settings: &Settings, payload: Option<JobEvent>) -> (r: Step)
    ensures
        r@ == after_payload(settings@, payload_of(payload)),
{
    let job = match payload {
        Some(job) => job,
        None => {
            return finished(Status::Success, Note::MalformedPayload);
        },
    };
    let ticket = match classify_job(job) {
        Decision::Launch(ticket) => ticket,
        Decision::Ignore(reason) => {
            return finished(Status::Success, Note::Ignored(reason));
        },
    };
    match authorize(&settings.flow, ticket.organization.as_str(), ticket.repository.as_str()) {
        Ok(context) => {
            let request = token_request(&context);
            Step {
                state: State::Authorizing { ticket, context },
                action: Action::RequestToken(request),
                note: Note::Accepted,
            }
        },
        Err(e) => finished(Status::InternalServerError, Note::Broker(e)),
    }
}

/// Takes the step after the identity provider was asked: plans the launch
/// with the token, or ends the handling where there is none.
fn on_exchange(
    settings: &Settings,
    ticket: Ticket,
    context: AuthorizationContext,
    exchange: Exchange,
) -> (r: Step)
    ensures
        r@ == after_exchange(settings@, ticket@, context@, exchange@),
{
    let token = match get_runner_registration_token(exchange) {
        Ok(token) => token,
        Err(e) => {
            return finished(Status::InternalServerError, Note::Broker(e));
        },
    };
    match spawn_runner(
        &settings.placement,
        token.token.as_str(),
        &context,
        &ticket.labels,
        &ticket.profile,
        ticket.repository.as_str(),
        ticket.job_url.as_str(),
    ) {
        Ok(request) => Step {
            state: State::Launching,
            action: Action::Launch(request),
            note: Note::Planned,
        },
        Err(e) => finished(Status::InternalServerError, Note::Launcher(e)),
    }
}

/// Takes the last step: answers for what the backend said.
fn on_launch(outcome: LaunchOutcome) -> (r: Step)
    ensures
        r@ == after_launch(outcome),
{
    match outcome {
        LaunchOutcome::Submitted { failures } => finished(
            Status::Success,
            Note::Launched { failures },
        ),
        LaunchOutcome::Rejected => finished(Status::InternalServerError, Note::LaunchRejected),
    }
}

/// Handles a delivery, one step at a time. Each call takes the state that
/// the handling is in and what happened outside since the last step, and
/// says what state follows and what is to be done outside next. The caller
/// begins with `State::Received` and the delivery, does what each step asks
/// for, and comes back with the outcome until a step asks to respond.
pub fn handle_webhook(settings: &Settings, state: State, event: Event) -> (step: Step)
    ensures
        step@ == next(settings@, state@, event@),
{
    match state {
        State::Received => match event {
            Event::Delivered(delivery) => on_delivery(settings, delivery),
            _ => finished(Status::InternalServerError, Note::OutOfTurn),
        },
        State::Authenticated => match event {
            Event::Parsed(payload) => on_payload(settings, payload),
            _ => finished(Status::InternalServerError, Note::OutOfTurn),
        },
        State::Authorizing { ticket, context } => match event {
            Event::Exchanged(exchange) => on_exchange(settings, ticket, context, exchange),
            _ => finished(Status::InternalServerError, Note::OutOfTurn),
        },
        State::Launching => match event {
            Event::Launched(outcome) => on_launch(outcome),
            _ => finished(Status::InternalServerError, Note::OutOfTurn),
        },
        State::Finished => finished(Status::InternalServerError, Note::OutOfTurn),
    }
}

} // verus!
