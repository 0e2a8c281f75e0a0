//! The slots of a session: one per logical name, each with a backend that is connected on first
//! use, once.
use crate::resources::{AmqConfig, AuthConfig, DbConfig, MailConfig, RedisConfig, ResourceBinding};
use crate::steps::{CallStep, CallStepView, ConnectRequest};
use crate::wire::{AuthMetric, DbMetric, EgressError, EgressErrorView, MailMetric, RedisMetric};
use std::time::Duration;
use vstd::prelude::*;

verus! {

/// A handle to the async runtime.
#[verifier::external_type_specification]
#[verifier::external_body]
pub struct ExHandle(tokio::runtime::Handle);

/// `tokio::runtime::Handle`'s `clone`: handles are reference-counted, and a clone is a handle to
/// the same runtime.
pub assume_specification[ <tokio::runtime::Handle as Clone>::clone ](
    handle: &tokio::runtime::Handle,
) -> (copy: tokio::runtime::Handle)
    ensures
        copy == *handle,
;

/// What the async drivers (`db`) share: the runtime, the circuit breaker and the deadline.
#[derive(Debug)]
pub struct AsyncDeps {
    /// Handle to the runtime that the drivers block on.
    pub handle: tokio::runtime::Handle,
    /// The key of the shared `db` circuit breaker, where there is one.
    pub breaker: Option<u64>,
    /// The wall-clock budget of the run, which bounds each operation.
    pub timeout: Duration,
}

impl Clone for AsyncDeps {
    fn clone(&self) -> (copy: Self)
        ensures
            copy == *self,
    {
        AsyncDeps {
            handle: self.handle.clone(),
            breaker: self.breaker,
            timeout: self.timeout,
        }
    }
}

/// What connecting a backend came to: the connected backend's number, or why it failed. `None`
/// where it has not been tried.
pub open spec fn outcome_of(outcome: Option<Result<u64, EgressError>>) -> Option<
    Result<u64, EgressErrorView>,
> {
    match outcome {
        None => None,
        Some(Ok(backend)) => Some(Ok(backend)),
        Some(Err(error)) => Some(Err(error@)),
    }
}

/// A slot, as it stands: what it was declared as, what its driver shares with others (`db` alone),
/// and what connecting it came to.
pub struct SlotView {
    pub binding: ResourceBinding,
    pub deps: Option<AsyncDeps>,
    pub backend: Option<Result<u64, EgressErrorView>>,
}

/// The slot of a binding, before its first use.
pub open spec fn fresh_slot(binding: ResourceBinding, deps: AsyncDeps) -> SlotView {
    SlotView {
        binding,
        deps: if binding is Db {
            Some(deps)
        } else {
            None
        },
        backend: None,
    }
}

/// A slot once its backend's connecting has come to `outcome`. What was found first stays; an `amq`
/// slot keeps no connection.
pub open spec fn settled(slot: SlotView, outcome: Result<u64, EgressErrorView>) -> SlotView {
    if slot.binding is Amq || slot.backend is Some {
        slot
    } else {
        SlotView { backend: Some(outcome), ..slot }
    }
}

/// What it takes to connect a slot's backend. An `amq` slot has none to connect.
pub open spec fn connect_request(slot: SlotView) -> Option<ConnectRequest> {
    match slot.binding {
        ResourceBinding::Db(config) => Some(
            ConnectRequest::Db { config: *config, deps: slot.deps->0 },
        ),
        ResourceBinding::Mail(config) => Some(ConnectRequest::Mail(*config)),
        ResourceBinding::Redis(config) => Some(ConnectRequest::Redis(*config)),
        ResourceBinding::Amq(_) => None,
        ResourceBinding::Auth(config) => Some(ConnectRequest::Auth(*config)),
    }
}

/// The backend of a slot that keeps one, or the step that a call has to take instead: to connect
/// it, or to fail as connecting it failed.
pub open spec fn ready(slot: SlotView) -> Result<u64, CallStepView> {
    match slot.backend {
        Some(Ok(backend)) => Ok(backend),
        Some(Err(error)) => Err(CallStepView::Rejected(error)),
        None => Err(CallStepView::Connect(connect_request(slot)->0)),
    }
}

/// What [`ready`] says, of the step as it is given.
pub open spec fn ready_of(backend: Result<u64, CallStep>) -> Result<u64, CallStepView> {
    match backend {
        Ok(number) => Ok(number),
        Err(step) => Err(step@),
    }
}

/// The number of a slot's connected backend, where it has one.
pub open spec fn connection_of(slot: SlotView) -> Option<u64> {
    match slot.backend {
        Some(Ok(backend)) => Some(backend),
        _ => None,
    }
}

/// Whether a slot has a backend whose metrics can be drained: one that is connected, or a producer.
pub open spec fn drainable(slot: SlotView) -> bool {
    slot.binding is Amq || connection_of(slot) is Some
}

/// A connect-once cell.
#[derive(Debug)]
pub struct BackendCell {
    outcome: Option<Result<u64, EgressError>>,
}

impl View for BackendCell {
    type V = Option<Result<u64, EgressErrorView>>;

    closed spec fn view(&self) -> Option<Result<u64, EgressErrorView>> {
        outcome_of(self.outcome)
    }
}

impl BackendCell {
    /// An empty cell.
    pub fn new() -> (cell: Self)
        ensures
            cell@ is None,
    {
        BackendCell { outcome: None }
    }

    /// What the cell holds.
    pub fn get(&self) -> (outcome: Option<Result<u64, EgressError>>)
        ensures
            outcome_of(outcome) == self@,
    {
        match &self.outcome {
            None => None,
            Some(Ok(backend)) => Some(Ok(*backend)),
            Some(Err(error)) => Some(Err(error.clone())),
        }
    }

    /// Fills the cell, unless it is filled.
    pub fn init(&mut self, outcome: Result<u64, EgressError>)
        ensures
            final(self)@ == (if old(self)@ is Some {
                old(self)@
            } else {
                outcome_of(Some(outcome))
            }),
    {
        if self.outcome.is_none() {
            self.outcome = Some(outcome);
        }
    }

    /// The backend that the cell holds, if connecting it went well.
    pub fn connected(&self) -> (backend: Option<u64>)
        ensures
            backend == (match self@ {
                Some(Ok(number)) => Some(number),
                _ => None,
            }),
    {
        match &self.outcome {
            Some(Ok(backend)) => Some(*backend),
            _ => None,
        }
    }
}

/// A `db` slot, connected on first use.
#[derive(Debug)]
pub struct DbSlot {
    config: DbConfig,
    deps: AsyncDeps,
    backend: BackendCell,
}

/// A `mail` slot, built on first use.
#[derive(Debug)]
pub struct MailSlot {
    config: MailConfig,
    backend: BackendCell,
}

/// A `redis` slot, connected on first use.
#[derive(Debug)]
pub struct RedisSlot {
    config: RedisConfig,
    backend: BackendCell,
}

/// An `amq` producer, which connects on each call.
#[derive(Debug)]
pub struct AmqProducer {
    config: AmqConfig,
}

/// An `auth` slot, built on first use.
#[derive(Debug)]
pub struct AuthSlot {
    config: AuthConfig,
    backend: BackendCell,
}

impl View for DbSlot {
    type V = SlotView;

    closed spec fn view(&self) -> SlotView {
        SlotView {
            binding: ResourceBinding::Db(Box::new(self.config)),
            deps: Some(self.deps),
            backend: self.backend@,
        }
    }
}

impl View for MailSlot {
    type V = SlotView;

    closed spec fn view(&self) -> SlotView {
        SlotView {
            binding: ResourceBinding::Mail(Box::new(self.config)),
            deps: None,
            backend: self.backend@,
        }
    }
}

impl View for RedisSlot {
    type V = SlotView;

    closed spec fn view(&self) -> SlotView {
        SlotView {
            binding: ResourceBinding::Redis(Box::new(self.config)),
            deps: None,
            backend: self.backend@,
        }
    }
}

impl View for AmqProducer {
    type V = SlotView;

    closed spec fn view(&self) -> SlotView {
        SlotView {
            binding: ResourceBinding::Amq(Box::new(self.config)),
            deps: None,
            backend: None,
        }
    }
}

impl View for AuthSlot {
    type V = SlotView;

    closed spec fn view(&self) -> SlotView {
        SlotView {
            binding: ResourceBinding::Auth(Box::new(self.config)),
            deps: None,
            backend: self.backend@,
        }
    }
}

impl DbSlot {
    /// A slot before its first use.
    pub fn new(config: DbConfig, deps: AsyncDeps) -> (slot: Self)
        ensures
            slot@ == (SlotView {
                binding: ResourceBinding::Db(Box::new(config)),
                deps: Some(deps),
                backend: None,
            }),
    {
        DbSlot { config, deps, backend: BackendCell::new() }
    }

    /// The slot's backend, or the step that a call has to take instead.
    pub fn backend(&self) -> (backend: Result<u64, CallStep>)
        ensures
            self@.binding is Db,
            ready_of(backend) == ready(self@),
    {
        match self.backend.get() {
            Some(Ok(backend)) => Ok(backend),
            Some(Err(error)) => Err(CallStep::Rejected(error)),
            None => Err(
                CallStep::Connect(
                    ConnectRequest::Db { config: self.config.clone(), deps: self.deps.clone() },
                ),
            ),
        }
    }

    /// Keeps what connecting the backend came to, unless that is known.
    pub fn connected(&mut self, outcome: Result<u64, EgressError>)
        ensures
            final(self)@ == settled(old(self)@, outcome_of(Some(outcome))->0),
    {
        self.backend.init(outcome);
    }

    /// The metrics that the backend recorded (none if it was never connected).
    pub fn drained(&self, recorded: Vec<DbMetric>) -> (metrics: Vec<DbMetric>)
        ensures
            self@.binding is Db,
            metrics@ == (if drainable(self@) {
                recorded@
            } else {
                Seq::<DbMetric>::empty()
            }),
    {
        match self.backend.connected() {
            Some(_) => recorded,
            None => Vec::new(),
        }
    }
}

impl MailSlot {
    /// A slot before its first use.
    pub fn new(config: MailConfig) -> (slot: Self)
        ensures
            slot@ == (SlotView {
                binding: ResourceBinding::Mail(Box::new(config)),
                deps: None,
                backend: None,
            }),
    {
        MailSlot { config, backend: BackendCell::new() }
    }

    /// The slot's backend, or the step that a call has to take instead.
    pub fn backend(&self) -> (backend: Result<u64, CallStep>)
        ensures
            self@.binding is Mail,
            ready_of(backend) == ready(self@),
    {
        match self.backend.get() {
            Some(Ok(backend)) => Ok(backend),
            Some(Err(error)) => Err(CallStep::Rejected(error)),
            None => Err(
                CallStep::Connect(ConnectRequest::Mail(self.config.clone())),
            ),
        }
    }

    /// Keeps what connecting the backend came to, unless that is known.
    pub fn connected(&mut self, outcome: Result<u64, EgressError>)
        ensures
            final(self)@ == settled(old(self)@, outcome_of(Some(outcome))->0),
    {
        self.backend.init(outcome);
    }

    /// The metrics that the backend recorded (none if it was never connected).
    pub fn drained(&self, recorded: Vec<MailMetric>) -> (metrics: Vec<MailMetric>)
        ensures
            self@.binding is Mail,
            metrics@ == (if drainable(self@) {
                recorded@
            } else {
                Seq::<MailMetric>::empty()
            }),
    {
        match self.backend.connected() {
            Some(_) => recorded,
            None => Vec::new(),
        }
    }
}

impl RedisSlot {
    /// A slot before its first use.
    pub fn new(config: RedisConfig) -> (slot: Self)
        ensures
            slot@ == (SlotView {
                binding: ResourceBinding::Redis(Box::new(config)),
                deps: None,
                backend: None,
            }),
    {
        RedisSlot { config, backend: BackendCell::new() }
    }

    /// The slot's backend, or the step that a call has to take instead.
    pub fn backend(&self) -> (backend: Result<u64, CallStep>)
        ensures
            self@.binding is Redis,
            ready_of(backend) == ready(self@),
    {
        match self.backend.get() {
            Some(Ok(backend)) => Ok(backend),
            Some(Err(error)) => Err(CallStep::Rejected(error)),
            None => Err(
                CallStep::Connect(ConnectRequest::Redis(self.config.clone())),
            ),
        }
    }

    /// Keeps what connecting the backend came to, unless that is known.
    pub fn connected(&mut self, outcome: Result<u64, EgressError>)
        ensures
            final(self)@ == settled(old(self)@, outcome_of(Some(outcome))->0),
    {
        self.backend.init(outcome);
    }

    /// The metrics that the backend recorded (none if it was never connected).
    pub fn drained(&self, recorded: Vec<RedisMetric>) -> (metrics: Vec<RedisMetric>)
        ensures
            self@.binding is Redis,
            metrics@ == (if drainable(self@) {
                recorded@
            } else {
                Seq::<RedisMetric>::empty()
            }),
    {
        match self.backend.connected() {
            Some(_) => recorded,
            None => Vec::new(),
        }
    }
}

impl AuthSlot {
    /// A slot before its first use.
    pub fn new(config: AuthConfig) -> (slot: Self)
        ensures
            slot@ == (SlotView {
                binding: ResourceBinding::Auth(Box::new(config)),
                deps: None,
                backend: None,
            }),
    {
        AuthSlot { config, backend: BackendCell::new() }
    }

    /// The slot's backend, or the step that a call has to take instead.
    pub fn backend(&self) -> (backend: Result<u64, CallStep>)
        ensures
            self@.binding is Auth,
            ready_of(backend) == ready(self@),
    {
        match self.backend.get() {
            Some(Ok(backend)) => Ok(backend),
            Some(Err(error)) => Err(CallStep::Rejected(error)),
            None => Err(
                CallStep::Connect(ConnectRequest::Auth(self.config.clone())),
            ),
        }
    }

    /// Keeps what connecting the backend came to, unless that is known.
    pub fn connected(&mut self, outcome: Result<u64, EgressError>)
        ensures
            final(self)@ == settled(old(self)@, outcome_of(Some(outcome))->0),
    {
        self.backend.init(outcome);
    }

    /// The metrics that the backend recorded (none if it was never connected).
    pub fn drained(&self, recorded: Vec<AuthMetric>) -> (metrics: Vec<AuthMetric>)
        ensures
            self@.binding is Auth,
            metrics@ == (if drainable(self@) {
                recorded@
            } else {
                Seq::<AuthMetric>::empty()
            }),
    {
        match self.backend.connected() {
            Some(_) => recorded,
            None => Vec::new(),
        }
    }
}

impl AmqProducer {
    /// A producer for the broker that `config` describes.
    pub fn new(config: AmqConfig) -> (producer: Self)
        ensures
            producer@ == (SlotView {
                binding: ResourceBinding::Amq(Box::new(config)),
                deps: None,
                backend: None,
            }),
    {
        AmqProducer { config }
    }

    /// The broker's config.
    pub fn config(&self) -> (config: &AmqConfig)
        ensures
            self@.binding == ResourceBinding::Amq(Box::new(*config)),
    {
        &self.config
    }
}

/// One resolved backend. The called name selects the slot; the slot's kind selects the driver and
/// the kind of metrics.
#[derive(Debug)]
pub enum BackendSlot {
    /// A `db` (Postgres-family) backend.
    Db(DbSlot),
    /// A `mail`/SMTP backend.
    Mail(MailSlot),
    /// A `redis` backend.
    Redis(RedisSlot),
    /// An `amq` producer.
    Amq(AmqProducer),
    /// An `auth` (OIDC/IAM) backend.
    Auth(AuthSlot),
}

impl View for BackendSlot {
    type V = SlotView;

    open spec fn view(&self) -> SlotView {
        match self {
            BackendSlot::Db(slot) => slot@,
            BackendSlot::Mail(slot) => slot@,
            BackendSlot::Redis(slot) => slot@,
            BackendSlot::Amq(producer) => producer@,
            BackendSlot::Auth(slot) => slot@,
        }
    }
}

/// A slot is of the kind that it was declared as.
pub proof fn lemma_slot_kind(slot: BackendSlot)
    ensures
        slot is Db == slot@.binding is Db,
        slot is Mail == slot@.binding is Mail,
        slot is Redis == slot@.binding is Redis,
        slot is Amq == slot@.binding is Amq,
        slot is Auth == slot@.binding is Auth,
{
}

impl BackendSlot {
    /// Builds the slot of a resolved binding. Nothing is connected yet.
    pub fn from_binding(binding: &ResourceBinding, deps: &AsyncDeps) -> (slot: Self)
        ensures
            slot@ == fresh_slot(*binding, *deps),
    {
        match binding {
            ResourceBinding::Db(config) => BackendSlot::Db(
                DbSlot::new((**config).clone(), deps.clone()),
            ),
            ResourceBinding::Mail(config) => BackendSlot::Mail(MailSlot::new((**config).clone())),
            ResourceBinding::Redis(config) => BackendSlot::Redis(
                RedisSlot::new((**config).clone()),
            ),
            ResourceBinding::Amq(config) => BackendSlot::Amq(AmqProducer::new((**config).clone())),
            ResourceBinding::Auth(config) => BackendSlot::Auth(AuthSlot::new((**config).clone())),
        }
    }

    /// The number of the slot's connected backend, where it has one.
    pub fn connection(&self) -> (backend: Option<u64>)
        ensures
            backend == connection_of(self@),
    {
        match self {
            BackendSlot::Db(slot) => slot.backend.connected(),
            BackendSlot::Mail(slot) => slot.backend.connected(),
            BackendSlot::Redis(slot) => slot.backend.connected(),
            BackendSlot::Amq(_) => None,
            BackendSlot::Auth(slot) => slot.backend.connected(),
        }
    }

    /// Keeps what connecting the backend came to, unless that is known. A producer keeps nothing.
    pub fn connected(&mut self, outcome: Result<u64, EgressError>)
        ensures
            final(self)@ == settled(old(self)@, outcome_of(Some(outcome))->0),
    {
        match self {
            BackendSlot::Db(slot) => slot.connected(outcome),
            BackendSlot::Mail(slot) => slot.connected(outcome),
            BackendSlot::Redis(slot) => slot.connected(outcome),
            BackendSlot::Amq(_) => {},
            BackendSlot::Auth(slot) => slot.connected(outcome),
        }
    }
}

} // verus!
