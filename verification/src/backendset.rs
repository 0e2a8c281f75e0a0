//! The session's backends behind one entry point: calls are routed by logical name.
//!
//! A set is built per session from the resolved operator config. A call is a sequence of steps: the
//! set says what to do next ([`CallStep`]), the daemon does it and reports back. After the run,
//! what the backends recorded is gathered by capability.
use crate::name_map::NameMap;
use crate::names;
use crate::payload::{self, parse_auth_token, parse_db_payload, AuthPayload, DbPayload};
use crate::resources::{ResolvedResources, ResourceBinding};
use crate::slots::{
    self, AmqProducer, AsyncDeps, AuthSlot, BackendSlot, DbSlot, MailSlot, RedisSlot, SlotView,
};
use crate::steps::{CallStep, CallStepView, Invocation, InvocationView};
use crate::wire::{
    self, AmqMetric, AuthMetric, BackendMetrics, DbMetric, EgressError, EgressErrorView,
    ErrorOwner, MailMetric, RedisMetric,
};
use vstd::prelude::*;
use vstd::string::StringExecFns;

verus! {

/// The error for a call to a name that the session never resolved.
///
/// Such a name has no driver, yet an error has to carry a capability's tag to be taken for a failed
/// call and not for a fault of the script's own. It carries `db`, the first of the tags.
pub open spec fn unknown_error(name: Seq<char>) -> EgressErrorView {
    wire::plain_error(
        "db"@,
        "IO_UNKNOWN"@,
        "unknown egress '"@ + name + "'"@,
        ErrorOwner::Developer,
    )
}

/// The error for a call to a name that the session never resolved. A session calls only names that
/// it declared, so this is a fail-closed backstop.
pub fn unknown_egress(name: &str) -> (error: EgressError)
    ensures
        error@ == unknown_error(name@),
        wire::known_source(error.source@),
        error.code@ == "IO_UNKNOWN"@,
        error.owner == ErrorOwner::Developer,
{
    EgressError::new(
        "db",
        "IO_UNKNOWN",
        "unknown egress '".to_owned().concat(name).concat("'"),
    ).owner(ErrorOwner::Developer)
}

/// The next step of a call of `action` with `payload_json` that reaches `slot`.
pub open spec fn slot_step(
    slot: SlotView,
    action: Seq<char>,
    payload_json: Seq<char>,
) -> CallStepView {
    match slot.binding {
        ResourceBinding::Amq(config) => CallStepView::Invoke(
            InvocationView::Amq { config: *config, action, payload_json },
        ),
        _ => match slots::ready(slot) {
            Err(step) => step,
            Ok(backend) => match slot.binding {
                ResourceBinding::Db(_) => CallStepView::DecodeDb { backend, action, payload_json },
                ResourceBinding::Auth(_) => CallStepView::DecodeAuth {
                    backend,
                    action,
                    payload_json,
                },
                ResourceBinding::Mail(_) => CallStepView::Invoke(
                    InvocationView::Mail { backend, action, payload_json },
                ),
                _ => CallStepView::Invoke(InvocationView::Redis { backend, action, payload_json }),
            },
        },
    }
}

/// The next step of a call of `name`.
pub open spec fn call_step(
    set: Map<Seq<char>, SlotView>,
    name: Seq<char>,
    action: Seq<char>,
    payload_json: Seq<char>,
) -> CallStepView {
    if set.contains_key(name) {
        slot_step(set[name], action, payload_json)
    } else {
        CallStepView::Rejected(unknown_error(name))
    }
}

/// `db`: the payload has to be decoded once the backend is there.
pub fn dispatch_db(slot: &DbSlot, action: &str, payload_json: &str) -> (step: CallStep)
    ensures
        slot@.binding is Db,
        step@ == slot_step(slot@, action@, payload_json@),
{
    match slot.backend() {
        Err(step) => step,
        Ok(backend) => CallStep::DecodeDb {
            backend,
            action: action.to_owned(),
            payload_json: payload_json.to_owned(),
        },
    }
}

/// `mail`: the payload is the send envelope, passed straight through.
pub fn dispatch_mail(slot: &MailSlot, action: &str, payload_json: &str) -> (step: CallStep)
    ensures
        slot@.binding is Mail,
        step@ == slot_step(slot@, action@, payload_json@),
{
    match slot.backend() {
        Err(step) => step,
        Ok(backend) => CallStep::Invoke(
            Invocation::Mail {
                backend,
                action: action.to_owned(),
                payload_json: payload_json.to_owned(),
            },
        ),
    }
}

/// `redis`: the payload is the operation's arguments, passed straight through.
pub fn dispatch_redis(slot: &RedisSlot, action: &str, payload_json: &str) -> (step: CallStep)
    ensures
        slot@.binding is Redis,
        step@ == slot_step(slot@, action@, payload_json@),
{
    match slot.backend() {
        Err(step) => step,
        Ok(backend) => CallStep::Invoke(
            Invocation::Redis {
                backend,
                action: action.to_owned(),
                payload_json: payload_json.to_owned(),
            },
        ),
    }
}

/// `amq`: the payload is the batch or the request, passed straight through.
pub fn dispatch_amq(producer: &AmqProducer, action: &str, payload_json: &str) -> (step: CallStep)
    ensures
        producer@.binding is Amq,
        step@ == slot_step(producer@, action@, payload_json@),
{
    CallStep::Invoke(
        Invocation::Amq {
            config: producer.config().clone(),
            action: action.to_owned(),
            payload_json: payload_json.to_owned(),
        },
    )
}

/// `auth`: the payload has to be decoded once the backend is there.
pub fn dispatch_auth(slot: &AuthSlot, action: &str, payload_json: &str) -> (step: CallStep)
    ensures
        slot@.binding is Auth,
        step@ == slot_step(slot@, action@, payload_json@),
{
    match slot.backend() {
        Err(step) => step,
        Ok(backend) => CallStep::DecodeAuth {
            backend,
            action: action.to_owned(),
            payload_json: payload_json.to_owned(),
        },
    }
}

/// The step after [`CallStep::DecodeDb`]: `decoded` is what decoding the payload gave.
pub open spec fn decoded_db_step(
    backend: u64,
    action: Seq<char>,
    decoded: Result<DbPayload, String>,
) -> CallStepView {
    match decoded {
        Ok(payload) => match payload::params_text(payload::value_text(payload.params)) {
            Some(params_json) => CallStepView::Invoke(
                InvocationView::Db { backend, action, sql: payload.sql@, params_json },
            ),
            None => CallStepView::Rejected(payload::bad_db_payload("params is not an array"@)),
        },
        Err(cause) => CallStepView::Rejected(payload::bad_db_payload(cause@)),
    }
}

/// Goes on after [`CallStep::DecodeDb`]: unpacks the payload and hands it to the backend.
pub fn db_decoded(backend: u64, action: String, decoded: Result<DbPayload, String>) -> (step:
    CallStep)
    ensures
        step@ == decoded_db_step(backend, action@, decoded),
        match (step, decoded) {
            (CallStep::Invoke(Invocation::Db { backend: b, action: a, args }), Ok(payload)) => {
                &&& b == backend
                &&& a == action
                &&& args.sql == payload.sql
                &&& if payload::value_text(payload.params) == Some("null"@) {
                    args.params_json@ == "[]"@
                } else {
                    payload::value_text(payload.params) == Some(args.params_json@)
                }
            },
            (CallStep::Rejected(_), _) => true,
            _ => false,
        },
{
    match parse_db_payload(decoded) {
        Ok(args) => CallStep::Invoke(Invocation::Db { backend, action, args }),
        Err(error) => CallStep::Rejected(error),
    }
}

/// The step after [`CallStep::DecodeAuth`]: `decoded` is what decoding the payload gave.
pub open spec fn decoded_auth_step(
    backend: u64,
    action: Seq<char>,
    decoded: Result<AuthPayload, String>,
) -> CallStepView {
    match decoded {
        Ok(payload) => CallStepView::Invoke(
            InvocationView::Auth { backend, action, token: payload.token@ },
        ),
        Err(cause) => CallStepView::Rejected(payload::bad_auth_payload(cause@)),
    }
}

/// Goes on after [`CallStep::DecodeAuth`]: unpacks the token and hands it to the backend.
pub fn auth_decoded(backend: u64, action: String, decoded: Result<AuthPayload, String>) -> (step:
    CallStep)
    ensures
        step@ == decoded_auth_step(backend, action@, decoded),
        decoded matches Ok(payload) ==> step == CallStep::Invoke(
            Invocation::Auth { backend, action, token: payload.token },
        ),
{
    match parse_auth_token(decoded) {
        Ok(token) => CallStep::Invoke(Invocation::Auth { backend, action, token }),
        Err(error) => CallStep::Rejected(error),
    }
}

/// The session's slots, each fresh: one for each resolved binding.
pub open spec fn fresh_set(
    bindings: Map<Seq<char>, ResourceBinding>,
    deps: AsyncDeps,
) -> Map<Seq<char>, SlotView> {
    bindings.map_values(|b: ResourceBinding| slots::fresh_slot(b, deps))
}

/// The session's slots once connecting the backend of `name` has come to `outcome`.
pub open spec fn settled_set(
    set: Map<Seq<char>, SlotView>,
    name: Seq<char>,
    outcome: Result<u64, EgressErrorView>,
) -> Map<Seq<char>, SlotView> {
    if set.contains_key(name) {
        set.insert(name, slots::settled(set[name], outcome))
    } else {
        set
    }
}

/// A backend to be drained after the run.
#[derive(Debug)]
pub struct DrainTarget {
    /// The name of its slot.
    pub name: String,
    /// Its number; a producer has none.
    pub backend: Option<u64>,
}

/// The names whose backends are drained, in name order.
pub open spec fn drain_order(set: Map<Seq<char>, SlotView>) -> Seq<Seq<char>> {
    names::ordered(set.dom()).filter(|n: Seq<char>| slots::drainable(set[n]))
}

/// What one backend recorded, in the order of its operations.
#[derive(Debug)]
pub enum Recorded {
    /// Operations of a `db` backend.
    Db(Vec<DbMetric>),
    /// Operations of a `mail` backend.
    Mail(Vec<MailMetric>),
    /// Operations of a `redis` backend.
    Redis(Vec<RedisMetric>),
    /// Operations of an `amq` producer.
    Amq(Vec<AmqMetric>),
    /// Operations of an `auth` backend.
    Auth(Vec<AuthMetric>),
}

/// What the backend of `name` recorded, if anything is known of it.
pub open spec fn recorded_by(recorded: Map<Seq<char>, Recorded>, name: Seq<char>) -> Option<
    Recorded,
> {
    if recorded.contains_key(name) {
        Some(recorded[name])
    } else {
        None
    }
}

/// The `db` operations of a slot whose backend recorded `recorded`.
pub open spec fn db_share() -> spec_fn(SlotView, Option<Recorded>) -> Seq<DbMetric> {
    |slot: SlotView, recorded: Option<Recorded>|
        match recorded {
            Some(Recorded::Db(m)) if slot.binding is Db && slots::drainable(slot) => m@,
            _ => Seq::empty(),
        }
}

/// The `mail` operations of a slot whose backend recorded `recorded`.
pub open spec fn mail_share() -> spec_fn(SlotView, Option<Recorded>) -> Seq<MailMetric> {
    |slot: SlotView, recorded: Option<Recorded>|
        match recorded {
            Some(Recorded::Mail(m)) if slot.binding is Mail && slots::drainable(slot) => m@,
            _ => Seq::empty(),
        }
}

/// The `redis` operations of a slot whose backend recorded `recorded`.
pub open spec fn redis_share() -> spec_fn(SlotView, Option<Recorded>) -> Seq<RedisMetric> {
    |slot: SlotView, recorded: Option<Recorded>|
        match recorded {
            Some(Recorded::Redis(m)) if slot.binding is Redis && slots::drainable(slot) => m@,
            _ => Seq::empty(),
        }
}

/// The `amq` operations of a slot whose producer recorded `recorded`.
pub open spec fn amq_share() -> spec_fn(SlotView, Option<Recorded>) -> Seq<AmqMetric> {
    |slot: SlotView, recorded: Option<Recorded>|
        match recorded {
            Some(Recorded::Amq(m)) if slot.binding is Amq && slots::drainable(slot) => m@,
            _ => Seq::empty(),
        }
}

/// The `auth` operations of a slot whose backend recorded `recorded`.
pub open spec fn auth_share() -> spec_fn(SlotView, Option<Recorded>) -> Seq<AuthMetric> {
    |slot: SlotView, recorded: Option<Recorded>|
        match recorded {
            Some(Recorded::Auth(m)) if slot.binding is Auth && slots::drainable(slot) => m@,
            _ => Seq::empty(),
        }
}

/// What the slots of `order` contribute, one after the other.
pub open spec fn gathered<M>(
    order: Seq<Seq<char>>,
    set: Map<Seq<char>, SlotView>,
    recorded: Map<Seq<char>, Recorded>,
    share: spec_fn(SlotView, Option<Recorded>) -> Seq<M>,
) -> Seq<M> {
    order.map_values(|n: Seq<char>| share(set[n], recorded_by(recorded, n))).flatten()
}

/// Where no slot contributes anything, nothing is gathered.
pub proof fn lemma_gathered_nothing<M>(
    order: Seq<Seq<char>>,
    set: Map<Seq<char>, SlotView>,
    recorded: Map<Seq<char>, Recorded>,
    share: spec_fn(SlotView, Option<Recorded>) -> Seq<M>,
)
    requires
        forall|i: int|
            #![trigger order[i]]
            0 <= i < order.len() ==> share(
                set[order[i]],
                recorded_by(recorded, order[i]),
            ).len() == 0,
    ensures
        gathered(order, set, recorded, share) == Seq::<M>::empty(),
    decreases order.len(),
{
    if order.len() > 0 {
        let last = order.len() - 1;
        lemma_gathered_step(order, last, set, recorded, share);
        lemma_gathered_nothing(order.take(last), set, recorded, share);
        assert(order.take(order.len() as int) =~= order);
    }
}

/// One more slot adds its contribution at the end.
pub proof fn lemma_gathered_step<M>(
    order: Seq<Seq<char>>,
    i: int,
    set: Map<Seq<char>, SlotView>,
    recorded: Map<Seq<char>, Recorded>,
    share: spec_fn(SlotView, Option<Recorded>) -> Seq<M>,
)
    requires
        0 <= i < order.len(),
    ensures
        gathered(order.take(i + 1), set, recorded, share) == gathered(
            order.take(i),
            set,
            recorded,
            share,
        ) + share(set[order[i]], recorded_by(recorded, order[i])),
{
    let f = |n: Seq<char>| share(set[n], recorded_by(recorded, n));
    let seen = order.take(i).map_values(f);
    let now = order.take(i + 1).map_values(f);
    assert(now =~= seen.push(f(order[i])));
    seen.lemma_flatten_push(f(order[i]));
}

/// The metrics that a run is reported with, when the slots are `set` and the backends recorded
/// `recorded`: for each capability, the operations of all its backends, in name order. Nothing is
/// reported under `mongo`.
pub open spec fn reports(
    metrics: BackendMetrics,
    set: Map<Seq<char>, SlotView>,
    recorded: Map<Seq<char>, Recorded>,
    order: Seq<Seq<char>>,
) -> bool {
    &&& metrics.db@ == gathered(order, set, recorded, db_share())
    &&& metrics.mongo@.len() == 0
    &&& metrics.mail@ == gathered(order, set, recorded, mail_share())
    &&& metrics.redis@ == gathered(order, set, recorded, redis_share())
    &&& metrics.amq@ == gathered(order, set, recorded, amq_share())
    &&& metrics.auth@ == gathered(order, set, recorded, auth_share())
}

/// The session's backends, by logical resource name.
#[derive(Debug)]
pub struct BackendSet {
    backends: NameMap<BackendSlot>,
}

impl View for BackendSet {
    type V = Map<Seq<char>, SlotView>;

    closed spec fn view(&self) -> Map<Seq<char>, SlotView> {
        self.backends@.map_values(|s: BackendSlot| s@)
    }
}

impl Default for BackendSet {
    fn default() -> (set: Self)
        ensures
            set@ == Map::<Seq<char>, SlotView>::empty(),
    {
        BackendSet::new()
    }
}

impl BackendSet {
    /// A set with no resources wired.
    pub fn new() -> (set: Self)
        ensures
            set@ == Map::<Seq<char>, SlotView>::empty(),
    {
        let set = BackendSet { backends: NameMap::new() };
        assert(set@ =~= Map::<Seq<char>, SlotView>::empty());
        set
    }

    /// Builds a set from the session's resolved config: each name gets a slot, to be connected on
    /// first use.
    pub fn from_configs(configs: &ResolvedResources, deps: &AsyncDeps) -> (set: Self)
        ensures
            set@ == fresh_set(configs.by_name@, *deps),
    {
        let ghost bindings = configs.by_name@;
        let ghost order = configs.by_name.names();
        let mut backends: NameMap<BackendSlot> = NameMap::new();
        let n = configs.by_name.len();
        let mut i: usize = 0;
        while i < n
            invariant
                i <= n,
                n == order.len(),
                bindings == configs.by_name@,
                order == configs.by_name.names(),
                names::in_order(order),
                order.to_set() == bindings.dom(),
                backends@.dom() == order.take(i as int).to_set(),
                forall|m: Seq<char>| #[trigger]
                    backends@.contains_key(m) ==> backends@[m]@ == slots::fresh_slot(
                        bindings[m],
                        *deps,
                    ),
            decreases n - i,
        {
            let name = configs.by_name.name_at(i);
            let slot = BackendSlot::from_binding(configs.by_name.value_at(i), deps);
            let _ = backends.insert(name.clone(), slot);
            proof {
                let seen = order.take(i as int);
                let now = order.take(i + 1);
                assert(now =~= seen.push(order[i as int]));
                names::lemma_push_names(seen, order[i as int]);
                assert(backends@.dom() =~= now.to_set());
            }
            i += 1;
        }
        proof {
            assert(order.take(i as int) =~= order);
        }
        let set = BackendSet { backends };
        assert(set@ =~= fresh_set(bindings, *deps));
        set
    }

    /// The next step of a call: which driver call to make with what, what to do before it, or why
    /// the call fails.
    pub fn call(&self, name: &str, action: &str, payload_json: &str) -> (step: CallStep)
        ensures
            step@ == call_step(self@, name@, action@, payload_json@),
            match step {
                CallStep::DecodeDb { backend: _, action: a, payload_json: p } => a@ == action@ && p@
                    == payload_json@,
                CallStep::DecodeAuth { backend: _, action: a, payload_json: p } => a@ == action@
                    && p@ == payload_json@,
                CallStep::Invoke(
                    Invocation::Mail { backend: _, action: a, payload_json: p },
                ) => a@ == action@ && p@ == payload_json@,
                CallStep::Invoke(
                    Invocation::Redis { backend: _, action: a, payload_json: p },
                ) => a@ == action@ && p@ == payload_json@,
                CallStep::Invoke(
                    Invocation::Amq { config: _, action: a, payload_json: p },
                ) => a@ == action@ && p@ == payload_json@,
                CallStep::Invoke(_) => false,
                CallStep::Connect(_) => true,
                CallStep::Rejected(_) => true,
            },
    {
        match self.backends.get(name) {
            Some(BackendSlot::Db(slot)) => dispatch_db(slot, action, payload_json),
            Some(BackendSlot::Mail(slot)) => dispatch_mail(slot, action, payload_json),
            Some(BackendSlot::Redis(slot)) => dispatch_redis(slot, action, payload_json),
            Some(BackendSlot::Amq(producer)) => dispatch_amq(producer, action, payload_json),
            Some(BackendSlot::Auth(slot)) => dispatch_auth(slot, action, payload_json),
            None => CallStep::Rejected(unknown_egress(name)),
        }
    }

    /// Keeps what connecting the backend of `name` came to. The first outcome stays for the
    /// session.
    pub fn connected(&mut self, name: &str, outcome: Result<u64, EgressError>)
        ensures
            final(self)@ == settled_set(
                old(self)@,
                name@,
                slots::outcome_of(Some(outcome))->0,
            ),
            final(self)@ == settled_set(
                old(self)@,
                name@,
                match outcome {
                    Ok(backend) => Ok(backend),
                    Err(error) => Err(error@),
                },
            ),
    {
        let ghost before = self@;
        if let Some(slot) = self.backends.get_mut(name) {
            slot.connected(outcome);
        }
        assert(self@ =~= settled_set(before, name@, slots::outcome_of(Some(outcome))->0));
    }

    /// The backends to be drained after the run: the connected ones and the producers, in name
    /// order.
    pub fn drain_targets(&self) -> (targets: Vec<DrainTarget>)
        ensures
            targets@.map_values(|t: DrainTarget| t.name@) == drain_order(self@),
            names::in_order(names::ordered(self@.dom())),
            names::ordered(self@.dom()).to_set() == self@.dom(),
            forall|i: int|
                #![trigger targets[i]]
                0 <= i < targets.len() ==> targets[i].backend == slots::connection_of(
                    self@[targets[i].name@],
                ) && targets[i].backend == (match self@[targets[i].name@].backend {
                    Some(Ok(backend)) => Some(backend),
                    _ => None,
                }),
    {
        let ghost set = self@;
        let ghost order = self.backends.names();
        let ghost wanted = |n: Seq<char>| slots::drainable(set[n]);
        let mut targets: Vec<DrainTarget> = Vec::new();
        let n = self.backends.len();
        let mut i: usize = 0;
        proof {
            reveal(Seq::filter);
            assert(set.dom() =~= self.backends@.dom());
            assert(targets@.map_values(|t: DrainTarget| t.name@) =~= order.take(0).filter(wanted));
        }
        while i < n
            invariant
                i <= n,
                n == order.len(),
                set == self@,
                order == self.backends.names(),
                names::in_order(order),
                order.to_set() == self.backends@.dom(),
                wanted == (|n: Seq<char>| slots::drainable(set[n])),
                targets@.map_values(|t: DrainTarget| t.name@) == order.take(i as int).filter(
                    wanted,
                ),
                forall|j: int|
                    #![trigger targets[j]]
                    0 <= j < targets.len() ==> targets[j].backend == slots::connection_of(
                        set[targets[j].name@],
                    ),
            decreases n - i,
        {
            let name = self.backends.name_at(i);
            let slot = self.backends.value_at(i);
            let ghost before = targets@.map_values(|t: DrainTarget| t.name@);
            proof {
                slots::lemma_slot_kind(*slot);
                assert(set[order[i as int]] == slot@);
                reveal(Seq::filter);
                assert(order.take(i + 1).drop_last() =~= order.take(i as int));
            }
            let backend = slot.connection();
            let producer = match slot {
                BackendSlot::Amq(_) => true,
                _ => false,
            };
            if producer || backend.is_some() {
                targets.push(DrainTarget { name: name.clone(), backend });
                assert(targets@.map_values(|t: DrainTarget| t.name@) =~= before.push(name@));
            }
            i += 1;
        }
        proof {
            assert(order.take(i as int) =~= order);
        }
        targets
    }

    /// Gathers what the backends recorded into one report, by capability across all names, in name
    /// order. A name that is not wired, and a backend that was never connected, adds nothing.
    pub fn metrics(&self, recorded: NameMap<Recorded>) -> (metrics: BackendMetrics)
        ensures
            reports(metrics, self@, recorded@, names::ordered(self@.dom())),
            names::in_order(names::ordered(self@.dom())),
            names::ordered(self@.dom()).to_set() == self@.dom(),
    {
        let ghost set = self@;
        let ghost given = recorded@;
        let ghost order = self.backends.names();
        let mut recorded = recorded;
        let mut metrics = BackendMetrics::default();
        let n = self.backends.len();
        let mut i: usize = 0;
        proof {
            assert(set.dom() =~= self.backends@.dom());
            lemma_gathered_nothing(order.take(0), set, given, db_share());
            lemma_gathered_nothing(order.take(0), set, given, mail_share());
            lemma_gathered_nothing(order.take(0), set, given, redis_share());
            lemma_gathered_nothing(order.take(0), set, given, amq_share());
            lemma_gathered_nothing(order.take(0), set, given, auth_share());
            assert(metrics.db@ =~= Seq::empty());
            assert(metrics.mail@ =~= Seq::empty());
            assert(metrics.redis@ =~= Seq::empty());
            assert(metrics.amq@ =~= Seq::empty());
            assert(metrics.auth@ =~= Seq::empty());
        }
        while i < n
            invariant
                i <= n,
                n == order.len(),
                set == self@,
                order == self.backends.names(),
                names::in_order(order),
                order.to_set() == self.backends@.dom(),
                forall|j: int|
                    #![trigger order[j]]
                    i <= j < n ==> recorded_by(recorded@, order[j]) == recorded_by(
                        given,
                        order[j],
                    ),
                reports(metrics, set, given, order.take(i as int)),
            decreases n - i,
        {
            let name = self.backends.name_at(i);
            let slot = self.backends.value_at(i);
            let taken = recorded.remove(name.as_str());
            let ghost before = metrics;
            let ghost its_own = taken;
            proof {
                slots::lemma_slot_kind(*slot);
                assert(recorded_by(given, order[i as int]) == taken);
                assert(set[order[i as int]] == slot@);
                lemma_gathered_step(order, i as int, set, given, db_share());
                lemma_gathered_step(order, i as int, set, given, mail_share());
                lemma_gathered_step(order, i as int, set, given, redis_share());
                lemma_gathered_step(order, i as int, set, given, amq_share());
                lemma_gathered_step(order, i as int, set, given, auth_share());
                assert forall|j: int| #![trigger order[j]] i < j < n implies recorded_by(
                    recorded@,
                    order[j],
                ) == recorded_by(given, order[j]) by {
                    names::lemma_place_is_unique(order, j);
                    names::lemma_place_is_unique(order, i as int);
                }
            }
            match (slot, taken) {
                (BackendSlot::Db(slot), Some(Recorded::Db(recorded))) => {
                    let mut drained = slot.drained(recorded);
                    metrics.db.append(&mut drained);
                },
                (BackendSlot::Mail(slot), Some(Recorded::Mail(recorded))) => {
                    let mut drained = slot.drained(recorded);
                    metrics.mail.append(&mut drained);
                },
                (BackendSlot::Redis(slot), Some(Recorded::Redis(recorded))) => {
                    let mut drained = slot.drained(recorded);
                    metrics.redis.append(&mut drained);
                },
                (BackendSlot::Amq(_), Some(Recorded::Amq(recorded))) => {
                    let mut drained = recorded;
                    metrics.amq.append(&mut drained);
                },
                (BackendSlot::Auth(slot), Some(Recorded::Auth(recorded))) => {
                    let mut drained = slot.drained(recorded);
                    metrics.auth.append(&mut drained);
                },
                _ => {},
            }
            proof {
                assert(metrics.db@ =~= before.db@ + db_share()(slot@, its_own));
                assert(metrics.mail@ =~= before.mail@ + mail_share()(slot@, its_own));
                assert(metrics.redis@ =~= before.redis@ + redis_share()(slot@, its_own));
                assert(metrics.amq@ =~= before.amq@ + amq_share()(slot@, its_own));
                assert(metrics.auth@ =~= before.auth@ + auth_share()(slot@, its_own));
            }
            i += 1;
        }
        proof {
            assert(order.take(i as int) =~= order);
        }
        metrics
    }
}

} // verus!
