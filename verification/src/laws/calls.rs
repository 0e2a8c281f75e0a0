//! What becomes of a call, from the name that it is made to up to what its driver is handed.
use crate::backendset;
use crate::payload::{self, AuthPayload, DbArgs, DbPayload};
use crate::resources::{AmqConfig, ResourceBinding};
use crate::slots::{self, AsyncDeps, SlotView};
use crate::steps::{CallStep, CallStepView, ConnectRequest, Invocation, InvocationView};
use crate::wire::{EgressError, EgressErrorView, ErrorOwner};
use vstd::prelude::*;

verus! {

/// A set that is built from bindings has one slot for each name that they bind, of the kind and
/// with the config that the name is bound to, and none of them is connected.
pub proof fn law_each_binding_gets_its_slot(
    bindings: Map<Seq<char>, ResourceBinding>,
    deps: AsyncDeps,
    name: Seq<char>,
)
    ensures
        backendset::fresh_set(bindings, deps).dom() == bindings.dom(),
        bindings.contains_key(name) ==> {
            let slot = backendset::fresh_set(bindings, deps)[name];
            &&& slot.binding == bindings[name]
            &&& slot.binding is Db ==> slot.deps == Some(deps)
            &&& slot.backend is None
        },
{
    assert(backendset::fresh_set(bindings, deps).dom() =~= bindings.dom());
}

/// The first call to a bound name asks to connect that name's backend with the config that the
/// name is bound to, a `db` one also with the session's runtime, breaker and deadline. A producer
/// has nothing to connect: it is handed the action and the payload as they are.
pub proof fn law_first_call_asks_for_its_backend(
    bindings: Map<Seq<char>, ResourceBinding>,
    deps: AsyncDeps,
    name: Seq<char>,
    action: Seq<char>,
    payload_json: Seq<char>,
)
    requires
        bindings.contains_key(name),
    ensures
        ({
            let step = backendset::call_step(
                backendset::fresh_set(bindings, deps),
                name,
                action,
                payload_json,
            );
            match bindings[name] {
                ResourceBinding::Db(config) => step == CallStepView::Connect(
                    ConnectRequest::Db { config: *config, deps },
                ),
                ResourceBinding::Mail(config) => step == CallStepView::Connect(
                    ConnectRequest::Mail(*config),
                ),
                ResourceBinding::Redis(config) => step == CallStepView::Connect(
                    ConnectRequest::Redis(*config),
                ),
                ResourceBinding::Amq(config) => step == CallStepView::Invoke(
                    InvocationView::Amq { config: *config, action, payload_json },
                ),
                ResourceBinding::Auth(config) => step == CallStepView::Connect(
                    ConnectRequest::Auth(*config),
                ),
            }
        }),
{
}

/// A call to a name that is not wired fails: the error has the code `IO_UNKNOWN`, gives the name,
/// is the developer's to act on and is not to be retried.
pub proof fn law_unwired_name_is_refused(
    set: Map<Seq<char>, SlotView>,
    name: Seq<char>,
    action: Seq<char>,
    payload_json: Seq<char>,
)
    requires
        !set.contains_key(name),
    ensures
        backendset::call_step(set, name, action, payload_json) matches CallStepView::Rejected(
            error,
        ) && {
            &&& error.code == "IO_UNKNOWN"@
            &&& error.message == "unknown egress '"@ + name + "'"@
            &&& error.source == "db"@
            &&& error.details is None
            &&& !error.retryable
            &&& error.owner == ErrorOwner::Developer
        },
{
}

/// What connecting a backend comes to is kept as it was reported, in that slot, and changes nothing
/// else of the slot. A slot that has an outcome keeps it, a producer has none, and a name that is
/// not wired gets no slot.
pub proof fn law_outcome_is_kept(
    set: Map<Seq<char>, SlotView>,
    name: Seq<char>,
    outcome: Result<u64, EgressErrorView>,
    other: Seq<char>,
)
    ensures
        ({
            let after = backendset::settled_set(set, name, outcome);
            &&& after.dom() == set.dom()
            &&& other != name && set.contains_key(other) ==> after[other] == set[other]
            &&& set.contains_key(name) ==> {
                &&& after[name].binding == set[name].binding
                &&& after[name].deps == set[name].deps
                &&& set[name].binding is Amq ==> after[name].backend == set[name].backend
                &&& set[name].backend is Some ==> after[name].backend == set[name].backend
                &&& set[name].backend is None && !(set[name].binding is Amq)
                    ==> after[name].backend == Some(outcome)
            }
        }),
{
    assert(backendset::settled_set(set, name, outcome).dom() =~= set.dom());
}

/// A call to a connected backend goes to that backend, with the action and the payload of the
/// call: at once to `mail` and `redis`, after its payload is decoded to `db` and `auth`. Where
/// connecting failed, the call fails with that same error.
pub proof fn law_connected_backend_is_handed_the_call(
    set: Map<Seq<char>, SlotView>,
    name: Seq<char>,
    action: Seq<char>,
    payload_json: Seq<char>,
)
    requires
        set.contains_key(name),
        set[name].backend is Some,
        !(set[name].binding is Amq),
    ensures
        ({
            let step = backendset::call_step(set, name, action, payload_json);
            match set[name].backend->0 {
                Err(error) => step == CallStepView::Rejected(error),
                Ok(backend) => match set[name].binding {
                    ResourceBinding::Db(_) => step == CallStepView::DecodeDb {
                        backend,
                        action,
                        payload_json,
                    },
                    ResourceBinding::Mail(_) => step == CallStepView::Invoke(
                        InvocationView::Mail { backend, action, payload_json },
                    ),
                    ResourceBinding::Redis(_) => step == CallStepView::Invoke(
                        InvocationView::Redis { backend, action, payload_json },
                    ),
                    ResourceBinding::Amq(_) => false,
                    ResourceBinding::Auth(_) => step == CallStepView::DecodeAuth {
                        backend,
                        action,
                        payload_json,
                    },
                },
            }
        }),
{
}

/// A producer is handed every call, whatever outcome was ever reported under its name.
pub proof fn law_producer_is_always_handed_the_call(
    set: Map<Seq<char>, SlotView>,
    name: Seq<char>,
    config: AmqConfig,
    outcome: Result<u64, EgressErrorView>,
    action: Seq<char>,
    payload_json: Seq<char>,
)
    requires
        set.contains_key(name),
        set[name].binding == ResourceBinding::Amq(Box::new(config)),
    ensures
        backendset::call_step(set, name, action, payload_json) == CallStepView::Invoke(
            InvocationView::Amq { config, action, payload_json },
        ),
        backendset::call_step(
            backendset::settled_set(set, name, outcome),
            name,
            action,
            payload_json,
        ) == CallStepView::Invoke(InvocationView::Amq { config, action, payload_json }),
{
}

/// Whatever is handed to a driver or to be decoded carries the call's own action and payload.
pub proof fn law_action_and_payload_are_handed_on(
    set: Map<Seq<char>, SlotView>,
    name: Seq<char>,
    action: Seq<char>,
    payload_json: Seq<char>,
)
    ensures
        match backendset::call_step(set, name, action, payload_json) {
            CallStepView::DecodeDb { backend: _, action: a, payload_json: p } => a == action && p
                == payload_json,
            CallStepView::DecodeAuth { backend: _, action: a, payload_json: p } => a == action && p
                == payload_json,
            CallStepView::Invoke(InvocationView::Mail { backend: _, action: a, payload_json: p })
                => a == action && p == payload_json,
            CallStepView::Invoke(InvocationView::Redis { backend: _, action: a, payload_json: p })
                => a == action && p == payload_json,
            CallStepView::Invoke(InvocationView::Amq { config: _, action: a, payload_json: p })
                => a == action && p == payload_json,
            CallStepView::Invoke(_) => false,
            CallStepView::Connect(_) => true,
            CallStepView::Rejected(_) => true,
        },
{
}

/// A decoded `db` call is made on its own backend, with its own action, the payload's SQL and the
/// text of the payload's parameters: all of it where they are an array, an empty array where they
/// are null. With other parameters, or where decoding failed, no call is made.
pub proof fn law_db_call_carries_its_payload(
    backend: u64,
    action: Seq<char>,
    decoded: Result<DbPayload, String>,
)
    ensures
        ({
            let step = backendset::decoded_db_step(backend, action, decoded);
            match decoded {
                Ok(payload) => match payload::value_text(payload.params) {
                    Some(text) => {
                        &&& text.len() > 0 && text[0] == '[' ==> step == CallStepView::Invoke(
                            InvocationView::Db {
                                backend,
                                action,
                                sql: payload.sql@,
                                params_json: text,
                            },
                        )
                        &&& text == "null"@ ==> step == CallStepView::Invoke(
                            InvocationView::Db {
                                backend,
                                action,
                                sql: payload.sql@,
                                params_json: "[]"@,
                            },
                        )
                        &&& text != "null"@ && (text.len() == 0 || text[0] != '[')
                            ==> step is Rejected
                    },
                    None => step is Rejected,
                },
                Err(_) => step is Rejected,
            }
        }),
        backendset::decoded_db_step(backend, action, decoded) matches CallStepView::Rejected(
            error,
        ) ==> {
            &&& error.code == "DB_BAD_PAYLOAD"@
            &&& error.source == "db"@
            &&& error.details is None
            &&& !error.retryable
            &&& error.owner == ErrorOwner::Developer
            &&& error.message == "invalid db payload: "@ + (match decoded {
                Ok(_) => "params is not an array"@,
                Err(cause) => cause@,
            })
        },
{
    reveal_strlit("null");
}

/// A decoded `auth` call is made on its own backend, with its own action and the payload's token.
/// Where decoding failed, no call is made.
pub proof fn law_auth_call_carries_its_payload(
    backend: u64,
    action: Seq<char>,
    decoded: Result<AuthPayload, String>,
)
    ensures
        match decoded {
            Ok(payload) => backendset::decoded_auth_step(backend, action, decoded)
                == CallStepView::Invoke(
                InvocationView::Auth { backend, action, token: payload.token@ },
            ),
            Err(cause) => backendset::decoded_auth_step(backend, action, decoded) matches
                CallStepView::Rejected(error) && {
                &&& error.code == "AUTH_REQUEST"@
                &&& error.message == "invalid auth payload: "@ + cause@
                &&& error.source == "auth"@
                &&& error.details is None
                &&& !error.retryable
                &&& error.owner == ErrorOwner::Developer
            },
        },
{
}

/// Calls that differ in their action, their backend or their payload are made differently.
pub proof fn law_decoded_calls_are_told_apart(
    backend1: u64,
    backend2: u64,
    action1: Seq<char>,
    action2: Seq<char>,
    auth1: AuthPayload,
    auth2: AuthPayload,
    db1: DbPayload,
    db2: DbPayload,
)
    ensures
        backendset::decoded_auth_step(backend1, action1, Ok(auth1))
            == backendset::decoded_auth_step(backend2, action2, Ok(auth2)) ==> backend1 == backend2
            && action1 == action2 && auth1.token@ == auth2.token@,
        backendset::decoded_db_step(backend1, action1, Ok(db1)) is Invoke
            && backendset::decoded_db_step(backend1, action1, Ok(db1))
            == backendset::decoded_db_step(backend2, action2, Ok(db2)) ==> backend1 == backend2
            && action1 == action2 && db1.sql@ == db2.sql@,
{
}

/// The parameters' text is handed on exactly where it is that of an array; null stands for an empty
/// array, and no other text is taken.
pub proof fn law_only_arrays_are_parameters(text: Seq<char>)
    ensures
        text.len() > 0 && text[0] == '[' ==> payload::params_text(Some(text)) == Some(text),
        text == "null"@ ==> payload::params_text(Some(text)) == Some("[]"@),
        text != "null"@ && (text.len() == 0 || text[0] != '[') ==> payload::params_text(
            Some(text),
        ) is None,
        payload::params_text(None) is None,
{
    reveal_strlit("null");
}

/// A slot hands out the backend that it is connected to, fails as its connecting failed, or asks to
/// be connected as it was declared.
pub proof fn law_slot_hands_out_its_backend(slot: SlotView)
    requires
        !(slot.binding is Amq),
    ensures
        match slot.backend {
            Some(Ok(backend)) => slots::ready(slot) == Ok::<u64, CallStepView>(backend),
            Some(Err(error)) => slots::ready(slot) == Err::<u64, CallStepView>(
                CallStepView::Rejected(error),
            ),
            None => slots::ready(slot) matches Err(CallStepView::Connect(request)) && match (
                slot.binding,
                request,
            ) {
                (ResourceBinding::Db(declared), ConnectRequest::Db { config, deps }) => config
                    == *declared && (slot.deps is Some ==> slot.deps == Some(deps)),
                (ResourceBinding::Mail(declared), ConnectRequest::Mail(config)) => config
                    == *declared,
                (ResourceBinding::Redis(declared), ConnectRequest::Redis(config)) => config
                    == *declared,
                (ResourceBinding::Auth(declared), ConnectRequest::Auth(config)) => config
                    == *declared,
                _ => false,
            },
        },
{
}

/// An outcome is seen as it was reported: the number of the backend, or what the error says.
pub proof fn law_outcomes_stand_for_themselves(backend: u64, error: EgressError, step: CallStep)
    ensures
        slots::outcome_of(Some(Ok(backend))) == Some(Ok::<u64, EgressErrorView>(backend)),
        slots::outcome_of(Some(Err(error))) == Some(Err::<u64, EgressErrorView>(error@)),
        slots::outcome_of(None) is None,
        slots::ready_of(Ok(backend)) == Ok::<u64, CallStepView>(backend),
        slots::ready_of(Err(step)) == Err::<u64, CallStepView>(step@),
        error@.code == error.code@,
        error@.message == error.message@,
        error@.source == error.source@,
        error@.details is Some == error.details is Some,
        error.details matches Some(details) ==> error@.details == Some(details@),
        error@.retryable == error.retryable,
        error@.owner == error.owner,
{
}

/// A step is seen as it is: with the request, backend, action and payload that it holds.
pub proof fn law_steps_stand_for_themselves(
    request: ConnectRequest,
    invocation: Invocation,
    error: EgressError,
    backend: u64,
    action: String,
    payload_json: String,
    config: AmqConfig,
    args: DbArgs,
    token: String,
)
    ensures
        CallStep::Connect(request)@ == CallStepView::Connect(request),
        CallStep::Invoke(invocation)@ == CallStepView::Invoke(invocation@),
        CallStep::Rejected(error)@ == CallStepView::Rejected(error@),
        (CallStep::DecodeDb { backend, action, payload_json })@ == (CallStepView::DecodeDb {
            backend,
            action: action@,
            payload_json: payload_json@,
        }),
        (CallStep::DecodeAuth { backend, action, payload_json })@ == (CallStepView::DecodeAuth {
            backend,
            action: action@,
            payload_json: payload_json@,
        }),
        (Invocation::Db { backend, action, args })@ == (InvocationView::Db {
            backend,
            action: action@,
            sql: args.sql@,
            params_json: args.params_json@,
        }),
        (Invocation::Mail { backend, action, payload_json })@ == (InvocationView::Mail {
            backend,
            action: action@,
            payload_json: payload_json@,
        }),
        (Invocation::Redis { backend, action, payload_json })@ == (InvocationView::Redis {
            backend,
            action: action@,
            payload_json: payload_json@,
        }),
        (Invocation::Amq { config, action, payload_json })@ == (InvocationView::Amq {
            config,
            action: action@,
            payload_json: payload_json@,
        }),
        (Invocation::Auth { backend, action, token })@ == (InvocationView::Auth {
            backend,
            action: action@,
            token: token@,
        }),
{
}

} // verus!
