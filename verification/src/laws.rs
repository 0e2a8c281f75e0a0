//! What holds of sessions as a whole: tenants are kept apart, a session reaches exactly the names
//! that it listed, a backend is connected once, and nothing that is recorded gets lost.
use crate::backendset::{self, Recorded};
use crate::names;
use crate::payload::{self, AuthPayload, DbPayload};
use crate::resources::{self, ResolveError, ResourceBinding, TenantResourceBinding};
use crate::slots::{self, AsyncDeps, SlotView};
use crate::steps::{CallStepView, ConnectRequest, InvocationView};
use crate::wire::{self, BackendMetrics, DbMetric, EgressErrorView};
use vstd::prelude::*;

pub mod calls;
pub mod reports;
pub mod tables;

verus! {

/// A session's resolution depends only on what its own tenant may see: tables that differ in other
/// tenants' entries alone give the same answer, errors included.
pub proof fn law_other_tenants_do_not_show(
    table1: Map<Seq<char>, TenantResourceBinding>,
    table2: Map<Seq<char>, TenantResourceBinding>,
    tenant: Option<Seq<char>>,
    asked: Seq<Seq<char>>,
)
    requires
        forall|n: Seq<char>| #[trigger]
            resources::visible(table1, tenant, n) == resources::visible(table2, tenant, n),
    ensures
        resources::resolution(table1, tenant, asked) == resources::resolution(
            table2,
            tenant,
            asked,
        ),
{
    if forall|i: int|
        #![trigger asked[i]]
        0 <= i < asked.len() ==> resources::visible(table1, tenant, asked[i]) is Some {
        assert forall|i: int| #![trigger asked[i]] 0 <= i < asked.len() implies resources::visible(
            table2,
            tenant,
            asked[i],
        ) is Some by {
            assert(resources::visible(table1, tenant, asked[i]) is Some);
        }
        assert(resources::resolution(table1, tenant, asked)->Ok_0 =~= resources::resolution(
            table2,
            tenant,
            asked,
        )->Ok_0);
    } else {
        let i = lemma_some_name_is_first_refused(table1, tenant, asked);
        resources::lemma_first_refused_is_unique(table1, tenant, asked, i);
        assert forall|j: int| #![trigger asked[j]] 0 <= j < i implies resources::visible(
            table2,
            tenant,
            asked[j],
        ) is Some by {
            assert(resources::visible(table1, tenant, asked[j]) is Some);
        }
        assert(resources::visible(table1, tenant, asked[i]) is None);
        assert(resources::first_refused(table2, tenant, asked, i));
        resources::lemma_first_refused_is_unique(table2, tenant, asked, i);
    }
}

/// Where not all names resolve, one of them is the first that does not.
proof fn lemma_some_name_is_first_refused(
    table: Map<Seq<char>, TenantResourceBinding>,
    tenant: Option<Seq<char>>,
    asked: Seq<Seq<char>>,
) -> (i: int)
    requires
        exists|i: int|
            #![trigger asked[i]]
            0 <= i < asked.len() && resources::visible(table, tenant, asked[i]) is None,
    ensures
        resources::first_refused(table, tenant, asked, i),
    decreases asked.len(),
{
    let last = asked.len() - 1;
    let fewer = asked.drop_last();
    if exists|i: int|
        #![trigger fewer[i]]
        0 <= i < fewer.len() && resources::visible(table, tenant, fewer[i]) is None {
        let i = lemma_some_name_is_first_refused(table, tenant, fewer);
        assert forall|j: int| #![trigger asked[j]] 0 <= j < i implies resources::visible(
            table,
            tenant,
            asked[j],
        ) is Some by {
            assert(fewer[j] == asked[j]);
        }
        assert(fewer[i] == asked[i]);
        i
    } else {
        assert forall|j: int| #![trigger asked[j]] 0 <= j < last implies resources::visible(
            table,
            tenant,
            asked[j],
        ) is Some by {
            assert(fewer[j] == asked[j]);
        }
        let i = choose|i: int|
            #![trigger asked[i]]
            0 <= i < asked.len() && resources::visible(table, tenant, asked[i]) is None;
        assert(i == last);
        last
    }
}

/// A name that is bound for another tenant (or for none) is answered as if the table did not
/// declare it.
pub proof fn law_foreign_name_looks_absent(
    table: Map<Seq<char>, TenantResourceBinding>,
    tenant: Option<Seq<char>>,
    asked: Seq<Seq<char>>,
    name: Seq<char>,
)
    requires
        table.contains_key(name),
        wire::text_of(table[name].tenant) != tenant,
    ensures
        resources::resolution(table, tenant, asked) == resources::resolution(
            table.remove(name),
            tenant,
            asked,
        ),
        asked.contains(name) ==> resources::resolution(table, tenant, asked) is Err,
{
    law_other_tenants_do_not_show(table, table.remove(name), tenant, asked);
    if asked.contains(name) {
        assert(resources::visible(table, tenant, asked[asked.index_of(name)]) is None);
    }
}

/// A refusal tells the name that was asked for and nothing else: refusals of the same name have the
/// same code and the same message.
pub proof fn law_refusal_tells_only_the_name(error1: ResolveError, error2: ResolveError)
    requires
        error1 is NotFound,
        error2 is NotFound,
        error1->NotFound_0@ == error2->NotFound_0@,
    ensures
        error1.code_text() == error2.code_text(),
        error1.message_text() == error2.message_text(),
{
}

/// A resolved session has a binding for each name that it listed and for no other, and each of
/// them is declared for the session's own tenant.
pub proof fn law_session_gets_its_own_names(
    table: Map<Seq<char>, TenantResourceBinding>,
    tenant: Option<Seq<char>>,
    asked: Seq<Seq<char>>,
)
    requires
        resources::resolution(table, tenant, asked) is Ok,
    ensures
        resources::resolution(table, tenant, asked)->Ok_0.dom() == asked.to_set(),
        forall|n: Seq<char>| #[trigger]
            asked.contains(n) ==> table.contains_key(n) && wire::text_of(table[n].tenant) == tenant
                && resources::resolution(table, tenant, asked)->Ok_0[n] == table[n].binding,
{
    let given = resources::resolution(table, tenant, asked)->Ok_0;
    assert(given.dom() =~= asked.to_set());
    assert forall|n: Seq<char>| #[trigger] asked.contains(n) implies table.contains_key(n)
        && wire::text_of(table[n].tenant) == tenant && given[n] == table[n].binding by {
        assert(resources::visible(table, tenant, asked[asked.index_of(n)]) is Some);
    }
}

/// A session that asks for no names is resolved, to nothing.
pub proof fn law_asking_for_nothing_resolves(
    table: Map<Seq<char>, TenantResourceBinding>,
    tenant: Option<Seq<char>>,
)
    ensures
        resources::resolution(table, tenant, Seq::empty()) == Ok::<
            Map<Seq<char>, ResourceBinding>,
            Seq<char>,
        >(Map::empty()),
{
    assert(resources::resolution(table, tenant, Seq::empty())->Ok_0 =~= Map::<
        Seq<char>,
        ResourceBinding,
    >::empty());
}

/// Neither the order in which a session lists its names nor a repetition changes what it is given.
pub proof fn law_listing_order_does_not_matter(
    table: Map<Seq<char>, TenantResourceBinding>,
    tenant: Option<Seq<char>>,
    asked1: Seq<Seq<char>>,
    asked2: Seq<Seq<char>>,
)
    requires
        asked1.to_set() == asked2.to_set(),
        resources::resolution(table, tenant, asked1) is Ok,
    ensures
        resources::resolution(table, tenant, asked2) == resources::resolution(
            table,
            tenant,
            asked1,
        ),
{
    assert forall|i: int| #![trigger asked2[i]] 0 <= i < asked2.len() implies resources::visible(
        table,
        tenant,
        asked2[i],
    ) is Some by {
        assert(asked2.to_set().contains(asked2[i]));
        assert(asked1.contains(asked2[i]));
        assert(resources::visible(table, tenant, asked1[asked1.index_of(asked2[i])]) is Some);
    }
    assert forall|n: Seq<char>| asked1.contains(n) == asked2.contains(n) by {
        assert(asked1.to_set().contains(n) == asked1.contains(n));
        assert(asked2.to_set().contains(n) == asked2.contains(n));
    }
    assert(resources::resolution(table, tenant, asked1)->Ok_0 =~= resources::resolution(
        table,
        tenant,
        asked2,
    )->Ok_0);
}

/// Under a ceiling a statement is always limited, by no more than the ceiling; a request for a
/// limit is never loosened.
pub proof fn law_clamped_timeout_is_within_the_ceiling(requested_ms: u64, ceiling_ms: u64)
    requires
        ceiling_ms != 0,
    ensures
        0 < resources::clamped_timeout(requested_ms, ceiling_ms) <= ceiling_ms,
        requested_ms != 0 ==> resources::clamped_timeout(requested_ms, ceiling_ms) <= requested_ms,
        0 < requested_ms <= ceiling_ms ==> resources::clamped_timeout(requested_ms, ceiling_ms)
            == requested_ms,
{
}

/// Clamping leaves the names and every binding but the `db` ones as they are, and of those all but
/// the time limit.
pub proof fn law_clamping_changes_only_db_timeouts(
    bindings: Map<Seq<char>, ResourceBinding>,
    ceiling_ms: u64,
    name: Seq<char>,
)
    ensures
        resources::clamped(bindings, ceiling_ms).dom() == bindings.dom(),
        bindings.contains_key(name) ==> match bindings[name] {
            ResourceBinding::Db(db) => resources::clamped(bindings, ceiling_ms)[name] matches
                ResourceBinding::Db(kept) && kept.settings == db.settings,
            other => resources::clamped(bindings, ceiling_ms)[name] == other,
        },
        ceiling_ms == 0 ==> resources::clamped(bindings, ceiling_ms) == bindings,
{
    assert(resources::clamped(bindings, ceiling_ms).dom() =~= bindings.dom());
    if ceiling_ms == 0 {
        assert(resources::clamped(bindings, ceiling_ms) =~= bindings);
    }
}

/// Two ceilings are as one: the lower of them. The same ceiling twice is the same as once.
pub proof fn law_lower_ceiling_wins(
    bindings: Map<Seq<char>, ResourceBinding>,
    first_ms: u64,
    second_ms: u64,
)
    requires
        first_ms != 0,
        second_ms != 0,
    ensures
        resources::clamped(resources::clamped(bindings, first_ms), second_ms)
            == resources::clamped(
            bindings,
            if first_ms < second_ms {
                first_ms
            } else {
                second_ms
            },
        ),
{
    let both = resources::clamped(resources::clamped(bindings, first_ms), second_ms);
    let one = resources::clamped(
        bindings,
        if first_ms < second_ms {
            first_ms
        } else {
            second_ms
        },
    );
    assert(both =~= one);
}

/// A resolved session reaches the names that it listed and no other: a call to any other name is
/// refused with `IO_UNKNOWN`, whatever the action and the payload; the first call to a listed name
/// asks to connect the backend with the operator's config (under the ceiling) and the session's
/// runtime, breaker and deadline, or goes straight to the broker.
pub proof fn law_session_reaches_exactly_its_names(
    table: Map<Seq<char>, TenantResourceBinding>,
    tenant: Option<Seq<char>>,
    asked: Seq<Seq<char>>,
    ceiling_ms: u64,
    deps: AsyncDeps,
    name: Seq<char>,
    action: Seq<char>,
    payload_json: Seq<char>,
)
    requires
        resources::resolution(table, tenant, asked) is Ok,
    ensures
        ({
            let given = resources::clamped(
                resources::resolution(table, tenant, asked)->Ok_0,
                ceiling_ms,
            );
            let step = backendset::call_step(
                backendset::fresh_set(given, deps),
                name,
                action,
                payload_json,
            );
            if !asked.contains(name) {
                step == CallStepView::Rejected(backendset::unknown_error(name))
            } else {
                match resources::clamped_binding(table[name].binding, ceiling_ms) {
                    ResourceBinding::Db(config) => step == CallStepView::Connect(
                        ConnectRequest::Db { config: *config, deps },
                    ),
                    ResourceBinding::Mail(config) => step == CallStepView::Connect(
                        ConnectRequest::Mail(*config),
                    ),
                    ResourceBinding::Redis(config) => step == CallStepView::Connect(
                        ConnectRequest::Redis(*config),
                    ),
                    ResourceBinding::Amq(config) => step == CallStepView::Invoke(
                        InvocationView::Amq { config: *config, action, payload_json },
                    ),
                    ResourceBinding::Auth(config) => step == CallStepView::Connect(
                        ConnectRequest::Auth(*config),
                    ),
                }
            }
        }),
{
    law_session_gets_its_own_names(table, tenant, asked);
    let found = resources::resolution(table, tenant, asked)->Ok_0;
    assert(found.contains_key(name) == asked.to_set().contains(name));
}

/// What connecting a backend came to first stays for the session.
pub proof fn law_first_outcome_stays(
    set: Map<Seq<char>, SlotView>,
    name: Seq<char>,
    first: Result<u64, EgressErrorView>,
    second: Result<u64, EgressErrorView>,
)
    ensures
        backendset::settled_set(backendset::settled_set(set, name, first), name, second)
            == backendset::settled_set(set, name, first),
{
    let once = backendset::settled_set(set, name, first);
    assert(backendset::settled_set(once, name, second) =~= once);
}

/// A backend is connected once: after an outcome is reported, no call to the name asks for it
/// again. If connecting failed, every later call fails with that same error, before its payload is
/// looked at; if it went well, every later call goes to that same backend.
pub proof fn law_backend_is_connected_once(
    set: Map<Seq<char>, SlotView>,
    name: Seq<char>,
    outcome: Result<u64, EgressErrorView>,
    action: Seq<char>,
    payload_json: Seq<char>,
)
    requires
        set.contains_key(name),
        !(set[name].binding is Amq),
        set[name].backend is None,
    ensures
        ({
            let step = backendset::call_step(
                backendset::settled_set(set, name, outcome),
                name,
                action,
                payload_json,
            );
            match outcome {
                Err(error) => step == CallStepView::Rejected(error),
                Ok(number) => match step {
                    CallStepView::DecodeDb { backend, action: a, payload_json: p } => backend
                        == number && a == action && p == payload_json && set[name].binding is Db,
                    CallStepView::DecodeAuth { backend, action: a, payload_json: p } => backend
                        == number && a == action && p == payload_json && set[name].binding is Auth,
                    CallStepView::Invoke(
                        InvocationView::Mail { backend, action: a, payload_json: p },
                    ) => backend == number && a == action && p == payload_json
                        && set[name].binding is Mail,
                    CallStepView::Invoke(
                        InvocationView::Redis { backend, action: a, payload_json: p },
                    ) => backend == number && a == action && p == payload_json
                        && set[name].binding is Redis,
                    _ => false,
                },
            }
        }),
{
}

/// Once connecting the backend of a name has come to something, no call to it asks to connect.
pub proof fn law_known_outcome_is_not_sought_again(
    set: Map<Seq<char>, SlotView>,
    name: Seq<char>,
    outcome: Result<u64, EgressErrorView>,
    action: Seq<char>,
    payload_json: Seq<char>,
)
    ensures
        !(backendset::call_step(
            backendset::settled_set(set, name, outcome),
            name,
            action,
            payload_json,
        ) is Connect),
{
}

/// What connecting one backend came to does not touch the calls to other names, nor which names
/// are wired.
pub proof fn law_names_do_not_touch_each_other(
    set: Map<Seq<char>, SlotView>,
    name: Seq<char>,
    outcome: Result<u64, EgressErrorView>,
    other: Seq<char>,
    action: Seq<char>,
    payload_json: Seq<char>,
)
    requires
        other != name,
    ensures
        backendset::settled_set(set, name, outcome).dom() == set.dom(),
        backendset::call_step(
            backendset::settled_set(set, name, outcome),
            other,
            action,
            payload_json,
        ) == backendset::call_step(set, other, action, payload_json),
{
    assert(backendset::settled_set(set, name, outcome).dom() =~= set.dom());
}

/// After its payload is decoded a call has one step left: the driver call, or the failure.
pub proof fn law_decoding_is_the_last_stop(
    backend: u64,
    action: Seq<char>,
    db: Result<DbPayload, String>,
    auth: Result<AuthPayload, String>,
)
    ensures
        if db matches Ok(payload) && payload::params_text(
            payload::value_text(payload.params),
        ) is Some {
            backendset::decoded_db_step(backend, action, db) is Invoke
        } else {
            backendset::decoded_db_step(backend, action, db) is Rejected
        },
        if auth is Ok {
            backendset::decoded_auth_step(backend, action, auth) is Invoke
        } else {
            backendset::decoded_auth_step(backend, action, auth) is Rejected
        },
{
}

/// The parameters that a `db` backend is handed are the text of an array: that of the payload's own
/// parameters where they are one, and an empty one where they are null.
pub proof fn law_params_are_an_array(text: Option<Seq<char>>)
    ensures
        payload::params_text(text) matches Some(params) ==> payload::is_array_text(params)
            && params != "null"@,
        text matches Some(t) && payload::is_array_text(t) ==> payload::params_text(text) == text,
        text == Some("null"@) ==> payload::params_text(text) == Some("[]"@),
{
    reveal_strlit("null");
    reveal_strlit("[]");
}

/// The errors that the library itself answers a call with carry a capability's tag.
pub proof fn law_errors_name_a_known_source(name: Seq<char>, cause: Seq<char>)
    ensures
        wire::known_source(backendset::unknown_error(name).source),
        wire::known_source(payload::bad_db_payload(cause).source),
        wire::known_source(payload::bad_auth_payload(cause).source),
{
}

/// A call that fails before its driver is called fails with an error that carries a capability's
/// tag, if the errors that connecting came to do.
pub proof fn law_rejections_name_a_known_source(
    set: Map<Seq<char>, SlotView>,
    name: Seq<char>,
    action: Seq<char>,
    payload_json: Seq<char>,
)
    requires
        set.contains_key(name) ==> (set[name].backend matches Some(Err(error))
            ==> wire::known_source(error.source)),
    ensures
        backendset::call_step(set, name, action, payload_json) matches CallStepView::Rejected(
            error,
        ) ==> wire::known_source(error.source),
{
}

/// The report holds what each backend recorded, whole and in its order: after what stands before
/// its name and before what stands after it.
pub proof fn law_each_backend_is_reported_in_place<M>(
    order: Seq<Seq<char>>,
    i: int,
    set: Map<Seq<char>, SlotView>,
    recorded: Map<Seq<char>, Recorded>,
    share: spec_fn(SlotView, Option<Recorded>) -> Seq<M>,
)
    requires
        0 <= i < order.len(),
    ensures
        backendset::gathered(order, set, recorded, share) == backendset::gathered(
            order.take(i),
            set,
            recorded,
            share,
        ) + share(set[order[i]], backendset::recorded_by(recorded, order[i]))
            + backendset::gathered(order.skip(i + 1), set, recorded, share),
    decreases order.len(),
{
    let last = order.len() - 1;
    backendset::lemma_gathered_step(order, last, set, recorded, share);
    assert(order.take(order.len() as int) =~= order);
    if i == last {
        assert(order.skip(i + 1) =~= Seq::empty());
        backendset::lemma_gathered_nothing(order.skip(i + 1), set, recorded, share);
        assert(backendset::gathered(order, set, recorded, share) =~= backendset::gathered(
            order.take(i),
            set,
            recorded,
            share,
        ) + share(set[order[i]], backendset::recorded_by(recorded, order[i]))
            + backendset::gathered(order.skip(i + 1), set, recorded, share));
    } else {
        let front = order.take(last);
        let rest = order.skip(i + 1);
        law_each_backend_is_reported_in_place(front, i, set, recorded, share);
        assert(front.take(i) =~= order.take(i));
        assert(front.skip(i + 1) =~= rest.take(rest.len() - 1));
        assert(rest.take(rest.len() as int) =~= rest);
        backendset::lemma_gathered_step(rest, rest.len() - 1, set, recorded, share);
        assert(backendset::gathered(order, set, recorded, share) =~= backendset::gathered(
            order.take(i),
            set,
            recorded,
            share,
        ) + share(set[order[i]], backendset::recorded_by(recorded, order[i]))
            + backendset::gathered(rest, set, recorded, share));
    }
}

/// A name that is not drained adds nothing to the report: what is known of names that are not wired
/// or were never connected makes no difference.
pub proof fn law_only_drained_backends_are_reported(
    set: Map<Seq<char>, SlotView>,
    recorded1: Map<Seq<char>, Recorded>,
    recorded2: Map<Seq<char>, Recorded>,
    metrics1: BackendMetrics,
    metrics2: BackendMetrics,
    order: Seq<Seq<char>>,
)
    requires
        forall|i: int|
            #![trigger order[i]]
            0 <= i < order.len() && (set[order[i]].binding is Amq || (
            set[order[i]].backend matches Some(Ok(_)))) ==> recorded1.contains_key(order[i])
                == recorded2.contains_key(order[i]) && (recorded1.contains_key(order[i])
                ==> recorded1[order[i]] == recorded2[order[i]]),
        backendset::reports(metrics1, set, recorded1, order),
        backendset::reports(metrics2, set, recorded2, order),
    ensures
        metrics1.db@ == metrics2.db@,
        metrics1.mail@ == metrics2.mail@,
        metrics1.redis@ == metrics2.redis@,
        metrics1.amq@ == metrics2.amq@,
        metrics1.auth@ == metrics2.auth@,
{
    lemma_same_shares(order, set, recorded1, recorded2, backendset::db_share());
    lemma_same_shares(order, set, recorded1, recorded2, backendset::mail_share());
    lemma_same_shares(order, set, recorded1, recorded2, backendset::redis_share());
    lemma_same_shares(order, set, recorded1, recorded2, backendset::amq_share());
    lemma_same_shares(order, set, recorded1, recorded2, backendset::auth_share());
}

/// Where each slot contributes the same, the same is gathered.
proof fn lemma_same_shares<M>(
    order: Seq<Seq<char>>,
    set: Map<Seq<char>, SlotView>,
    recorded1: Map<Seq<char>, Recorded>,
    recorded2: Map<Seq<char>, Recorded>,
    share: spec_fn(SlotView, Option<Recorded>) -> Seq<M>,
)
    requires
        forall|i: int|
            #![trigger order[i]]
            0 <= i < order.len() ==> share(
                set[order[i]],
                backendset::recorded_by(recorded1, order[i]),
            ) == share(set[order[i]], backendset::recorded_by(recorded2, order[i])),
    ensures
        backendset::gathered(order, set, recorded1, share) == backendset::gathered(
            order,
            set,
            recorded2,
            share,
        ),
{
    assert(order.map_values(
        |n: Seq<char>| share(set[n], backendset::recorded_by(recorded1, n)),
    ) =~= order.map_values(|n: Seq<char>| share(set[n], backendset::recorded_by(recorded2, n))));
}

/// Where one backend alone recorded operations of a kind, the report of that kind is what it
/// recorded.
pub proof fn law_sole_backend_is_the_report<M>(
    order: Seq<Seq<char>>,
    i: int,
    set: Map<Seq<char>, SlotView>,
    recorded: Map<Seq<char>, Recorded>,
    share: spec_fn(SlotView, Option<Recorded>) -> Seq<M>,
)
    requires
        0 <= i < order.len(),
        forall|j: int|
            #![trigger order[j]]
            0 <= j < order.len() && j != i ==> share(
                set[order[j]],
                backendset::recorded_by(recorded, order[j]),
            ).len() == 0,
    ensures
        backendset::gathered(order, set, recorded, share) == share(
            set[order[i]],
            backendset::recorded_by(recorded, order[i]),
        ),
{
    let front = order.take(i);
    let rest = order.skip(i + 1);
    assert forall|j: int| #![trigger front[j]] 0 <= j < front.len() implies share(
        set[front[j]],
        backendset::recorded_by(recorded, front[j]),
    ).len() == 0 by {
        assert(front[j] == order[j]);
    }
    assert forall|j: int| #![trigger rest[j]] 0 <= j < rest.len() implies share(
        set[rest[j]],
        backendset::recorded_by(recorded, rest[j]),
    ).len() == 0 by {
        assert(rest[j] == order[j + i + 1]);
    }
    law_each_backend_is_reported_in_place(order, i, set, recorded, share);
    backendset::lemma_gathered_nothing(front, set, recorded, share);
    backendset::lemma_gathered_nothing(rest, set, recorded, share);
    assert(backendset::gathered(order, set, recorded, share) =~= share(
        set[order[i]],
        backendset::recorded_by(recorded, order[i]),
    ));
}

/// A session that has used one `db` backend alone reports what that backend recorded, operation for
/// operation, and nothing under any other capability, where its producers recorded nothing.
pub proof fn law_sole_db_backend_is_the_report(
    bindings: Map<Seq<char>, ResourceBinding>,
    deps: AsyncDeps,
    name: Seq<char>,
    backend: u64,
    operations: Vec<DbMetric>,
    recorded: Map<Seq<char>, Recorded>,
    metrics: BackendMetrics,
    order: Seq<Seq<char>>,
)
    requires
        bindings.contains_key(name),
        bindings[name] is Db,
        recorded.contains_key(name),
        recorded[name] == Recorded::Db(operations),
        forall|i: int|
            #![trigger order[i]]
            0 <= i < order.len() && recorded.contains_key(order[i]) ==> (
            recorded[order[i]] matches Recorded::Amq(m) ==> m@.len() == 0),
        names::in_order(order),
        order.to_set() == bindings.dom(),
        backendset::reports(
            metrics,
            backendset::settled_set(backendset::fresh_set(bindings, deps), name, Ok(backend)),
            recorded,
            order,
        ),
    ensures
        metrics.db@ == operations@,
        metrics.mongo@.len() == 0,
        metrics.mail@.len() == 0,
        metrics.redis@.len() == 0,
        metrics.amq@.len() == 0,
        metrics.auth@.len() == 0,
{
    let fresh = backendset::fresh_set(bindings, deps);
    let set = backendset::settled_set(fresh, name, Ok(backend));
    assert(order.to_set().contains(name));
    let at = choose|i: int| 0 <= i < order.len() && order[i] == name;
    assert forall|j: int| #![trigger order[j]] 0 <= j < order.len() && j != at implies order[j]
        != name && set[order[j]].backend is None by {
        assert(order.to_set().contains(order[j]));
        names::lemma_place_is_unique(order, j);
        names::lemma_place_is_unique(order, at);
    }
    law_sole_backend_is_the_report(order, at, set, recorded, backendset::db_share());
    backendset::lemma_gathered_nothing(order, set, recorded, backendset::mail_share());
    backendset::lemma_gathered_nothing(order, set, recorded, backendset::redis_share());
    backendset::lemma_gathered_nothing(order, set, recorded, backendset::amq_share());
    backendset::lemma_gathered_nothing(order, set, recorded, backendset::auth_share());
}

/// A session that has connected nothing reports nothing but what its producers recorded, and
/// nothing at all where they recorded nothing.
pub proof fn law_unused_backends_report_nothing(
    bindings: Map<Seq<char>, ResourceBinding>,
    deps: AsyncDeps,
    recorded: Map<Seq<char>, Recorded>,
    metrics: BackendMetrics,
    order: Seq<Seq<char>>,
)
    requires
        order.to_set() == bindings.dom(),
        backendset::reports(metrics, backendset::fresh_set(bindings, deps), recorded, order),
    ensures
        metrics.db@.len() == 0,
        metrics.mongo@.len() == 0,
        metrics.mail@.len() == 0,
        metrics.redis@.len() == 0,
        metrics.auth@.len() == 0,
        forall|name: Seq<char>|
            #![trigger bindings.contains_key(name)]
            bindings.contains_key(name) ==> backendset::fresh_set(bindings, deps)[name].backend
                is None,
        (forall|i: int|
            #![trigger order[i]]
            0 <= i < order.len() && recorded.contains_key(order[i]) ==> (
            recorded[order[i]] matches Recorded::Amq(m) ==> m@.len() == 0)) ==> metrics.amq@.len()
            == 0,
{
    let set = backendset::fresh_set(bindings, deps);
    assert forall|i: int| #![trigger order[i]] 0 <= i < order.len() implies set[order[i]].backend
        is None by {
        assert(order.to_set().contains(order[i]));
    }
    backendset::lemma_gathered_nothing(order, set, recorded, backendset::db_share());
    backendset::lemma_gathered_nothing(order, set, recorded, backendset::mail_share());
    backendset::lemma_gathered_nothing(order, set, recorded, backendset::redis_share());
    backendset::lemma_gathered_nothing(order, set, recorded, backendset::auth_share());
    if forall|i: int|
        #![trigger order[i]]
        0 <= i < order.len() && recorded.contains_key(order[i]) ==> (
        recorded[order[i]] matches Recorded::Amq(m) ==> m@.len() == 0) {
        backendset::lemma_gathered_nothing(order, set, recorded, backendset::amq_share());
    }
}

} // verus!
