//! What a run is reported with: which backends are drained, in what order, and where what they
//! recorded goes.
use crate::backendset::{self, Recorded};
use crate::names;
use crate::slots::{self, SlotView};
use crate::wire::{AmqMetric, AuthMetric, BackendMetrics, DbMetric, MailMetric, RedisMetric};
use vstd::prelude::*;

verus! {

/// Names in order ascend: of two of them the earlier agrees with the later up to some place `k`,
/// where it ends or has the lower code point.
pub proof fn law_names_ascend(order: Seq<Seq<char>>, i: int, j: int) -> (k: int)
    requires
        names::in_order(order),
        0 <= i < j < order.len(),
    ensures
        0 <= k <= order[i].len(),
        k < order[j].len(),
        order[i].take(k) == order[j].take(k),
        k == order[i].len() || (order[i][k] as int) < (order[j][k] as int),
{
    assert(names::name_before(order[i], order[j]));
    lemma_first_difference(order[i], order[j])
}

/// A name that stands before another agrees with it up to some place.
proof fn lemma_first_difference(a: Seq<char>, b: Seq<char>) -> (k: int)
    requires
        names::name_before(a, b),
    ensures
        0 <= k <= a.len(),
        k < b.len(),
        a.take(k) == b.take(k),
        k == a.len() || (a[k] as int) < (b[k] as int),
    decreases a.len(),
{
    if a.len() == 0 || a[0] != b[0] {
        assert(a.take(0) =~= b.take(0));
        0
    } else {
        let k = lemma_first_difference(a.drop_first(), b.drop_first());
        assert(a.take(k + 1) =~= seq![a[0]] + a.drop_first().take(k));
        assert(b.take(k + 1) =~= seq![b[0]] + b.drop_first().take(k));
        k + 1
    }
}

/// A name that is another's beginning stands before it, and of two names that differ at some place
/// the one with the lower code point there does, whatever follows.
pub proof fn law_first_difference_decides(
    common: Seq<char>,
    low: char,
    high: char,
    rest1: Seq<char>,
    rest2: Seq<char>,
)
    requires
        (low as int) < (high as int),
    ensures
        names::name_before(common, common.push(low) + rest1),
        names::name_before(common.push(low) + rest1, common.push(high) + rest2),
        !names::name_before(common.push(high) + rest2, common.push(low) + rest1),
    decreases common.len(),
{
    let a = common.push(low) + rest1;
    let b = common.push(high) + rest2;
    if common.len() > 0 {
        let tail = common.drop_first();
        law_first_difference_decides(tail, low, high, rest1, rest2);
        assert(a.drop_first() =~= tail.push(low) + rest1);
        assert(b.drop_first() =~= tail.push(high) + rest2);
    }
}

/// Drained after the run are exactly the connected backends and the producers, each once, in name
/// order.
pub proof fn law_connected_backends_are_drained(set: Map<Seq<char>, SlotView>, name: Seq<char>)
    requires
        names::in_order(names::ordered(set.dom())),
        names::ordered(set.dom()).to_set() == set.dom(),
    ensures
        backendset::drain_order(set).contains(name) <==> set.contains_key(name) && (
        set[name].binding is Amq || set[name].backend matches Some(Ok(_))),
        names::in_order(backendset::drain_order(set)),
{
    let order = names::ordered(set.dom());
    let wanted = |n: Seq<char>| slots::drainable(set[n]);
    lemma_filtered_stays_in_order(order, wanted);
    assert(order.to_set().contains(name) == order.contains(name));
}

/// Leaving names out keeps the others in order.
proof fn lemma_filtered_stays_in_order(order: Seq<Seq<char>>, wanted: spec_fn(Seq<char>) -> bool)
    requires
        names::in_order(order),
    ensures
        names::in_order(order.filter(wanted)),
        forall|n: Seq<char>| #[trigger]
            order.filter(wanted).contains(n) <==> order.contains(n) && wanted(n),
    decreases order.len(),
{
    reveal(Seq::filter);
    let kept = order.filter(wanted);
    if order.len() > 0 {
        let front = order.drop_last();
        let last = order.last();
        let before = front.filter(wanted);
        lemma_filtered_stays_in_order(front, wanted);
        assert(order =~= front.push(last));
        assert forall|n: Seq<char>| order.contains(n) == (front.contains(n) || n == last) by {
            if front.contains(n) {
                assert(order[front.index_of(n)] == n);
            }
            assert(order[order.len() - 1] == last);
        }
        if wanted(last) {
            assert(kept == before.push(last));
            assert forall|n: Seq<char>| kept.contains(n) == (before.contains(n) || n == last) by {
                if before.contains(n) {
                    assert(kept[before.index_of(n)] == n);
                }
                assert(kept[kept.len() - 1] == last);
            }
            assert forall|i: int, j: int|
                #![trigger kept[i], kept[j]]
                0 <= i < j < kept.len() implies names::name_before(kept[i], kept[j]) by {
                assert(kept[i] == before[i]);
                if j < before.len() {
                    assert(kept[j] == before[j]);
                } else {
                    assert(before.contains(before[i]));
                    let k = front.index_of(before[i]);
                    assert(order[k] == before[i]);
                    assert(names::name_before(order[k], order[order.len() - 1]));
                }
            }
        }
    }
}

/// A slot can be drained once it is connected, and not before; not if its connecting failed; and a
/// producer always. What is drained is the backend that it is connected to.
pub proof fn law_connected_slots_can_be_drained(slot: SlotView)
    ensures
        slot.binding is Amq ==> slots::drainable(slot),
        !(slot.binding is Amq) ==> slots::drainable(slot) == (slot.backend matches Some(Ok(_))),
        slot.backend matches Some(Ok(backend)) ==> slots::connection_of(slot) == Some(backend),
        slot.backend matches Some(Err(_)) ==> slots::connection_of(slot) is None,
        slot.backend is None ==> slots::connection_of(slot) is None,
{
}

/// A session with nothing wired reports nothing, whatever is known of other names.
pub proof fn law_nothing_wired_reports_nothing(
    recorded: Map<Seq<char>, Recorded>,
    metrics: BackendMetrics,
)
    requires
        backendset::reports(metrics, Map::empty(), recorded, Seq::empty()),
    ensures
        metrics.db@.len() == 0,
        metrics.mongo@.len() == 0,
        metrics.mail@.len() == 0,
        metrics.redis@.len() == 0,
        metrics.amq@.len() == 0,
        metrics.auth@.len() == 0,
{
    let set = Map::<Seq<char>, SlotView>::empty();
    let order = Seq::<Seq<char>>::empty();
    backendset::lemma_gathered_nothing(order, set, recorded, backendset::db_share());
    backendset::lemma_gathered_nothing(order, set, recorded, backendset::mail_share());
    backendset::lemma_gathered_nothing(order, set, recorded, backendset::redis_share());
    backendset::lemma_gathered_nothing(order, set, recorded, backendset::amq_share());
    backendset::lemma_gathered_nothing(order, set, recorded, backendset::auth_share());
}

/// Wiring one more name, which stands after all others, adds to the report what that name's backend
/// recorded: at the end, under the backend's own capability, if the backend was connected (or is a
/// producer). Everything else of the report stays as it is.
pub proof fn law_next_name_adds_what_it_recorded(
    set: Map<Seq<char>, SlotView>,
    order: Seq<Seq<char>>,
    name: Seq<char>,
    slot: SlotView,
    recorded: Map<Seq<char>, Recorded>,
    before: BackendMetrics,
    after: BackendMetrics,
)
    requires
        names::in_order(order.push(name)),
        order.to_set() == set.dom(),
        backendset::reports(before, set, recorded, order),
        backendset::reports(after, set.insert(name, slot), recorded, order.push(name)),
    ensures
        after.mongo@.len() == 0,
        after.db@ == before.db@ + (if slot.binding is Db && (slot.backend matches Some(Ok(_)))
            && recorded.contains_key(name) && recorded[name] is Db {
            recorded[name]->Db_0@
        } else {
            Seq::<DbMetric>::empty()
        }),
        after.mail@ == before.mail@ + (if slot.binding is Mail && (slot.backend matches Some(
            Ok(_),
        )) && recorded.contains_key(name) && recorded[name] is Mail {
            recorded[name]->Mail_0@
        } else {
            Seq::<MailMetric>::empty()
        }),
        after.redis@ == before.redis@ + (if slot.binding is Redis && (slot.backend matches Some(
            Ok(_),
        )) && recorded.contains_key(name) && recorded[name] is Redis {
            recorded[name]->Redis_0@
        } else {
            Seq::<RedisMetric>::empty()
        }),
        after.amq@ == before.amq@ + (if slot.binding is Amq && recorded.contains_key(name)
            && recorded[name] is Amq {
            recorded[name]->Amq_0@
        } else {
            Seq::<AmqMetric>::empty()
        }),
        after.auth@ == before.auth@ + (if slot.binding is Auth && (slot.backend matches Some(
            Ok(_),
        )) && recorded.contains_key(name) && recorded[name] is Auth {
            recorded[name]->Auth_0@
        } else {
            Seq::<AuthMetric>::empty()
        }),
{
    lemma_gathered_with_next(set, order, name, slot, recorded, backendset::db_share());
    lemma_gathered_with_next(set, order, name, slot, recorded, backendset::mail_share());
    lemma_gathered_with_next(set, order, name, slot, recorded, backendset::redis_share());
    lemma_gathered_with_next(set, order, name, slot, recorded, backendset::amq_share());
    lemma_gathered_with_next(set, order, name, slot, recorded, backendset::auth_share());
}

/// A name after all others adds its contribution at the end, and changes no other's.
proof fn lemma_gathered_with_next<M>(
    set: Map<Seq<char>, SlotView>,
    order: Seq<Seq<char>>,
    name: Seq<char>,
    slot: SlotView,
    recorded: Map<Seq<char>, Recorded>,
    share: spec_fn(SlotView, Option<Recorded>) -> Seq<M>,
)
    requires
        names::in_order(order.push(name)),
    ensures
        backendset::gathered(order.push(name), set.insert(name, slot), recorded, share)
            == backendset::gathered(order, set, recorded, share) + share(
            slot,
            backendset::recorded_by(recorded, name),
        ),
{
    let all = order.push(name);
    let wider = set.insert(name, slot);
    let last = order.len() as int;
    backendset::lemma_gathered_step(all, last, wider, recorded, share);
    assert(all.take(last + 1) =~= all);
    assert(all.take(last) =~= order);
    assert forall|i: int| #![trigger order[i]] 0 <= i < order.len() implies wider[order[i]]
        == set[order[i]] by {
        assert(all[i] == order[i]);
        names::lemma_place_is_unique(all, i);
        names::lemma_place_is_unique(all, last);
    }
    assert(order.map_values(
        |n: Seq<char>| share(wider[n], backendset::recorded_by(recorded, n)),
    ) =~= order.map_values(|n: Seq<char>| share(set[n], backendset::recorded_by(recorded, n))));
}

/// What the one connected `db` backend recorded is what is reported under `db`.
pub proof fn law_sole_db_backend_is_reported(
    set: Map<Seq<char>, SlotView>,
    order: Seq<Seq<char>>,
    name: Seq<char>,
    operations: Vec<DbMetric>,
    recorded: Map<Seq<char>, Recorded>,
    metrics: BackendMetrics,
)
    requires
        names::in_order(order),
        order.to_set() == set.dom(),
        set.contains_key(name),
        set[name].binding is Db,
        set[name].backend matches Some(Ok(_)),
        recorded.contains_key(name),
        recorded[name] == Recorded::Db(operations),
        forall|other: Seq<char>| #[trigger]
            set.contains_key(other) && other != name && set[other].binding is Db ==> !(
            set[other].backend matches Some(Ok(_))),
        backendset::reports(metrics, set, recorded, order),
    ensures
        metrics.db@ == operations@,
{
    let at = lemma_place_of(set, order, name);
    super::law_sole_backend_is_the_report(order, at, set, recorded, backendset::db_share());
}

/// What the one connected `mail` backend recorded is what is reported under `mail`.
pub proof fn law_sole_mail_backend_is_reported(
    set: Map<Seq<char>, SlotView>,
    order: Seq<Seq<char>>,
    name: Seq<char>,
    operations: Vec<MailMetric>,
    recorded: Map<Seq<char>, Recorded>,
    metrics: BackendMetrics,
)
    requires
        names::in_order(order),
        order.to_set() == set.dom(),
        set.contains_key(name),
        set[name].binding is Mail,
        set[name].backend matches Some(Ok(_)),
        recorded.contains_key(name),
        recorded[name] == Recorded::Mail(operations),
        forall|other: Seq<char>| #[trigger]
            set.contains_key(other) && other != name && set[other].binding is Mail ==> !(
            set[other].backend matches Some(Ok(_))),
        backendset::reports(metrics, set, recorded, order),
    ensures
        metrics.mail@ == operations@,
{
    let at = lemma_place_of(set, order, name);
    super::law_sole_backend_is_the_report(order, at, set, recorded, backendset::mail_share());
}

/// What the one connected `redis` backend recorded is what is reported under `redis`.
pub proof fn law_sole_redis_backend_is_reported(
    set: Map<Seq<char>, SlotView>,
    order: Seq<Seq<char>>,
    name: Seq<char>,
    operations: Vec<RedisMetric>,
    recorded: Map<Seq<char>, Recorded>,
    metrics: BackendMetrics,
)
    requires
        names::in_order(order),
        order.to_set() == set.dom(),
        set.contains_key(name),
        set[name].binding is Redis,
        set[name].backend matches Some(Ok(_)),
        recorded.contains_key(name),
        recorded[name] == Recorded::Redis(operations),
        forall|other: Seq<char>| #[trigger]
            set.contains_key(other) && other != name && set[other].binding is Redis ==> !(
            set[other].backend matches Some(Ok(_))),
        backendset::reports(metrics, set, recorded, order),
    ensures
        metrics.redis@ == operations@,
{
    let at = lemma_place_of(set, order, name);
    super::law_sole_backend_is_the_report(order, at, set, recorded, backendset::redis_share());
}

/// What the one `auth` backend that was connected recorded is what is reported under `auth`.
pub proof fn law_sole_auth_backend_is_reported(
    set: Map<Seq<char>, SlotView>,
    order: Seq<Seq<char>>,
    name: Seq<char>,
    operations: Vec<AuthMetric>,
    recorded: Map<Seq<char>, Recorded>,
    metrics: BackendMetrics,
)
    requires
        names::in_order(order),
        order.to_set() == set.dom(),
        set.contains_key(name),
        set[name].binding is Auth,
        set[name].backend matches Some(Ok(_)),
        recorded.contains_key(name),
        recorded[name] == Recorded::Auth(operations),
        forall|other: Seq<char>| #[trigger]
            set.contains_key(other) && other != name && set[other].binding is Auth ==> !(
            set[other].backend matches Some(Ok(_))),
        backendset::reports(metrics, set, recorded, order),
    ensures
        metrics.auth@ == operations@,
{
    let at = lemma_place_of(set, order, name);
    super::law_sole_backend_is_the_report(order, at, set, recorded, backendset::auth_share());
}

/// What the one producer that recorded anything recorded is what is reported under `amq`.
pub proof fn law_sole_producer_is_reported(
    set: Map<Seq<char>, SlotView>,
    order: Seq<Seq<char>>,
    name: Seq<char>,
    operations: Vec<AmqMetric>,
    recorded: Map<Seq<char>, Recorded>,
    metrics: BackendMetrics,
)
    requires
        names::in_order(order),
        order.to_set() == set.dom(),
        set.contains_key(name),
        set[name].binding is Amq,
        recorded.contains_key(name),
        recorded[name] == Recorded::Amq(operations),
        forall|other: Seq<char>| #[trigger]
            set.contains_key(other) && other != name && set[other].binding is Amq
                && recorded.contains_key(other) ==> (recorded[other] matches Recorded::Amq(m)
                ==> m@.len() == 0),
        backendset::reports(metrics, set, recorded, order),
    ensures
        metrics.amq@ == operations@,
{
    let at = lemma_place_of(set, order, name);
    super::law_sole_backend_is_the_report(order, at, set, recorded, backendset::amq_share());
}

/// A wired name has one place in the order.
proof fn lemma_place_of(
    set: Map<Seq<char>, SlotView>,
    order: Seq<Seq<char>>,
    name: Seq<char>,
) -> (at: int)
    requires
        names::in_order(order),
        order.to_set() == set.dom(),
        set.contains_key(name),
    ensures
        0 <= at < order.len(),
        order[at] == name,
        forall|j: int|
            #![trigger order[j]]
            0 <= j < order.len() ==> set.contains_key(order[j]) && (order[j] == name ==> j == at),
{
    assert(order.to_set().contains(name));
    let at = order.index_of(name);
    assert forall|j: int| #![trigger order[j]] 0 <= j < order.len() implies set.contains_key(
        order[j],
    ) && (order[j] == name ==> j == at) by {
        assert(order.to_set().contains(order[j]));
        names::lemma_place_is_unique(order, j);
    }
    at
}

} // verus!
