//! What the operator's table, the ceiling and the kind tags come to, entry by entry.
use crate::resources::{
    self, AmqConfig, AuthConfig, DbConfig, MailConfig, RedisConfig, ResolveError, ResourceBinding,
    TenantResourceBinding,
};
use crate::wire;
use vstd::prelude::*;

verus! {

/// A session is given every name that it lists where the table declares each of them for the
/// session's own tenant, whatever the kind of the resource: each name stands for what the table
/// binds it to, and nothing else is given.
pub proof fn law_own_names_resolve(
    table: Map<Seq<char>, TenantResourceBinding>,
    tenant: Option<Seq<char>>,
    asked: Seq<Seq<char>>,
)
    requires
        forall|i: int|
            #![trigger asked[i]]
            0 <= i < asked.len() ==> table.contains_key(asked[i]) && match table[asked[i]].tenant {
                Some(owner) => tenant == Some(owner@),
                None => tenant is None,
            },
    ensures
        resources::resolution(table, tenant, asked) matches Ok(given) && given.dom()
            == asked.to_set() && forall|i: int|
            #![trigger asked[i]]
            0 <= i < asked.len() ==> given[asked[i]] == table[asked[i]].binding,
{
    assert forall|i: int| #![trigger asked[i]] 0 <= i < asked.len() implies resources::visible(
        table,
        tenant,
        asked[i],
    ) == Some(table[asked[i]].binding) by {}
    let given = resources::resolution(table, tenant, asked)->Ok_0;
    assert(given.dom() =~= asked.to_set());
    assert forall|i: int| #![trigger asked[i]] 0 <= i < asked.len() implies given[asked[i]]
        == table[asked[i]].binding by {
        assert(asked.contains(asked[i]));
    }
}

/// A session that lists a name that the table lacks, or holds for another tenant (or for none), is
/// refused, and the refusal gives the first such name.
pub proof fn law_first_unfit_name_is_refused(
    table: Map<Seq<char>, TenantResourceBinding>,
    tenant: Option<Seq<char>>,
    asked: Seq<Seq<char>>,
    i: int,
)
    requires
        0 <= i < asked.len(),
        table.contains_key(asked[i]) ==> match table[asked[i]].tenant {
            Some(owner) => tenant != Some(owner@),
            None => tenant is Some,
        },
        forall|j: int|
            #![trigger asked[j]]
            0 <= j < i ==> table.contains_key(asked[j]) && match table[asked[j]].tenant {
                Some(owner) => tenant == Some(owner@),
                None => tenant is None,
            },
    ensures
        resources::resolution(table, tenant, asked) == Err::<
            Map<Seq<char>, ResourceBinding>,
            Seq<char>,
        >(asked[i]),
{
    assert(resources::first_refused(table, tenant, asked, i));
    resources::lemma_first_refused_is_unique(table, tenant, asked, i);
}

/// A text stands for its own characters, and a list of texts for them in its own order.
pub proof fn law_texts_stand_for_themselves(text: String, strings: Seq<String>)
    ensures
        wire::text_of(Some(text)) == Some(text@),
        wire::text_of(None) is None,
        wire::texts(strings).len() == strings.len(),
        forall|i: int|
            #![trigger strings[i]]
            0 <= i < strings.len() ==> wire::texts(strings)[i] == strings[i]@,
{
}

/// A refusal is told by its code, and its message gives the name that was asked for.
pub proof fn law_refusals_are_told_apart(error: ResolveError)
    ensures
        match error {
            ResolveError::NotFound(name) => error.code_text() == "RESOURCE_NOT_FOUND"@
                && error.message_text() == "no operator resource named `"@ + name@ + "`"@,
            ResolveError::KindMismatch { name, kind } => error.code_text()
                == "RESOURCE_KIND_MISMATCH"@ && error.message_text() == "resource `"@ + name@
                + "` is not a "@ + kind@ + " resource"@,
        },
        "RESOURCE_NOT_FOUND"@ != "RESOURCE_KIND_MISMATCH"@,
{
    reveal_strlit("RESOURCE_NOT_FOUND");
    reveal_strlit("RESOURCE_KIND_MISMATCH");
    assert("RESOURCE_NOT_FOUND"@.len() != "RESOURCE_KIND_MISMATCH"@.len());
}

/// Under a ceiling a `db` binding is given the longest limit that keeps to the ceiling and, where
/// the binding asks for a limit, to that, so that no permitted limit (`limit_ms`) is longer: the
/// ceiling itself for no limit and for any above it. Without a ceiling it is given what it asks
/// for.
pub proof fn law_longest_permitted_limit_is_given(
    bindings: Map<Seq<char>, ResourceBinding>,
    ceiling_ms: u64,
    name: Seq<char>,
    limit_ms: u64,
)
    requires
        bindings.contains_key(name),
        bindings[name] is Db,
    ensures
        resources::clamped(bindings, ceiling_ms).contains_key(name),
        bindings[name] matches ResourceBinding::Db(asked) && resources::clamped(
            bindings,
            ceiling_ms,
        )[name] matches ResourceBinding::Db(given) && {
            &&& given.settings == asked.settings
            &&& ceiling_ms == 0 ==> given.statement_timeout_ms == asked.statement_timeout_ms
            &&& ceiling_ms != 0 && asked.statement_timeout_ms == 0 ==> given.statement_timeout_ms
                == ceiling_ms
            &&& ceiling_ms != 0 && asked.statement_timeout_ms > ceiling_ms
                ==> given.statement_timeout_ms == ceiling_ms
            &&& 0 < asked.statement_timeout_ms <= ceiling_ms ==> given.statement_timeout_ms
                == asked.statement_timeout_ms
            &&& 0 < limit_ms <= ceiling_ms && (asked.statement_timeout_ms == 0 || limit_ms
                <= asked.statement_timeout_ms) ==> limit_ms <= given.statement_timeout_ms
        },
{
}

/// Under a ceiling, a request that is no limit or lies above the ceiling is given exactly the
/// ceiling.
pub proof fn law_excess_is_given_the_ceiling(requested_ms: u64, ceiling_ms: u64)
    requires
        ceiling_ms != 0,
        requested_ms == 0 || requested_ms > ceiling_ms,
    ensures
        resources::clamped_timeout(requested_ms, ceiling_ms) == ceiling_ms,
{
}

/// Each kind tag selects its own driver, which is given the entry's settings (and, of the drivers,
/// `db` alone the time limit); no other tag selects one.
pub proof fn law_kind_tag_selects_the_driver(
    kind: Seq<char>,
    statement_timeout_ms: u64,
    settings: String,
)
    ensures
        resources::tagged_binding("db"@, statement_timeout_ms, settings) == Some(
            ResourceBinding::Db(Box::new(DbConfig { statement_timeout_ms, settings })),
        ),
        resources::tagged_binding("mail"@, statement_timeout_ms, settings) == Some(
            ResourceBinding::Mail(Box::new(MailConfig { settings })),
        ),
        resources::tagged_binding("redis"@, statement_timeout_ms, settings) == Some(
            ResourceBinding::Redis(Box::new(RedisConfig { settings })),
        ),
        resources::tagged_binding("amq"@, statement_timeout_ms, settings) == Some(
            ResourceBinding::Amq(Box::new(AmqConfig { settings })),
        ),
        resources::tagged_binding("auth"@, statement_timeout_ms, settings) == Some(
            ResourceBinding::Auth(Box::new(AuthConfig { settings })),
        ),
        resources::tagged_binding(kind, statement_timeout_ms, settings) is Some ==> kind == "db"@
            || kind == "mail"@ || kind == "redis"@ || kind == "amq"@ || kind == "auth"@,
{
    reveal_strlit("db");
    reveal_strlit("mail");
    reveal_strlit("redis");
    reveal_strlit("amq");
    reveal_strlit("auth");
    assert("db"@.len() == 2 && "mail"@.len() == 4 && "redis"@.len() == 5 && "amq"@.len() == 3);
    assert("mail"@[0] != "auth"@[0]);
}

} // verus!
