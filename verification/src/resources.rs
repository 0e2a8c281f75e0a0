//! The operator's resource table, and the resolution of a session's logical names against it.
//!
//! A session never holds credentials: it sends logical names, and the daemon resolves them against
//! this table, where endpoints and credentials live. A name that is not provisioned for the
//! session's tenant is a [`ResolveError`].
use crate::name_map::NameMap;
use crate::names::{order_names, NameOrder};
use crate::wire::{self, WireInit};
use vstd::hash_map::StringHashMap;
use vstd::prelude::*;
use vstd::string::StringExecFns;

verus! {

/// Connection config of a `db` (Postgres-family) resource.
#[derive(Debug)]
pub struct DbConfig {
    /// Per-statement time limit in milliseconds; `0` asks for none.
    pub statement_timeout_ms: u64,
    /// The driver's other connection settings, as JSON text.
    pub settings: String,
}

/// Connection config of a `mail` (SMTP) resource.
#[derive(Debug)]
pub struct MailConfig {
    /// The driver's connection settings, as JSON text.
    pub settings: String,
}

/// Connection config of a `redis` resource.
#[derive(Debug)]
pub struct RedisConfig {
    /// The driver's connection settings, as JSON text.
    pub settings: String,
}

/// Connection config of an `amq` (message-broker) resource.
#[derive(Debug)]
pub struct AmqConfig {
    /// The driver's connection settings, as JSON text.
    pub settings: String,
}

/// Connection config of an `auth` (OIDC/IAM) resource.
#[derive(Debug)]
pub struct AuthConfig {
    /// The driver's connection settings, as JSON text.
    pub settings: String,
}

impl Clone for DbConfig {
    fn clone(&self) -> (copy: Self)
        ensures
            copy == *self,
    {
        DbConfig {
            statement_timeout_ms: self.statement_timeout_ms,
            settings: self.settings.clone(),
        }
    }
}

impl Clone for MailConfig {
    fn clone(&self) -> (copy: Self)
        ensures
            copy == *self,
    {
        MailConfig { settings: self.settings.clone() }
    }
}

impl Clone for RedisConfig {
    fn clone(&self) -> (copy: Self)
        ensures
            copy == *self,
    {
        RedisConfig { settings: self.settings.clone() }
    }
}

impl Clone for AmqConfig {
    fn clone(&self) -> (copy: Self)
        ensures
            copy == *self,
    {
        AmqConfig { settings: self.settings.clone() }
    }
}

impl Clone for AuthConfig {
    fn clone(&self) -> (copy: Self)
        ensures
            copy == *self,
    {
        AuthConfig { settings: self.settings.clone() }
    }
}

/// One operator-declared logical resource: a driver kind and that driver's connection config.
#[derive(Debug)]
pub enum ResourceBinding {
    /// A Postgres-family `db` resource.
    Db(Box<DbConfig>),
    /// A `mail`/SMTP resource.
    Mail(Box<MailConfig>),
    /// A `redis` resource.
    Redis(Box<RedisConfig>),
    /// An `amq` message-broker resource.
    Amq(Box<AmqConfig>),
    /// An `auth` (OIDC/IAM) resource.
    Auth(Box<AuthConfig>),
}

impl Clone for ResourceBinding {
    fn clone(&self) -> (copy: Self)
        ensures
            copy == *self,
    {
        match self {
            ResourceBinding::Db(config) => ResourceBinding::Db(config.clone()),
            ResourceBinding::Mail(config) => ResourceBinding::Mail(config.clone()),
            ResourceBinding::Redis(config) => ResourceBinding::Redis(config.clone()),
            ResourceBinding::Amq(config) => ResourceBinding::Amq(config.clone()),
            ResourceBinding::Auth(config) => ResourceBinding::Auth(config.clone()),
        }
    }
}

/// What a table entry with the driver tag `kind` declares, if there is such a driver.
pub open spec fn tagged_binding(
    kind: Seq<char>,
    statement_timeout_ms: u64,
    settings: String,
) -> Option<ResourceBinding> {
    if kind == "db"@ {
        Some(ResourceBinding::Db(Box::new(DbConfig { statement_timeout_ms, settings })))
    } else if kind == "mail"@ {
        Some(ResourceBinding::Mail(Box::new(MailConfig { settings })))
    } else if kind == "redis"@ {
        Some(ResourceBinding::Redis(Box::new(RedisConfig { settings })))
    } else if kind == "amq"@ {
        Some(ResourceBinding::Amq(Box::new(AmqConfig { settings })))
    } else if kind == "auth"@ {
        Some(ResourceBinding::Auth(Box::new(AuthConfig { settings })))
    } else {
        None
    }
}

/// Whether two texts are the same.
fn same_text(a: &str, b: &str) -> (same: bool)
    ensures
        same == (a@ == b@),
{
    match order_names(a, b) {
        NameOrder::Same => true,
        _ => false,
    }
}

impl ResourceBinding {
    /// The binding that a table entry declares: its `kind` tag selects the driver, the rest of it
    /// is that driver's config. The time limit is read by `db` alone.
    pub fn from_tag(kind: &str, statement_timeout_ms: u64, settings: String) -> (binding: Option<
        Self,
    >)
        ensures
            binding == tagged_binding(kind@, statement_timeout_ms, settings),
    {
        if same_text(kind, "db") {
            Some(ResourceBinding::Db(Box::new(DbConfig { statement_timeout_ms, settings })))
        } else if same_text(kind, "mail") {
            Some(ResourceBinding::Mail(Box::new(MailConfig { settings })))
        } else if same_text(kind, "redis") {
            Some(ResourceBinding::Redis(Box::new(RedisConfig { settings })))
        } else if same_text(kind, "amq") {
            Some(ResourceBinding::Amq(Box::new(AmqConfig { settings })))
        } else if same_text(kind, "auth") {
            Some(ResourceBinding::Auth(Box::new(AuthConfig { settings })))
        } else {
            None
        }
    }
}

/// A [`ResourceBinding`] and the tenant that may use it.
///
/// A binding without a tenant is global: only a session without a tenant resolves it. A binding
/// with a tenant is resolved only by a session for exactly that tenant.
#[derive(Debug)]
pub struct TenantResourceBinding {
    /// The tenant that may resolve this binding (`None` is a global binding).
    pub tenant: Option<String>,
    /// The driver binding.
    pub binding: ResourceBinding,
}

impl Clone for TenantResourceBinding {
    fn clone(&self) -> (copy: Self)
        ensures
            copy == *self,
    {
        TenantResourceBinding {
            tenant: wire::copy_text(&self.tenant),
            binding: self.binding.clone(),
        }
    }
}

/// The operator's table: each logical name, its binding and its tenant.
pub struct ResourceTable {
    entries: StringHashMap<TenantResourceBinding>,
}

impl View for ResourceTable {
    type V = Map<Seq<char>, TenantResourceBinding>;

    closed spec fn view(&self) -> Map<Seq<char>, TenantResourceBinding> {
        self.entries@
    }
}

impl ResourceTable {
    /// An empty table.
    pub fn new() -> (table: Self)
        ensures
            table@ == Map::<Seq<char>, TenantResourceBinding>::empty(),
    {
        ResourceTable { entries: StringHashMap::new() }
    }

    /// Declares `name`, in place of what it stood for before.
    pub fn insert(&mut self, name: String, entry: TenantResourceBinding)
        ensures
            final(self)@ == old(self)@.insert(name@, entry),
    {
        self.entries.insert(name, entry);
    }

    /// What `name` is declared as.
    pub fn get(&self, name: &str) -> (entry: Option<&TenantResourceBinding>)
        ensures
            match entry {
                Some(e) => self@.contains_key(name@) && *e == self@[name@],
                None => !self@.contains_key(name@),
            },
    {
        self.entries.get(name)
    }
}

/// What `name` resolves to for a session of `tenant`: its binding, where the table declares the
/// name for exactly that tenant.
pub open spec fn visible(
    table: Map<Seq<char>, TenantResourceBinding>,
    tenant: Option<Seq<char>>,
    name: Seq<char>,
) -> Option<ResourceBinding> {
    if table.contains_key(name) && wire::text_of(table[name].tenant) == tenant {
        Some(table[name].binding)
    } else {
        None
    }
}

/// Whether the `i`-th of `names` is the first that does not resolve.
pub open spec fn first_refused(
    table: Map<Seq<char>, TenantResourceBinding>,
    tenant: Option<Seq<char>>,
    names: Seq<Seq<char>>,
    i: int,
) -> bool {
    &&& 0 <= i < names.len()
    &&& visible(table, tenant, names[i]) is None
    &&& forall|j: int| #![trigger names[j]] 0 <= j < i ==> visible(table, tenant, names[j]) is Some
}

/// What a session of `tenant` that asks for `names` is given: the binding of each of the names,
/// or else the first name that does not resolve.
pub open spec fn resolution(
    table: Map<Seq<char>, TenantResourceBinding>,
    tenant: Option<Seq<char>>,
    names: Seq<Seq<char>>,
) -> Result<Map<Seq<char>, ResourceBinding>, Seq<char>> {
    if forall|i: int|
        #![trigger names[i]]
        0 <= i < names.len() ==> visible(table, tenant, names[i]) is Some {
        Ok(
            Map::new(
                |n: Seq<char>| names.contains(n),
                |n: Seq<char>| visible(table, tenant, n)->0,
            ),
        )
    } else {
        Err(names[choose|i: int| first_refused(table, tenant, names, i)])
    }
}

/// At most one of the names is the first that does not resolve.
pub proof fn lemma_first_refused_is_unique(
    table: Map<Seq<char>, TenantResourceBinding>,
    tenant: Option<Seq<char>>,
    names: Seq<Seq<char>>,
    i: int,
)
    requires
        first_refused(table, tenant, names, i),
    ensures
        resolution(table, tenant, names) == Err::<Map<Seq<char>, ResourceBinding>, Seq<char>>(
            names[i],
        ),
{
    let k = choose|k: int| first_refused(table, tenant, names, k);
    assert(first_refused(table, tenant, names, k));
    assert(visible(table, tenant, names[i]) is None);
    if k < i {
        assert(visible(table, tenant, names[k]) is Some);
    }
    if i < k {
        assert(visible(table, tenant, names[i]) is Some);
    }
}

/// The operator config resolved for one session: each listed name and its binding.
#[derive(Debug)]
pub struct ResolvedResources {
    /// The resolved bindings, by logical name.
    pub by_name: NameMap<ResourceBinding>,
}

/// The statement time limit that a request is given under an operator's ceiling: no more than the
/// ceiling, which also stands in for no limit at all. A ceiling of `0` is none.
pub open spec fn clamped_timeout(requested_ms: u64, ceiling_ms: u64) -> u64 {
    if ceiling_ms != 0 && (requested_ms == 0 || requested_ms > ceiling_ms) {
        ceiling_ms
    } else {
        requested_ms
    }
}

/// A binding under an operator's ceiling: a `db` binding with its time limit clamped, any other as
/// it is.
pub open spec fn clamped_binding(binding: ResourceBinding, ceiling_ms: u64) -> ResourceBinding {
    match binding {
        ResourceBinding::Db(db) => ResourceBinding::Db(
            Box::new(
                DbConfig {
                    statement_timeout_ms: clamped_timeout(db.statement_timeout_ms, ceiling_ms),
                    settings: db.settings,
                },
            ),
        ),
        other => other,
    }
}

/// A session's bindings under an operator's ceiling.
pub open spec fn clamped(
    bindings: Map<Seq<char>, ResourceBinding>,
    ceiling_ms: u64,
) -> Map<Seq<char>, ResourceBinding> {
    bindings.map_values(|b: ResourceBinding| clamped_binding(b, ceiling_ms))
}

impl ResolvedResources {
    /// Clamps the statement time limit of every resolved `db` binding to the operator's ceiling.
    ///
    /// A ceiling of `0` is none; a requested limit of `0` asks for no limit and is given the
    /// ceiling, so that no unlimited statement is ever issued under one.
    pub fn clamp_db_statement_timeout(&mut self, ceiling_ms: u64)
        ensures
            final(self).by_name@ == clamped(old(self).by_name@, ceiling_ms),
    {
        if ceiling_ms == 0 {
            assert(clamped(self.by_name@, 0) =~= self.by_name@);
            return;
        }
        let ghost given = self.by_name@;
        let ghost names = self.by_name.names();
        let n = self.by_name.len();
        let mut i: usize = 0;
        while i < n
            invariant
                i <= n,
                n == names.len(),
                ceiling_ms != 0,
                names == crate::names::ordered(given.dom()),
                crate::names::in_order(names),
                names.to_set() == given.dom(),
                self.by_name@.dom() == given.dom(),
                forall|j: int|
                    #![trigger names[j]]
                    0 <= j < i ==> self.by_name@[names[j]] == clamped_binding(
                        given[names[j]],
                        ceiling_ms,
                    ),
                forall|j: int|
                    #![trigger names[j]]
                    i <= j < n ==> self.by_name@[names[j]] == given[names[j]],
            decreases n - i,
        {
            proof {
                assert(names.to_set().contains(names[i as int]));
                assert forall|j: int| #![trigger names[j]] 0 <= j < n && j != i implies names[j]
                    != names[i as int] by {
                    crate::names::lemma_place_is_unique(names, j);
                    crate::names::lemma_place_is_unique(names, i as int);
                }
            }
            let binding = self.by_name.value_at_mut(i);
            if let ResourceBinding::Db(db) = binding {
                db.statement_timeout_ms = if db.statement_timeout_ms == 0 {
                    ceiling_ms
                } else if db.statement_timeout_ms < ceiling_ms {
                    db.statement_timeout_ms
                } else {
                    ceiling_ms
                };
            }
            assert(self.by_name@.dom() =~= given.dom());
            i += 1;
        }
        assert forall|name: Seq<char>| given.contains_key(name) implies self.by_name@[name]
            == clamped_binding(given[name], ceiling_ms) by {
            assert(names.contains(name));
            assert(names[names.index_of(name)] == name);
        }
        assert(self.by_name@ =~= clamped(given, ceiling_ms));
    }
}

impl Default for ResolvedResources {
    fn default() -> (resolved: Self)
        ensures
            resolved.by_name@ == Map::<Seq<char>, ResourceBinding>::empty(),
    {
        ResolvedResources { by_name: NameMap::new() }
    }
}

impl Clone for ResolvedResources {
    fn clone(&self) -> (copy: Self)
        ensures
            copy.by_name@ == self.by_name@,
    {
        let copy = ResolvedResources { by_name: self.by_name.clone() };
        assert(copy.by_name@ =~= self.by_name@);
        copy
    }
}

/// Why a requested name could not be resolved.
#[derive(Debug)]
pub enum ResolveError {
    /// No resource of any kind is provisioned under this name.
    NotFound(String),
    /// A resource exists under this name but is of another kind than requested.
    KindMismatch {
        /// The requested name.
        name: String,
        /// The kind that the session asked for.
        kind: String,
    },
}

impl ResolveError {
    /// The stable machine code of the error.
    pub open spec fn code_text(self) -> Seq<char> {
        match self {
            ResolveError::NotFound(_) => "RESOURCE_NOT_FOUND"@,
            ResolveError::KindMismatch { .. } => "RESOURCE_KIND_MISMATCH"@,
        }
    }

    /// The message that describes the failure.
    pub open spec fn message_text(self) -> Seq<char> {
        match self {
            ResolveError::NotFound(name) => "no operator resource named `"@ + name@ + "`"@,
            ResolveError::KindMismatch { name, kind } => "resource `"@ + name@ + "` is not a "@
                + kind@ + " resource"@,
        }
    }

    /// Stable request-category code (`RESOURCE_NOT_FOUND` or `RESOURCE_KIND_MISMATCH`).
    pub fn code(&self) -> (code: &'static str)
        ensures
            code@ == self.code_text(),
    {
        match self {
            ResolveError::NotFound(_) => "RESOURCE_NOT_FOUND",
            ResolveError::KindMismatch { .. } => "RESOURCE_KIND_MISMATCH",
        }
    }

    /// A human-safe message describing the failure.
    pub fn message(&self) -> (message: String)
        ensures
            message@ == self.message_text(),
    {
        match self {
            ResolveError::NotFound(name) => "no operator resource named `".to_owned().concat(
                name.as_str(),
            ).concat("`"),
            ResolveError::KindMismatch { name, kind } => "resource `".to_owned().concat(
                name.as_str(),
            ).concat("` is not a ").concat(kind.as_str()).concat(" resource"),
        }
    }
}

impl Clone for ResolveError {
    fn clone(&self) -> (copy: Self)
        ensures
            copy == *self,
    {
        match self {
            ResolveError::NotFound(name) => ResolveError::NotFound(name.clone()),
            ResolveError::KindMismatch { name, kind } => ResolveError::KindMismatch {
                name: name.clone(),
                kind: kind.clone(),
            },
        }
    }
}

/// Whether two optional names are the same.
fn same_tenant(a: &Option<String>, b: &Option<String>) -> (same: bool)
    ensures
        same == (wire::text_of(*a) == wire::text_of(*b)),
{
    match (a, b) {
        (None, None) => true,
        (Some(a), Some(b)) => *a == *b,
        _ => false,
    }
}

/// Resolves every logical name that the session lists against the operator's table, scoped to the
/// session's tenant.
///
/// A name of another tenant is answered as an absent one, so that a tenant cannot learn which
/// names others have. The kind of each resource comes from its binding.
pub fn resolve(table: &ResourceTable, init: &WireInit) -> (resolved: Result<
    ResolvedResources,
    ResolveError,
>)
    ensures
        match resolved {
            Ok(found) => resolution(
                table@,
                wire::text_of(init.tenant),
                wire::texts(init.resources@),
            ) == Ok::<Map<Seq<char>, ResourceBinding>, Seq<char>>(found.by_name@),
            Err(error) => error matches ResolveError::NotFound(name) && resolution(
                table@,
                wire::text_of(init.tenant),
                wire::texts(init.resources@),
            ) == Err::<Map<Seq<char>, ResourceBinding>, Seq<char>>(name@),
        },
        resolved is Ok <==> forall|i: int|
            #![trigger init.resources[i]]
            0 <= i < init.resources.len() ==> table@.contains_key(init.resources[i]@) && match (
                table@[init.resources[i]@].tenant,
                init.tenant,
            ) {
                (Some(owner), Some(tenant)) => owner@ == tenant@,
                (None, None) => true,
                _ => false,
            },
        resolved matches Ok(found) ==> forall|i: int|
            #![trigger init.resources[i]]
            0 <= i < init.resources.len() ==> found.by_name@.contains_key(init.resources[i]@)
                && found.by_name@[init.resources[i]@] == table@[init.resources[i]@].binding,
{
    let ghost tenant = wire::text_of(init.tenant);
    let ghost names = wire::texts(init.resources@);
    let mut by_name: NameMap<ResourceBinding> = NameMap::new();
    let mut i: usize = 0;
    while i < init.resources.len()
        invariant
            i <= init.resources.len(),
            tenant == wire::text_of(init.tenant),
            names == wire::texts(init.resources@),
            forall|j: int|
                #![trigger names[j]]
                0 <= j < i ==> visible(table@, tenant, names[j]) is Some,
            by_name@ == Map::new(
                |n: Seq<char>| names.take(i as int).contains(n),
                |n: Seq<char>| visible(table@, tenant, n)->0,
            ),
        decreases init.resources.len() - i,
    {
        let name = &init.resources[i];
        assert(names[i as int] == name@);
        let entry = match table.get(name.as_str()) {
            Some(entry) => entry,
            None => {
                proof {
                    assert(first_refused(table@, tenant, names, i as int));
                    lemma_first_refused_is_unique(table@, tenant, names, i as int);
                }
                return Err(ResolveError::NotFound(name.clone()));
            },
        };
        if !same_tenant(&entry.tenant, &init.tenant) {
            proof {
                assert(first_refused(table@, tenant, names, i as int));
                lemma_first_refused_is_unique(table@, tenant, names, i as int);
            }
            return Err(ResolveError::NotFound(name.clone()));
        }
        let _ = by_name.insert(name.clone(), entry.binding.clone());
        proof {
            let seen = names.take(i as int);
            let now = names.take(i + 1);
            assert(now =~= seen.push(name@));
            assert forall|n: Seq<char>| now.contains(n) == (seen.contains(n) || n == name@) by {
                if seen.contains(n) {
                    assert(now[seen.index_of(n)] == n);
                }
                assert(now[i as int] == name@);
            }
            assert(by_name@ =~= Map::new(
                |n: Seq<char>| now.contains(n),
                |n: Seq<char>| visible(table@, tenant, n)->0,
            ));
        }
        i += 1;
    }
    proof {
        assert(names.take(i as int) =~= names);
        assert forall|j: int|
            #![trigger init.resources[j]]
            0 <= j < init.resources.len() implies names.contains(init.resources[j]@) && visible(
            table@,
            tenant,
            init.resources[j]@,
        ) is Some by {
            assert(names[j] == init.resources[j]@);
        }
    }
    Ok(ResolvedResources { by_name })
}

} // verus!
