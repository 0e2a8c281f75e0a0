//! The steps of a call: what is to be done outside before the call can go on, or how it ends.
use crate::payload::DbArgs;
use crate::resources::{AmqConfig, AuthConfig, DbConfig, MailConfig, RedisConfig};
use crate::slots::AsyncDeps;
use crate::wire::{EgressError, EgressErrorView};
use vstd::prelude::*;

verus! {

/// What is needed to connect a slot's backend.
#[derive(Debug)]
pub enum ConnectRequest {
    /// Connect a `db` backend.
    Db {
        /// The operator's config.
        config: DbConfig,
        /// The runtime, the breaker and the deadline.
        deps: AsyncDeps,
    },
    /// Build a `mail` backend.
    Mail(MailConfig),
    /// Connect a `redis` backend.
    Redis(RedisConfig),
    /// Build an `auth` backend.
    Auth(AuthConfig),
}

/// A driver call that is ready to be made.
#[derive(Debug)]
pub enum Invocation {
    /// Run SQL on a `db` backend.
    Db { backend: u64, action: String, args: DbArgs },
    /// Hand a send envelope to a `mail` backend.
    Mail { backend: u64, action: String, payload_json: String },
    /// Hand an operation to a `redis` backend.
    Redis { backend: u64, action: String, payload_json: String },
    /// Hand a batch or a request to a message broker.
    Amq { config: AmqConfig, action: String, payload_json: String },
    /// Check a token with an `auth` backend.
    Auth { backend: u64, action: String, token: String },
}

/// What an [`Invocation`] hands to the driver.
pub enum InvocationView {
    Db { backend: u64, action: Seq<char>, sql: Seq<char>, params_json: Seq<char> },
    Mail { backend: u64, action: Seq<char>, payload_json: Seq<char> },
    Redis { backend: u64, action: Seq<char>, payload_json: Seq<char> },
    Amq { config: AmqConfig, action: Seq<char>, payload_json: Seq<char> },
    Auth { backend: u64, action: Seq<char>, token: Seq<char> },
}

impl View for Invocation {
    type V = InvocationView;

    open spec fn view(&self) -> InvocationView {
        match self {
            Invocation::Db { backend, action, args } => InvocationView::Db {
                backend: *backend,
                action: action@,
                sql: args.sql@,
                params_json: args.params_json@,
            },
            Invocation::Mail { backend, action, payload_json } => InvocationView::Mail {
                backend: *backend,
                action: action@,
                payload_json: payload_json@,
            },
            Invocation::Redis { backend, action, payload_json } => InvocationView::Redis {
                backend: *backend,
                action: action@,
                payload_json: payload_json@,
            },
            Invocation::Amq { config, action, payload_json } => InvocationView::Amq {
                config: *config,
                action: action@,
                payload_json: payload_json@,
            },
            Invocation::Auth { backend, action, token } => InvocationView::Auth {
                backend: *backend,
                action: action@,
                token: token@,
            },
        }
    }
}

/// The next step of a call.
#[derive(Debug)]
pub enum CallStep {
    /// Connect the slot's backend, report what that came to, and make the call again.
    Connect(ConnectRequest),
    /// Decode the payload's JSON text as a `db` payload, and go on with what that gave.
    DecodeDb { backend: u64, action: String, payload_json: String },
    /// Decode the payload's JSON text as an `auth` payload, and go on with what that gave.
    DecodeAuth { backend: u64, action: String, payload_json: String },
    /// Make the driver call: its reply is the call's.
    Invoke(Invocation),
    /// The call has failed, and no driver is called.
    Rejected(EgressError),
}

/// What a [`CallStep`] asks for.
pub enum CallStepView {
    Connect(ConnectRequest),
    DecodeDb { backend: u64, action: Seq<char>, payload_json: Seq<char> },
    DecodeAuth { backend: u64, action: Seq<char>, payload_json: Seq<char> },
    Invoke(InvocationView),
    Rejected(EgressErrorView),
}

impl View for CallStep {
    type V = CallStepView;

    open spec fn view(&self) -> CallStepView {
        match self {
            CallStep::Connect(request) => CallStepView::Connect(*request),
            CallStep::DecodeDb { backend, action, payload_json } => CallStepView::DecodeDb {
                backend: *backend,
                action: action@,
                payload_json: payload_json@,
            },
            CallStep::DecodeAuth { backend, action, payload_json } => CallStepView::DecodeAuth {
                backend: *backend,
                action: action@,
                payload_json: payload_json@,
            },
            CallStep::Invoke(invocation) => CallStepView::Invoke(invocation@),
            CallStep::Rejected(error) => CallStepView::Rejected(error@),
        }
    }
}

} // verus!
