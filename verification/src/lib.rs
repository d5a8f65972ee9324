//! A query router between an isolated renderer context and the privileged
//! coordinator process, together with the coordinator that owns its lifetime.
//!
//! Script in an isolated context asks a query; a handler that lives only in
//! the coordinator process answers it, at once or later, once or several
//! times; and queries in flight are cancelled when the frame, the renderer or
//! the browser instance that they belong to goes away.
//!
//! The library decides and keeps the books. It does not send, post or draw:
//! every function hands back what is to be sent or done, and the application
//! around it carries that out.
//!
//! - [`query_registry`]: the table of outstanding queries, with its laws in
//!   [`registry_laws`];
//! - [`handler_registry`]: the handlers in the order of their registration;
//! - [`coordinator_router`] and [`isolated_router`]: the two sides of the
//!   router, with the laws that hold of both together in [`router_laws`];
//! - [`client_manager`]: the coordinator of the browser instances' lifecycle;
//! - [`dispatcher`]: work queued for the thread that owns what it touches;
//! - [`message_handler`], [`resource_util`], [`process_type`], [`text`]: the
//!   application's handler, its resources, and what they are made of.
pub mod client_manager;
pub mod coordinator_router;
pub mod dispatcher;
pub mod handler_registry;
pub mod ids;
pub mod isolated_router;
pub mod message_handler;
pub mod messages;
pub mod process_type;
pub mod query_registry;
pub mod registry_laws;
pub mod resource_util;
pub mod router_laws;
pub mod text;
