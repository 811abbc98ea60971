//! A verified engine that extracts an OpenAPI description from statically
//! analyzed TypeScript sources. Endpoints are declared with `Path(handler,
//! options)` calls whose handler parameter types are phantom markers
//! (`QueryParam`, `RouteParam`, `Header`, `BodyParam`) and whose bodies build
//! `Response(value, options)` expressions. The engine walks the parsed trees,
//! resolves user type references across modules (aliases, imports,
//! re-exports), and materializes each referenced type as a component schema.
//!
//! Parsing source text and mapping import specifiers to absolute paths are
//! outside collaborators: the engine consumes already-parsed trees
//! (`ast::Module`) and a resolution table (`resolver::ModuleResolver`).
pub mod ast;
pub mod cache;
pub mod declarations;
pub mod deferred;
pub mod factory;
pub mod materializer;
pub mod options;
pub mod resolver;
pub mod schema;
