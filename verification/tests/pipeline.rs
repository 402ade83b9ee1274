use rspc::{
    AlphaBaseMiddleware, AlphaProcedure, ConfigError, CountStream, ExecError, Middleware,
    MiddlewareMerger, MwBehavior, Outcome, ProcedureKind, Registry, Resolver, ResolverError,
    TraceEvent, Value,
};

fn observe(tag: u64) -> Middleware {
    Middleware { tag, behavior: MwBehavior::Observe }
}

fn reject_negative(tag: u64) -> Middleware {
    Middleware { tag, behavior: MwBehavior::RejectNegativeInt }
}

fn require_context(tag: u64) -> Middleware {
    Middleware { tag, behavior: MwBehavior::RequireContext }
}

fn envelope(tag: u64) -> Middleware {
    Middleware { tag, behavior: MwBehavior::MapEnvelope }
}

fn base() -> AlphaProcedure<rspc::MissingResolver, AlphaBaseMiddleware> {
    AlphaProcedure::new_from_middleware(AlphaBaseMiddleware::new())
}

#[test]
fn greet_query_returns_immediate_greeting() {
    let mut registry = Registry::new();
    let r = base().query(Resolver::Greet).build(String::from("greet"), &mut registry);
    assert_eq!(r, Ok(()));

    let mut trace: Vec<TraceEvent> = Vec::new();
    let res = registry.dispatch(
        ProcedureKind::Query,
        &String::from("greet"),
        Value::Null,
        Value::Text(String::from("world")),
        &mut trace,
    );
    assert_eq!(res, Ok(Outcome::Immediate(Value::Text(String::from("hello, world")))));
    assert_eq!(trace, vec![TraceEvent::Resolve(Resolver::Greet)]);
}

#[test]
fn ingress_in_registration_order_egress_reversed() {
    let mut registry = Registry::new();
    let r = base()
        .with(observe(1))
        .with(observe(2))
        .query(Resolver::Echo)
        .build(String::from("echo"), &mut registry);
    assert_eq!(r, Ok(()));

    let mut trace: Vec<TraceEvent> = Vec::new();
    let res = registry.dispatch(
        ProcedureKind::Query,
        &String::from("echo"),
        Value::Null,
        Value::Int(7),
        &mut trace,
    );
    assert_eq!(res, Ok(Outcome::Immediate(Value::Int(7))));
    assert_eq!(
        trace,
        vec![
            TraceEvent::Enter(1),
            TraceEvent::Enter(2),
            TraceEvent::Resolve(Resolver::Echo),
            TraceEvent::Exit(2),
            TraceEvent::Exit(1),
        ]
    );
}

#[test]
fn rejecting_middleware_short_circuits_but_outer_logging_sees_the_attempt() {
    let mut registry = Registry::new();
    let r = base()
        .with(observe(1))
        .with(reject_negative(2))
        .mutation(Resolver::Increment)
        .build(String::from("incr"), &mut registry);
    assert_eq!(r, Ok(()));

    let mut trace: Vec<TraceEvent> = Vec::new();
    let res = registry.dispatch(
        ProcedureKind::Mutation,
        &String::from("incr"),
        Value::Null,
        Value::Int(-1),
        &mut trace,
    );
    assert_eq!(res, Err(ExecError::MiddlewareRejected(2)));
    // The resolver never ran; the outer logging layer still recorded
    // the attempt on the way in and on the way out.
    assert_eq!(trace, vec![TraceEvent::Enter(1), TraceEvent::Enter(2), TraceEvent::Exit(1)]);

    // A non-negative argument passes the guard and reaches the resolver.
    let mut trace2: Vec<TraceEvent> = Vec::new();
    let res2 = registry.dispatch(
        ProcedureKind::Mutation,
        &String::from("incr"),
        Value::Null,
        Value::Int(41),
        &mut trace2,
    );
    assert_eq!(res2, Ok(Outcome::Immediate(Value::Int(42))));
    assert_eq!(
        trace2,
        vec![
            TraceEvent::Enter(1),
            TraceEvent::Enter(2),
            TraceEvent::Resolve(Resolver::Increment),
            TraceEvent::Exit(2),
            TraceEvent::Exit(1),
        ]
    );
}

#[test]
fn subscription_stream_yields_values_until_dropped() {
    let mut registry = Registry::new();
    let r = base().subscription(Resolver::Ticks).build(String::from("ticks"), &mut registry);
    assert_eq!(r, Ok(()));

    let mut trace: Vec<TraceEvent> = Vec::new();
    let res = registry.dispatch(
        ProcedureKind::Subscription,
        &String::from("ticks"),
        Value::Null,
        Value::Int(0),
        &mut trace,
    );
    let mut stream = match res {
        Ok(Outcome::Stream(s)) => s,
        other => panic!("expected a stream, got {:?}", other),
    };
    // The transport consumes three values, then cancels by dropping the
    // handle: no further values are produced after that.
    assert_eq!(stream.poll(), Value::Int(0));
    assert_eq!(stream.poll(), Value::Int(1));
    assert_eq!(stream.poll(), Value::Int(2));
    assert_eq!(stream, CountStream { next: 3 });
    drop(stream);
    assert_eq!(trace, vec![TraceEvent::Resolve(Resolver::Ticks)]);
}

#[test]
fn dispatch_on_unregistered_key_returns_not_found() {
    let mut registry = Registry::new();
    let r = base().query(Resolver::Echo).build(String::from("known"), &mut registry);
    assert_eq!(r, Ok(()));

    let mut trace: Vec<TraceEvent> = Vec::new();
    let res = registry.dispatch(
        ProcedureKind::Query,
        &String::from("unknown"),
        Value::Null,
        Value::Null,
        &mut trace,
    );
    assert_eq!(res, Err(ExecError::NotFound));
    assert!(trace.is_empty());

    // Namespaces are independent: the key exists only for queries.
    let mut trace2: Vec<TraceEvent> = Vec::new();
    let res2 = registry.dispatch(
        ProcedureKind::Mutation,
        &String::from("known"),
        Value::Null,
        Value::Null,
        &mut trace2,
    );
    assert_eq!(res2, Err(ExecError::NotFound));
}

#[test]
fn duplicate_key_is_rejected_at_registration_time() {
    let mut registry = Registry::new();
    let first = base().query(Resolver::Greet).build(String::from("greet"), &mut registry);
    assert_eq!(first, Ok(()));
    let second = base().query(Resolver::Echo).build(String::from("greet"), &mut registry);
    assert_eq!(second, Err(ConfigError::DuplicateKey));

    // The original registration is untouched: no silent overwrite.
    let mut trace: Vec<TraceEvent> = Vec::new();
    let res = registry.dispatch(
        ProcedureKind::Query,
        &String::from("greet"),
        Value::Null,
        Value::Text(String::from("x")),
        &mut trace,
    );
    assert_eq!(res, Ok(Outcome::Immediate(Value::Text(String::from("hello, x")))));

    // The same key in another kind's namespace is fine.
    let other = base().mutation(Resolver::Echo).build(String::from("greet"), &mut registry);
    assert_eq!(other, Ok(()));
}

#[test]
fn kind_mismatch_is_rejected_at_registration_time() {
    let mut registry = Registry::new();
    let as_query = base().query(Resolver::Ticks).build(String::from("ticks"), &mut registry);
    assert_eq!(as_query, Err(ConfigError::KindMismatch));
    let as_sub = base().subscription(Resolver::Greet).build(String::from("greet"), &mut registry);
    assert_eq!(as_sub, Err(ConfigError::KindMismatch));
}

#[test]
fn decode_failure_surfaces_argument_decode_and_skips_the_resolver() {
    let mut registry = Registry::new();
    let r = base().query(Resolver::Greet).build(String::from("greet"), &mut registry);
    assert_eq!(r, Ok(()));

    let mut trace: Vec<TraceEvent> = Vec::new();
    let res = registry.dispatch(
        ProcedureKind::Query,
        &String::from("greet"),
        Value::Null,
        Value::Int(3),
        &mut trace,
    );
    assert_eq!(res, Err(ExecError::ArgumentDecode));
    assert!(trace.is_empty());
}

#[test]
fn resolver_failure_is_surfaced_with_its_cause() {
    let mut registry = Registry::new();
    let r = base().mutation(Resolver::Increment).build(String::from("incr"), &mut registry);
    assert_eq!(r, Ok(()));

    let mut trace: Vec<TraceEvent> = Vec::new();
    let res = registry.dispatch(
        ProcedureKind::Mutation,
        &String::from("incr"),
        Value::Null,
        Value::Int(i64::MAX),
        &mut trace,
    );
    assert_eq!(res, Err(ExecError::Resolver(ResolverError::Overflow)));
    // The resolver itself ran and failed: exactly one invocation.
    assert_eq!(trace, vec![TraceEvent::Resolve(Resolver::Increment)]);
}

#[test]
fn deferred_outcome_passes_back_to_the_transport() {
    let mut registry = Registry::new();
    let r = base().query(Resolver::EchoDeferred).build(String::from("later"), &mut registry);
    assert_eq!(r, Ok(()));

    let mut trace: Vec<TraceEvent> = Vec::new();
    let res = registry.dispatch(
        ProcedureKind::Query,
        &String::from("later"),
        Value::Null,
        Value::Bool(true),
        &mut trace,
    );
    assert_eq!(res, Ok(Outcome::Deferred(Value::Bool(true))));
}

#[test]
fn access_control_middleware_gates_on_the_context() {
    let mut registry = Registry::new();
    let r = base()
        .with(require_context(9))
        .query(Resolver::Echo)
        .build(String::from("whoami"), &mut registry);
    assert_eq!(r, Ok(()));

    let mut trace: Vec<TraceEvent> = Vec::new();
    let rejected = registry.dispatch(
        ProcedureKind::Query,
        &String::from("whoami"),
        Value::Null,
        Value::Int(1),
        &mut trace,
    );
    assert_eq!(rejected, Err(ExecError::MiddlewareRejected(9)));
    assert_eq!(trace, vec![TraceEvent::Enter(9)]);

    let mut trace2: Vec<TraceEvent> = Vec::new();
    let allowed = registry.dispatch(
        ProcedureKind::Query,
        &String::from("whoami"),
        Value::Text(String::from("user")),
        Value::Int(1),
        &mut trace2,
    );
    assert_eq!(allowed, Ok(Outcome::Immediate(Value::Int(1))));
}

#[test]
fn envelope_mapping_unwraps_inward_and_rewraps_outward() {
    let mut registry = Registry::new();
    let r = base()
        .with(envelope(4))
        .mutation(Resolver::Increment)
        .build(String::from("incr"), &mut registry);
    assert_eq!(r, Ok(()));

    let mut trace: Vec<TraceEvent> = Vec::new();
    let res = registry.dispatch(
        ProcedureKind::Mutation,
        &String::from("incr"),
        Value::Null,
        Value::List(vec![Value::Text(String::from("meta")), Value::Int(41)]),
        &mut trace,
    );
    // The payload 41 flowed inward, the resolver produced 42, and the
    // mapping state "meta" was wrapped back around it on the way out.
    assert_eq!(
        res,
        Ok(Outcome::Immediate(Value::List(vec![
            Value::Text(String::from("meta")),
            Value::Int(42),
        ])))
    );

    // A malformed envelope never reaches the resolver.
    let mut trace2: Vec<TraceEvent> = Vec::new();
    let bad = registry.dispatch(
        ProcedureKind::Mutation,
        &String::from("incr"),
        Value::Null,
        Value::Int(41),
        &mut trace2,
    );
    assert_eq!(bad, Err(ExecError::ArgumentDecode));
    assert_eq!(trace2, vec![TraceEvent::Enter(4)]);
}

#[test]
fn composed_envelopes_round_trip_like_each_mapper_in_sequence() {
    let mut registry = Registry::new();
    let r = base()
        .with(envelope(1))
        .with(envelope(2))
        .query(Resolver::Echo)
        .build(String::from("echo"), &mut registry);
    assert_eq!(r, Ok(()));

    // Two nested envelopes: the outer mapper peels [a, ...], the inner
    // peels [b, payload]; Echo returns the payload, and the way out
    // rewraps in the opposite order, restoring the original value.
    let mut trace: Vec<TraceEvent> = Vec::new();
    let res = registry.dispatch(
        ProcedureKind::Query,
        &String::from("echo"),
        Value::Null,
        Value::List(vec![
            Value::Text(String::from("a")),
            Value::List(vec![Value::Text(String::from("b")), Value::Int(5)]),
        ]),
        &mut trace,
    );
    assert_eq!(
        res,
        Ok(Outcome::Immediate(Value::List(vec![
            Value::Text(String::from("a")),
            Value::List(vec![Value::Text(String::from("b")), Value::Int(5)]),
        ])))
    );
}

#[test]
fn merged_stacks_run_outer_then_inner() {
    let mut registry = Registry::new();
    let outer = AlphaProcedure::new_from_middleware(AlphaBaseMiddleware::new())
        .with(observe(1))
        .middleware;
    let inner = AlphaProcedure::new_from_middleware(AlphaBaseMiddleware::new())
        .with(observe(2))
        .middleware;
    let merged = MiddlewareMerger { middleware: outer, middleware2: inner };
    let r = AlphaProcedure::new_from_middleware(merged)
        .query(Resolver::Echo)
        .build(String::from("echo"), &mut registry);
    assert_eq!(r, Ok(()));

    let mut trace: Vec<TraceEvent> = Vec::new();
    let res = registry.dispatch(
        ProcedureKind::Query,
        &String::from("echo"),
        Value::Null,
        Value::Null,
        &mut trace,
    );
    assert_eq!(res, Ok(Outcome::Immediate(Value::Null)));
    assert_eq!(
        trace,
        vec![
            TraceEvent::Enter(1),
            TraceEvent::Enter(2),
            TraceEvent::Resolve(Resolver::Echo),
            TraceEvent::Exit(2),
            TraceEvent::Exit(1),
        ]
    );
}

#[test]
fn stacking_more_middleware_invalidates_the_resolver() {
    // `with` after attaching a resolver drops it: the procedure is back
    // in the staged state and needs a new resolver before it can build.
    let mut registry = Registry::new();
    let staged = base().query(Resolver::Greet).with(observe(1));
    let r = staged.query(Resolver::Echo).build(String::from("echo"), &mut registry);
    assert_eq!(r, Ok(()));

    let mut trace: Vec<TraceEvent> = Vec::new();
    let res = registry.dispatch(
        ProcedureKind::Query,
        &String::from("echo"),
        Value::Null,
        Value::Int(3),
        &mut trace,
    );
    assert_eq!(res, Ok(Outcome::Immediate(Value::Int(3))));
}
