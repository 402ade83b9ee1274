//! The procedure registry: three independent key namespaces (query,
//! mutation, subscription), each mapping a unique string key to a built
//! layer chain. Registration happens once at configuration time and
//! fails there on a duplicate key or a kind-inconsistent resolver;
//! dispatch happens per request and never mutates the registry.

use vstd::prelude::*;

use crate::builder::{AlphaMiddlewareBuilderLike, AlphaProcedure};
use crate::layer::{pipeline_spec, AlphaResolverLayer, BuiltLayer, TraceEvent};
use crate::middleware::Middleware;
use crate::request::{ConfigError, ExecError, ProcedureKind, RequestContext};
use crate::resolver::{outcome_of, Outcome, OutcomeModel, Resolver};
use crate::value::{val_of, Value};

verus! {

/// The mapping a list of (key, layer) entries stands for: each key to
/// the middleware stack and resolver of its chain. Later entries win,
/// but registration keeps keys distinct, so no entry is ever shadowed.
pub open spec fn entries_map(entries: Seq<(String, BuiltLayer)>) -> Map<
    Seq<char>,
    (Seq<Middleware>, Resolver),
>
    decreases entries.len(),
{
    if entries.len() == 0 {
        Map::empty()
    } else {
        entries_map(entries.drop_last()).insert(
            entries.last().0@,
            (entries.last().1.mws(), entries.last().1.terminal()),
        )
    }
}

/// No two entries share a key.
pub open spec fn distinct_keys(entries: Seq<(String, BuiltLayer)>) -> bool {
    forall|i: int, j: int|
        0 <= i < j < entries.len() ==> entries[i].0@ != entries[j].0@
}

/// A key no entry holds is not in the map.
pub proof fn lemma_entries_map_absent(entries: Seq<(String, BuiltLayer)>, k: Seq<char>)
    requires
        forall|i: int| 0 <= i < entries.len() ==> #[trigger] entries[i].0@ != k,
    ensures
        !entries_map(entries).contains_key(k),
    decreases entries.len(),
{
    if entries.len() > 0 {
        assert(forall|i: int|
            0 <= i < entries.len() - 1 ==> #[trigger] entries.drop_last()[i] == entries[i]);
        lemma_entries_map_absent(entries.drop_last(), k);
        assert(entries[entries.len() - 1].0@ != k);
    }
}

/// With distinct keys, each entry's key is in the map and maps to that
/// entry's stack and resolver.
pub proof fn lemma_entries_map_present(entries: Seq<(String, BuiltLayer)>, i: int)
    requires
        distinct_keys(entries),
        0 <= i < entries.len(),
    ensures
        entries_map(entries).contains_key(entries[i].0@),
        entries_map(entries)[entries[i].0@] == (entries[i].1.mws(), entries[i].1.terminal()),
    decreases entries.len(),
{
    assert(entries[entries.len() - 1] == entries.last());
    if i < entries.len() - 1 {
        assert(forall|j: int|
            0 <= j < entries.len() - 1 ==> #[trigger] entries.drop_last()[j] == entries[j]);
        lemma_entries_map_present(entries.drop_last(), i);
        assert(entries[i].0@ != entries.last().0@);
    }
}

/// The procedure registry.
pub struct Registry {
    queries: Vec<(String, BuiltLayer)>,
    mutations: Vec<(String, BuiltLayer)>,
    subscriptions: Vec<(String, BuiltLayer)>,
}

impl Registry {
    /// The entry list for one kind.
    closed spec fn entries(&self, kind: ProcedureKind) -> Seq<(String, BuiltLayer)> {
        match kind {
            ProcedureKind::Query => self.queries@,
            ProcedureKind::Mutation => self.mutations@,
            ProcedureKind::Subscription => self.subscriptions@,
        }
    }

    /// The keys registered under `kind`, each mapped to the middleware
    /// stack and resolver of its chain.
    pub closed spec fn table(&self, kind: ProcedureKind) -> Map<
        Seq<char>,
        (Seq<Middleware>, Resolver),
    > {
        entries_map(self.entries(kind))
    }

    /// Well-formed: keys are unique within each kind, and every stored
    /// chain's result shape fits its kind (queries and mutations end in
    /// value resolvers, subscriptions in stream resolvers).
    pub closed spec fn wf(&self) -> bool {
        &&& distinct_keys(self.queries@)
        &&& distinct_keys(self.mutations@)
        &&& distinct_keys(self.subscriptions@)
        &&& (forall|i: int|
            0 <= i < self.queries@.len() ==> !(#[trigger] self.queries@[i].1.terminal()).is_stream())
        &&& (forall|i: int|
            0 <= i < self.mutations@.len() ==> !(
            #[trigger] self.mutations@[i].1.terminal()).is_stream())
        &&& (forall|i: int|
            0 <= i < self.subscriptions@.len() ==> (
            #[trigger] self.subscriptions@[i].1.terminal()).is_stream())
    }

    /// An empty registry.
    pub fn new() -> (r: Registry)
        ensures
            r.wf(),
            forall|kind: ProcedureKind| #[trigger] r.table(kind) == Map::<
                Seq<char>,
                (Seq<Middleware>, Resolver),
            >::empty(),
    {
        Registry { queries: Vec::new(), mutations: Vec::new(), subscriptions: Vec::new() }
    }

    /// Registers a built chain under (kind, key). Fails at configuration
    /// time — before any dispatch can see the entry — with
    /// `DuplicateKey` if the key is taken in this kind's namespace, and
    /// with `KindMismatch` if the chain's result shape does not fit the
    /// kind; on failure the registry is unchanged.
    pub fn register(&mut self, kind: ProcedureKind, key: String, layer: BuiltLayer) -> (r: Result<
        (),
        ConfigError,
    >)
        requires
            old(self).wf(),
        ensures
            final(self).wf(),
            old(self).table(kind).contains_key(key@) ==> r == Err::<(), _>(
                ConfigError::DuplicateKey,
            ),
            !old(self).table(kind).contains_key(key@) && layer.terminal().is_stream() != (kind
                == ProcedureKind::Subscription) ==> r == Err::<(), _>(ConfigError::KindMismatch),
            !old(self).table(kind).contains_key(key@) && layer.terminal().is_stream() == (kind
                == ProcedureKind::Subscription) ==> r == Ok::<_, ConfigError>(())
                && final(self).table(kind) == old(self).table(kind).insert(
                key@,
                (layer.mws(), layer.terminal()),
            ),
            forall|k2: ProcedureKind|
                k2 != kind || r is Err ==> #[trigger] final(self).table(k2) == old(self).table(k2),
    {
        match kind {
            ProcedureKind::Query => register_entries(&mut self.queries, key, layer, false),
            ProcedureKind::Mutation => register_entries(&mut self.mutations, key, layer, false),
            ProcedureKind::Subscription => register_entries(
                &mut self.subscriptions,
                key,
                layer,
                true,
            ),
        }
    }

    /// Looks the procedure up by (kind, key) and invokes its chain with
    /// the given context, argument value and per-request metadata,
    /// returning its result unchanged and appending the call's trace.
    /// An unregistered key yields `NotFound` and leaves no trace; the
    /// registry itself is never mutated by dispatch.
    pub fn dispatch(
        &self,
        kind: ProcedureKind,
        key: &String,
        ctx: Value,
        arg: Value,
        trace: &mut Vec<TraceEvent>,
    ) -> (res: Result<Outcome, ExecError>)
        requires
            self.wf(),
        ensures
            !self.table(kind).contains_key(key@) ==> res == Err::<Outcome, _>(ExecError::NotFound)
                && final(trace)@ == old(trace)@,
            self.table(kind).contains_key(key@) ==> ({
                let entry = self.table(kind)[key@];
                let s = pipeline_spec(entry.0, entry.1, val_of(ctx), val_of(arg));
                &&& (match res {
                    Ok(o) => s.0 == Ok::<_, ExecError>(outcome_of(o)),
                    Err(e) => s.0 == Err::<OutcomeModel, _>(e),
                })
                &&& final(trace)@ == old(trace)@ + s.1
            }),
    {
        let entries = match kind {
            ProcedureKind::Query => &self.queries,
            ProcedureKind::Mutation => &self.mutations,
            ProcedureKind::Subscription => &self.subscriptions,
        };
        match find_entry(entries, key) {
            None => {
                proof {
                    lemma_entries_map_absent(entries@, key@);
                }
                Err(ExecError::NotFound)
            },
            Some(i) => {
                proof {
                    lemma_entries_map_present(entries@, i as int);
                }
                let layer = &entries[i].1;
                layer.call(ctx, arg, RequestContext { kind }, trace)
            },
        }
    }
}

/// Appends (key, layer) to one kind's entry list, rejecting a duplicate
/// key or a resolver shape other than `expect_stream`.
fn register_entries(
    entries: &mut Vec<(String, BuiltLayer)>,
    key: String,
    layer: BuiltLayer,
    expect_stream: bool,
) -> (r: Result<(), ConfigError>)
    requires
        distinct_keys(old(entries)@),
        forall|i: int|
            0 <= i < old(entries)@.len() ==> (#[trigger] old(entries)@[i].1.terminal()).is_stream()
                == expect_stream,
    ensures
        distinct_keys(final(entries)@),
        forall|i: int|
            0 <= i < final(entries)@.len() ==> (
            #[trigger] final(entries)@[i].1.terminal()).is_stream() == expect_stream,
        entries_map(old(entries)@).contains_key(key@) ==> r == Err::<(), _>(
            ConfigError::DuplicateKey,
        ) && final(entries)@ == old(entries)@,
        !entries_map(old(entries)@).contains_key(key@) && layer.terminal().is_stream()
            != expect_stream ==> r == Err::<(), _>(ConfigError::KindMismatch) && final(entries)@
            == old(entries)@,
        !entries_map(old(entries)@).contains_key(key@) && layer.terminal().is_stream()
            == expect_stream ==> r == Ok::<_, ConfigError>(()) && entries_map(final(entries)@)
            == entries_map(old(entries)@).insert(key@, (layer.mws(), layer.terminal())),
{
    match find_entry(entries, &key) {
        Some(i) => {
            proof {
                lemma_entries_map_present(entries@, i as int);
            }
            Err(ConfigError::DuplicateKey)
        },
        None => {
            proof {
                lemma_entries_map_absent(entries@, key@);
            }
            if layer.terminal_is_stream() != expect_stream {
                Err(ConfigError::KindMismatch)
            } else {
                let ghost before = entries@;
                entries.push((key, layer));
                proof {
                    assert(entries@.drop_last() =~= before);
                    assert(forall|i: int|
                        0 <= i < before.len() ==> #[trigger] entries@[i] == before[i]);
                }
                Ok(())
            }
        },
    }
}

/// Linear scan for the entry holding this key.
fn find_entry(entries: &Vec<(String, BuiltLayer)>, key: &String) -> (idx: Option<usize>)
    ensures
        match idx {
            Some(i) => i < entries@.len() && entries@[i as int].0@ == key@,
            None => forall|i: int| 0 <= i < entries@.len() ==> #[trigger] entries@[i].0@ != key@,
        },
{
    let n = entries.len();
    let mut i: usize = 0;
    while i < n
        invariant
            n == entries@.len(),
            i <= n,
            forall|j: int| 0 <= j < i ==> #[trigger] entries@[j].0@ != key@,
        decreases n - i,
    {
        if entries[i].0 == *key {
            return Some(i);
        }
        i = i + 1;
    }
    None
}

impl BuiltLayer {
    /// Whether the chain ends in a stream-producing resolver.
    pub fn terminal_is_stream(&self) -> (b: bool)
        ensures
            b == self.terminal().is_stream(),
        decreases *self,
    {
        match self {
            BuiltLayer::Resolver(rl) => rl.resolver.produces_stream(),
            BuiltLayer::Middleware(ml) => ml.next.terminal_is_stream(),
        }
    }
}

impl<TMiddleware> AlphaProcedure<Resolver, TMiddleware> where
    TMiddleware: AlphaMiddlewareBuilderLike,
 {
    /// Composes the middleware stack around the resolver terminal and
    /// registers the chain under `key` for this procedure's kind.
    pub fn build(self, key: String, registry: &mut Registry) -> (r: Result<(), ConfigError>)
        requires
            old(registry).wf(),
        ensures
            final(registry).wf(),
            old(registry).table(self.kind).contains_key(key@) ==> r == Err::<(), _>(
                ConfigError::DuplicateKey,
            ),
            !old(registry).table(self.kind).contains_key(key@) && self.resolver.is_stream() != (
            self.kind == ProcedureKind::Subscription) ==> r == Err::<(), _>(
                ConfigError::KindMismatch,
            ),
            !old(registry).table(self.kind).contains_key(key@) && self.resolver.is_stream() == (
            self.kind == ProcedureKind::Subscription) ==> r == Ok::<_, ConfigError>(())
                && final(registry).table(self.kind) == old(registry).table(self.kind).insert(
                key@,
                (self.middleware.stack(), self.resolver),
            ),
            forall|k2: ProcedureKind|
                k2 != self.kind || r is Err ==> #[trigger] final(registry).table(k2) == old(
                    registry,
                ).table(k2),
    {
        let ghost gself = self;
        let kind = self.kind;
        let layer = self.middleware.build(
            BuiltLayer::Resolver(AlphaResolverLayer { resolver: self.resolver }),
        );
        proof {
            assert(layer.mws() =~= gself.middleware.stack());
        }
        registry.register(kind, key, layer)
    }
}

} // verus!
