//! Where a task runs: routing (workflow, handler) pairs to the gRPC
//! endpoint of the node that has the handler.
use vstd::prelude::*;

use crate::ids::{uuid_text, WorkflowId};
use crate::registry::{last_name_index, lemma_name_insert, name_insert, name_lookup, NameTable};

verus! {

/// Resolves a (workflow, handler) pair to the endpoint of the node that
/// should run it; `None` means "run locally".
pub trait TaskRouter {
    /// The endpoint (for example `http://127.0.0.1:50052`) of the node
    /// that should run the task, or `None` to run it here.
    fn route(&self, workflow_id: &WorkflowId, handler_name: &str) -> Option<String>;
}

/// A router that runs everything locally.
#[derive(Clone, Copy, Debug, Default)]
pub struct LocalOnlyTaskRouter;

impl TaskRouter for LocalOnlyTaskRouter {
    fn route(&self, workflow_id: &WorkflowId, handler_name: &str) -> (r: Option<String>)
        ensures
            r is None,
    {
        None
    }
}

/// The endpoint routed to for a workflow key and a handler name.
pub open spec fn route_of(
    routes: Seq<(String, NameTable<String>)>,
    workflow_key: Seq<char>,
    handler: Seq<char>,
) -> Option<Seq<char>> {
    match name_lookup(routes, workflow_key) {
        Some(t) => match name_lookup(t.entries@, handler) {
            Some(e) => Some(e@),
            None => None,
        },
        None => None,
    }
}

/// A router with a fixed table from (workflow, handler name) to endpoint.
/// Workflows are keyed by their UUID text.
#[derive(Debug)]
pub struct MapTaskRouter {
    routes: NameTable<NameTable<String>>,
}

impl MapTaskRouter {
    /// The endpoint routed to for a workflow key and a handler name.
    pub closed spec fn lookup(&self, workflow_key: Seq<char>, handler: Seq<char>) -> Option<Seq<char>> {
        route_of(self.routes.entries@, workflow_key, handler)
    }

    /// A router with no routes.
    pub fn new() -> (r: MapTaskRouter)
        ensures
            forall|w: Seq<char>, h: Seq<char>| #[trigger] r.lookup(w, h) is None,
    {
        MapTaskRouter { routes: NameTable::new() }
    }

    /// Routes handler `handler_name` of the workflow keyed `workflow_id`
    /// (its UUID text) to `endpoint`, replacing an earlier route of the
    /// pair.
    pub fn add_route(&mut self, workflow_id: &str, handler_name: &str, endpoint: &str)
        ensures
            final(self).lookup(workflow_id@, handler_name@) == Some(endpoint@),
            forall|w: Seq<char>, h: Seq<char>|
                (w != workflow_id@ || h != handler_name@) ==> #[trigger] final(self).lookup(w, h)
                    == old(self).lookup(w, h),
    {
        let key = workflow_id.to_owned();
        let ghost old_routes = self.routes.entries@;
        let mut table = match self.routes.get(&key) {
            Some(t) => copy_table(t),
            None => NameTable::new(),
        };
        let ghost old_table = table.entries@;
        let name = handler_name.to_owned();
        let ep = endpoint.to_owned();
        let ghost name_v = name;
        let ghost ep_v = ep;
        table.insert(name, ep);
        let ghost new_table = table;
        self.routes.insert(key, table);
        proof {
            lemma_name_insert(old_routes, key, new_table);
            lemma_name_insert(old_table, name_v, ep_v);
            assert forall|w: Seq<char>, h: Seq<char>|
                (w != workflow_id@ || h != handler_name@) implies #[trigger] route_of(self.routes.entries@, w, h)
                    == route_of(old_routes, w, h) by {
                if w == workflow_id@ {
                    assert(name_lookup(new_table.entries@, h) == name_lookup(old_table, h));
                    if name_lookup(old_routes, w) is None {
                        assert(last_name_index(old_table, h) is None);
                    }
                }
            }
        }
    }

    /// A router with the given routes, added in order.
    pub fn from_routes(routes: Vec<(WorkflowId, String, String)>) -> (r: MapTaskRouter)
        ensures
            forall|w: Seq<char>, h: Seq<char>|
                #[trigger] r.lookup(w, h) == routes_lookup(routes@, w, h),
    {
        let mut r = MapTaskRouter::new();
        for i in 0..routes.len()
            invariant
                forall|w: Seq<char>, h: Seq<char>|
                    #[trigger] r.lookup(w, h) == routes_lookup(routes@.take(i as int), w, h),
        {
            let key = routes[i].0.uuid_text();
            r.add_route(key.as_str(), routes[i].1.as_str(), routes[i].2.as_str());
            proof {
                assert(routes@.take(i + 1).drop_last() =~= routes@.take(i as int));
                assert(routes@.take(i + 1).last() == routes@[i as int]);
            }
        }
        proof {
            assert(routes@.take(routes@.len() as int) =~= routes@);
        }
        r
    }
}

/// The endpoint a list of routes gives a workflow key and handler: that of
/// the last route of the pair.
pub open spec fn routes_lookup(routes: Seq<(WorkflowId, String, String)>, w: Seq<char>, h: Seq<char>) -> Option<
    Seq<char>,
>
    decreases routes.len(),
{
    if routes.len() == 0 {
        None
    } else if uuid_text(routes.last().0.uuid) == w && routes.last().1@ == h {
        Some(routes.last().2@)
    } else {
        routes_lookup(routes.drop_last(), w, h)
    }
}

/// Routes given as a list and routes added one by one agree: one more route
/// at the end of the list answers its own (workflow, handler) pair with its
/// endpoint and leaves every other pair as the shorter list answered it,
/// which is what `MapTaskRouter::add_route` does to a router.
pub proof fn lemma_routes_lookup_push(
    routes: Seq<(WorkflowId, String, String)>,
    route: (WorkflowId, String, String),
    w: Seq<char>,
    h: Seq<char>,
)
    ensures
        routes_lookup(routes.push(route), w, h) == if uuid_text(route.0.uuid) == w && route.1@ == h {
            Some(route.2@)
        } else {
            routes_lookup(routes, w, h)
        },
{
    assert(routes.push(route).drop_last() =~= routes);
    assert(routes.push(route).last() == route);
}

impl TaskRouter for MapTaskRouter {
    fn route(&self, workflow_id: &WorkflowId, handler_name: &str) -> (r: Option<String>)
        ensures
            match r {
                Some(e) => self.lookup(uuid_text(workflow_id.uuid), handler_name@) == Some(e@),
                None => self.lookup(uuid_text(workflow_id.uuid), handler_name@) is None,
            },
    {
        let key = workflow_id.uuid_text();
        match self.routes.get(&key) {
            Some(t) => match t.get(&handler_name.to_owned()) {
                Some(e) => Some(e.clone()),
                None => None,
            },
            None => None,
        }
    }
}

/// A copy of a table of strings.
fn copy_table(t: &NameTable<String>) -> (r: NameTable<String>)
    ensures
        r.entries@ == t.entries@,
{
    let mut r: NameTable<String> = NameTable::new();
    for i in 0..t.entries.len()
        invariant
            r.entries@ == t.entries@.take(i as int),
    {
        r.entries.push((t.entries[i].0.clone(), t.entries[i].1.clone()));
        proof {
            assert(t.entries@.take(i + 1) =~= t.entries@.take(i as int).push(t.entries@[i as int]));
        }
    }
    proof {
        assert(t.entries@.take(t.entries@.len() as int) =~= t.entries@);
    }
    r
}

/// Runs tasks on other nodes through their gRPC endpoint, giving each call
/// `timeout` to answer.
#[derive(Clone, Copy, Debug)]
pub struct ClientRunTaskCaller {
    pub timeout: std::time::Duration,
}

/// The span of `secs` whole seconds, as `std::time::Duration` holds it.
pub uninterp spec fn seconds(secs: u64) -> std::time::Duration;

/// `std::time::Duration::from_secs`: the span of `secs` whole seconds. Verus
/// sees a `Duration` as an opaque value; the contract names the result by
/// `seconds`, a function of `secs` alone, and says no more of it.
#[verifier::external_body]
fn duration_from_secs(secs: u64) -> (d: std::time::Duration)
    ensures
        d == seconds(secs),
{
    std::time::Duration::from_secs(secs)
}

impl ClientRunTaskCaller {
    /// A caller that gives each call `timeout`.
    pub fn new(timeout: std::time::Duration) -> (c: ClientRunTaskCaller)
        ensures
            c.timeout == timeout,
    {
        ClientRunTaskCaller { timeout }
    }

    /// A caller that gives each call sixty seconds.
    pub fn default_timeout() -> (c: ClientRunTaskCaller)
        ensures
            c.timeout == seconds(60),
    {
        Self::new(duration_from_secs(60))
    }
}

} // verus!
