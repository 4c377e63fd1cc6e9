//! The server's lifecycle: binding every host address in order, then serving
//! on all listeners until the first one finishes.
//!
//! Binding and serving are network work that the caller performs. This module
//! decides what happens between those steps: which address is bound next, when
//! setup is complete or has failed, and what the whole server reports once one
//! of its listeners has finished.
use vstd::prelude::*;

use crate::address::HostAddr;

verus! {

/// Params defining where the server listens.
pub struct ChronikServerParams {
    /// Host addresses (IP and port) to listen on, in order.
    pub hosts: Vec<HostAddr>,
}

/// Errors of setting up or serving a [`ChronikServer`].
#[derive(Debug, PartialEq, Eq)]
pub enum ChronikServerError {
    /// Binding to a host address failed, with the reason given by the system.
    FailedBindingAddress(HostAddr, String),
    /// Serving failed, with the reason given by the listener that finished.
    ServingFailed(String),
    /// No host address was given, so there is nothing to listen on.
    NoHostsConfigured,
}

/// A listener that was bound, tagged with the address it was bound on.
pub struct BoundListener<L> {
    /// The address the listener was bound on.
    pub host: HostAddr,
    /// The listener itself.
    pub listener: L,
}

/// What setup makes of the given hosts when the bind of `hosts[i]` gives
/// `outcomes[i]`: the listeners in the order of their hosts, or the error of
/// the first host that could not be bound.
pub open spec fn setup_result<L>(
    hosts: Seq<HostAddr>,
    outcomes: Seq<Result<L, String>>,
) -> Result<Seq<BoundListener<L>>, ChronikServerError>
    decreases hosts.len(),
{
    if hosts.len() == 0 {
        Ok(Seq::empty())
    } else {
        let k = hosts.len() - 1;
        match setup_result(hosts.drop_last(), outcomes) {
            Err(e) => Err(e),
            Ok(prev) => match outcomes[k] {
                Ok(l) => Ok(prev.push(BoundListener { host: hosts[k], listener: l })),
                Err(d) => Err(ChronikServerError::FailedBindingAddress(hosts[k], d)),
            },
        }
    }
}

/// `setup_result` reads only the outcomes of the hosts it is given.
proof fn lemma_setup_result_reads_prefix<L>(
    hosts: Seq<HostAddr>,
    a: Seq<Result<L, String>>,
    b: Seq<Result<L, String>>,
)
    requires
        forall|i: int| 0 <= i < hosts.len() ==> a[i] == b[i],
    ensures
        setup_result(hosts, a) == setup_result(hosts, b),
    decreases hosts.len(),
{
    if hosts.len() > 0 {
        lemma_setup_result_reads_prefix(hosts.drop_last(), a, b);
    }
}

/// A server whose host addresses are being bound, one at a time and in order.
///
/// The caller binds the address that [`ServerBinder::next_host`] names and
/// hands the outcome to [`ServerBinder::record_bind`], until setup is ready
/// or has failed.
pub struct ServerBinder<L> {
    hosts: Vec<HostAddr>,
    bound: Vec<BoundListener<L>>,
    outcomes: Ghost<Seq<Result<L, String>>>,
}

/// Where setup stands after one more bind.
pub enum BindProgress<L> {
    /// More addresses remain to be bound.
    Pending(ServerBinder<L>),
    /// Every address is bound: the server is ready to serve.
    Ready(ChronikServer<L>),
    /// An address could not be bound: setup has failed, and no later address
    /// is to be bound.
    Failed(ChronikServerError),
}

impl<L> ServerBinder<L> {
    /// The host addresses to bind, in order.
    pub closed spec fn hosts(&self) -> Seq<HostAddr> {
        self.hosts@
    }

    /// The listeners bound so far, one per host at the front of `hosts()`.
    pub closed spec fn bound(&self) -> Seq<BoundListener<L>> {
        self.bound@
    }

    /// The outcomes of the binds so far, in order.
    pub closed spec fn outcomes(&self) -> Seq<Result<L, String>> {
        self.outcomes@
    }

    /// At least one address is left to bind, and what was bound so far is
    /// what setup makes of the first hosts and their outcomes.
    pub closed spec fn wf(&self) -> bool {
        &&& self.bound@.len() < self.hosts@.len()
        &&& self.outcomes@.len() == self.bound@.len()
        &&& setup_result(self.hosts@.take(self.bound@.len() as int), self.outcomes@) == Ok::<
            Seq<BoundListener<L>>,
            ChronikServerError,
        >(self.bound@)
    }

    /// The host address to bind next.
    pub fn next_host(&self) -> (r: HostAddr)
        requires
            self.wf(),
        ensures
            r == self.hosts()[self.bound().len() as int],
    {
        self.hosts[self.bound.len()]
    }

    /// Records the outcome of binding [`ServerBinder::next_host`]: the
    /// listener, or the reason the bind failed.
    pub fn record_bind(self, outcome: Result<L, String>) -> (r: BindProgress<L>)
        requires
            self.wf(),
        ensures
            ({
                let k = self.bound().len() as int;
                let host = self.hosts()[k];
                let outcomes = self.outcomes().push(outcome);
                &&& (r is Failed <==> outcome is Err)
                &&& (r is Ready <==> (outcome is Ok && k + 1 == self.hosts().len()))
                &&& match r {
                    BindProgress::Pending(b) => {
                        &&& b.wf()
                        &&& b.hosts() == self.hosts()
                        &&& b.bound() == self.bound().push(
                            BoundListener { host, listener: outcome->Ok_0 },
                        )
                        &&& b.outcomes() == outcomes
                    },
                    BindProgress::Ready(s) => {
                        &&& s.wf()
                        &&& s.listeners() == self.bound().push(
                            BoundListener { host, listener: outcome->Ok_0 },
                        )
                        &&& setup_result(self.hosts(), outcomes) == Ok::<
                            Seq<BoundListener<L>>,
                            ChronikServerError,
                        >(s.listeners())
                    },
                    BindProgress::Failed(e) => {
                        &&& e == ChronikServerError::FailedBindingAddress(host, outcome->Err_0)
                        &&& setup_result(self.hosts().take(k + 1), outcomes) == Err::<
                            Seq<BoundListener<L>>,
                            ChronikServerError,
                        >(e)
                    },
                }
            }),
    {
        let ServerBinder { hosts, mut bound, outcomes } = self;
        let k = bound.len();
        let host = hosts[k];
        let ghost old_outcomes = outcomes@;
        let ghost new_outcomes = old_outcomes.push(outcome);
        proof {
            lemma_setup_result_reads_prefix(hosts@.take(k as int), old_outcomes, new_outcomes);
            assert(hosts@.take(k + 1).drop_last() =~= hosts@.take(k as int));
        }
        match outcome {
            Err(detail) => BindProgress::Failed(
                ChronikServerError::FailedBindingAddress(host, detail),
            ),
            Ok(listener) => {
                bound.push(BoundListener { host, listener });
                if bound.len() == hosts.len() {
                    proof {
                        assert(hosts@.take(k + 1) =~= hosts@);
                    }
                    BindProgress::Ready(ChronikServer { listeners: bound })
                } else {
                    BindProgress::Pending(
                        ServerBinder { hosts, bound, outcomes: Ghost(new_outcomes) },
                    )
                }
            },
        }
    }
}

/// A server bound on all its host addresses, ready to serve.
///
/// It can be served once: [`ChronikServer::serve`] consumes it.
pub struct ChronikServer<L> {
    listeners: Vec<BoundListener<L>>,
}

impl<L> ChronikServer<L> {
    /// The bound listeners, in the order of their host addresses.
    pub closed spec fn listeners(&self) -> Seq<BoundListener<L>> {
        self.listeners@
    }

    /// A server has at least one listener.
    pub closed spec fn wf(&self) -> bool {
        self.listeners@.len() > 0
    }

    /// Starts binding the server on the hosts of `params`.
    ///
    /// An empty list of hosts is rejected, since a server without a listener
    /// would have nothing to serve.
    pub fn setup(params: ChronikServerParams) -> (r: Result<ServerBinder<L>, ChronikServerError>)
        ensures
            r is Ok <==> params.hosts@.len() > 0,
            r is Err ==> r == Err::<ServerBinder<L>, ChronikServerError>(
                ChronikServerError::NoHostsConfigured,
            ),
            r matches Ok(b) ==> {
                &&& b.wf()
                &&& b.hosts() == params.hosts@
                &&& b.bound().len() == 0
                &&& b.outcomes().len() == 0
            },
    {
        if params.hosts.len() == 0 {
            return Err(ChronikServerError::NoHostsConfigured);
        }
        let b = ServerBinder { hosts: params.hosts, bound: Vec::new(), outcomes: Ghost(Seq::empty()) };
        proof {
            assert(b.hosts@.take(0) =~= Seq::<HostAddr>::empty());
        }
        Ok(b)
    }

    /// Serves the server: hands out its listeners, each to be run by its own
    /// serving loop, and the group that decides the outcome once the first of
    /// those loops has finished. The server is consumed, so it is served once.
    pub fn serve(self) -> (r: (ServingGroup, Vec<BoundListener<L>>))
        requires
            self.wf(),
        ensures
            r.0.wf(),
            r.1@ == self.listeners(),
            r.0.hosts().len() == r.1@.len(),
            forall|i: int| 0 <= i < r.1@.len() ==> r.0.hosts()[i] == r.1@[i].host,
    {
        let ChronikServer { listeners } = self;
        let mut hosts: Vec<HostAddr> = Vec::new();
        let mut i: usize = 0;
        while i < listeners.len()
            invariant
                i <= listeners@.len(),
                hosts@.len() == i,
                forall|j: int| 0 <= j < i ==> hosts@[j] == listeners@[j].host,
            decreases listeners@.len() - i,
        {
            hosts.push(listeners[i].host);
            i = i + 1;
        }
        (ServingGroup { hosts }, listeners)
    }
}

/// What the server reports once the serving loop of one of its listeners has
/// finished: the loop's own error as `ServingFailed`, or success.
pub open spec fn serve_result(outcome: Result<(), String>) -> Result<(), ChronikServerError> {
    match outcome {
        Ok(()) => Ok(()),
        Err(detail) => Err(ChronikServerError::ServingFailed(detail)),
    }
}

/// The listeners of a server being served, each run by its own loop.
///
/// The first loop to finish ends the whole group; the others are abandoned.
pub struct ServingGroup {
    hosts: Vec<HostAddr>,
}

impl ServingGroup {
    /// The host addresses of the listeners being served, in order.
    pub closed spec fn hosts(&self) -> Seq<HostAddr> {
        self.hosts@
    }

    /// A group serves at least one listener.
    pub closed spec fn wf(&self) -> bool {
        self.hosts@.len() > 0
    }

    /// The number of listeners being served.
    pub fn len(&self) -> (r: usize)
        ensures
            r == self.hosts().len(),
    {
        self.hosts.len()
    }

    /// The host address of the listener at `index`.
    pub fn host(&self, index: usize) -> (r: HostAddr)
        requires
            index < self.hosts().len(),
        ensures
            r == self.hosts()[index as int],
    {
        self.hosts[index]
    }

    /// Ends the group on the first loop to finish, the loop of the listener
    /// at `index`, which finished with `outcome`. What the other loops are
    /// doing has no part in the result.
    pub fn first_completed(self, index: usize, outcome: Result<(), String>) -> (r: Result<
        (),
        ChronikServerError,
    >)
        requires
            self.wf(),
            index < self.hosts().len(),
        ensures
            r == serve_result(outcome),
    {
        match outcome {
            Ok(()) => Ok(()),
            Err(detail) => Err(ChronikServerError::ServingFailed(detail)),
        }
    }
}

/// When every host binds, setup yields exactly one listener per host, in the
/// order of the hosts, each the listener that its bind produced.
pub proof fn lemma_all_bindable_one_listener_each<L>(
    hosts: Seq<HostAddr>,
    outcomes: Seq<Result<L, String>>,
)
    requires
        outcomes.len() == hosts.len(),
        forall|i: int| 0 <= i < outcomes.len() ==> outcomes[i] is Ok,
    ensures
        setup_result(hosts, outcomes) is Ok,
        setup_result(hosts, outcomes)->Ok_0.len() == hosts.len(),
        forall|i: int|
            0 <= i < hosts.len() ==> setup_result(hosts, outcomes)->Ok_0[i] == (BoundListener {
                host: hosts[i],
                listener: outcomes[i]->Ok_0,
            }),
    decreases hosts.len(),
{
    if hosts.len() > 0 {
        let k = hosts.len() - 1;
        let shorter = outcomes.take(k);
        lemma_setup_result_reads_prefix(hosts.drop_last(), outcomes, shorter);
        lemma_all_bindable_one_listener_each(hosts.drop_last(), shorter);
    }
}

/// When the host at `i` cannot be bound and every host before it can, setup
/// fails naming that host and its reason, whatever the hosts after it would
/// do: the result is settled by the first `i + 1` binds.
pub proof fn lemma_first_unbindable_reported<L>(
    hosts: Seq<HostAddr>,
    outcomes: Seq<Result<L, String>>,
    i: int,
)
    requires
        outcomes.len() == hosts.len(),
        0 <= i < hosts.len(),
        outcomes[i] is Err,
        forall|j: int| 0 <= j < i ==> outcomes[j] is Ok,
    ensures
        setup_result(hosts, outcomes) == Err::<Seq<BoundListener<L>>, ChronikServerError>(
            ChronikServerError::FailedBindingAddress(hosts[i], outcomes[i]->Err_0),
        ),
        setup_result(hosts.take(i + 1), outcomes.take(i + 1)) == setup_result(hosts, outcomes),
    decreases hosts.len(),
{
    let k = hosts.len() - 1;
    if k == i {
        lemma_all_bindable_one_listener_each(hosts.drop_last(), outcomes.take(k));
        lemma_setup_result_reads_prefix(hosts.drop_last(), outcomes, outcomes.take(k));
        assert(hosts.take(i + 1) =~= hosts);
        assert(outcomes.take(i + 1) =~= outcomes);
    } else {
        let shorter = outcomes.take(k);
        lemma_setup_result_reads_prefix(hosts.drop_last(), outcomes, shorter);
        lemma_first_unbindable_reported(hosts.drop_last(), shorter, i);
        assert(hosts.drop_last().take(i + 1) =~= hosts.take(i + 1));
        assert(shorter.take(i + 1) =~= outcomes.take(i + 1));
    }
}

} // verus!
