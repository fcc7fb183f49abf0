use vstd::prelude::*;

verus! {

/// Spreads requests over a fixed list of worker hosts, one after the other.
#[derive(Clone, Debug)]
pub struct LoadBalancer {
    pub worker_hosts: Vec<String>,
    current_worker: usize,
}

/// What a balancer is, seen from outside: its worker hosts, in order, and the
/// position of the one that the next request goes to.
pub struct BalancerView {
    pub workers: Seq<Seq<char>>,
    pub next: int,
}

impl View for LoadBalancer {
    type V = BalancerView;

    closed spec fn view(&self) -> BalancerView {
        BalancerView {
            workers: self.worker_hosts@.map_values(|h: String| h@),
            next: self.current_worker as int,
        }
    }
}

impl BalancerView {
    /// There is at least one worker, and the next position lies in the list.
    pub open spec fn wf(self) -> bool {
        &&& self.workers.len() > 0
        &&& 0 <= self.next < self.workers.len()
    }

    /// The state after one request has been handed out: the same workers,
    /// and the position one further on, back to the first after the last.
    pub open spec fn advance(self) -> BalancerView {
        BalancerView { workers: self.workers, next: (self.next + 1) % (self.workers.len() as int) }
    }

    /// The worker that the next request goes to.
    pub open spec fn chosen(self) -> Seq<char> {
        self.workers[self.next]
    }
}

/// The target of every request that goes out to a worker.
pub const FORWARD_URI: &'static str = "https://example.com/";

/// The request that goes out to a worker for one that came in. It carries no
/// body: the body of the incoming request is not passed on.
pub struct Forward {
    /// The worker host to connect to.
    pub worker: String,
    /// The method of the request, the same as that of the incoming one.
    pub method: String,
    /// The target of the request: always `FORWARD_URI`.
    pub uri: String,
}

/// The answer given back to the client for a forwarded request.
pub struct Reply {
    pub status: u16,
    pub body: Vec<u8>,
}

/// The answer to the client once the worker has answered: status 200 and
/// the worker's body as it came, whatever status the worker gave.
pub fn relay_reply(worker_body: Vec<u8>) -> (reply: Reply)
    ensures
        reply.status == 200,
        reply.body@ == worker_body@,
{
    Reply { status: 200, body: worker_body }
}

impl LoadBalancer {
    /// Builds a balancer over `worker_hosts`, starting with the first one.
    /// An empty list is refused.
    pub fn new(worker_hosts: Vec<String>) -> (res: Result<Self, String>)
        ensures
            worker_hosts.len() == 0 <==> res is Err,
            res matches Err(msg) ==> msg@ == "No worker hosts provided"@,
            res matches Ok(lb) ==> {
                &&& lb@.wf()
                &&& lb@.workers == worker_hosts@.map_values(|h: String| h@)
                &&& lb@.next == 0
            },
    {
        if worker_hosts.len() == 0 {
            return Err(String::from_str("No worker hosts provided"));
        }
        Ok(LoadBalancer { worker_hosts, current_worker: 0 })
    }

    /// Whether the balancer can hand out a worker: its list of hosts is not
    /// empty and its next position lies in the list. This holds of every
    /// balancer that `new` gives and that only its methods have changed.
    pub fn has_workers(&self) -> (ready: bool)
        ensures
            ready == self@.wf(),
    {
        self.worker_hosts.len() > 0 && self.current_worker < self.worker_hosts.len()
    }

    /// Hands out the next worker host and moves on to the one after it,
    /// wrapping round at the end of the list.
    pub fn get_worker(&mut self) -> (worker: &str)
        requires
            old(self)@.wf(),
        ensures
            final(self)@ == old(self)@.advance(),
            final(self)@.wf(),
            worker@ == old(self)@.chosen(),
    {
        let n = self.worker_hosts.len();
        let i = self.current_worker;
        self.current_worker = (i + 1) % n;
        self.worker_hosts[i].as_str()
    }

    /// Decides where an incoming request with the method `method` goes: to
    /// the next worker in turn, with the same method, at `FORWARD_URI`.
    /// The balancer moves on as `get_worker` does.
    pub fn prepare_forward(&mut self, method: String) -> (fwd: Forward)
        requires
            old(self)@.wf(),
        ensures
            final(self)@ == old(self)@.advance(),
            final(self)@.wf(),
            fwd.worker@ == old(self)@.chosen(),
            fwd.method == method,
            fwd.uri@ == FORWARD_URI@,
    {
        let worker = self.get_worker().to_owned();
        Forward { worker, method, uri: String::from_str(FORWARD_URI) }
    }
}

} // verus!
