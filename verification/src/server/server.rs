//! The server: the router under its root, the queues it listens on, and
//! what its dispatch loop decides.

use crate::path::{dot_free, split_dots};
use crate::protocol::IncomingRequest;
use crate::server::module::Module;
use crate::server::work_runner::WorkRunner;
use crate::util::same_text;
use vstd::prelude::*;
use vstd::string::{StrSliceExecFns, StringExecFns};

verus! {

/// What stands before a command in the key of its queue.
pub const QUEUE_PREFIX: &'static str = "msgbus.";

/// Seconds to wait after the broker failed, before it is asked again.
pub const RETRY_DELAY: u64 = 2;

/// The key of the queue on which the requests for the command `path`
/// arrive.
pub open spec fn queue_key(path: Seq<char>) -> Seq<char> {
    QUEUE_PREFIX@ + path
}

/// The command whose requests arrive on the queue `key`; empty if the key
/// is not that of a command's queue.
pub open spec fn command_of(key: Seq<char>) -> Seq<char> {
    if QUEUE_PREFIX@.is_prefix_of(key) {
        key.skip(QUEUE_PREFIX@.len() as int)
    } else {
        Seq::empty()
    }
}

/// The command of a command's queue is that command.
pub proof fn lemma_command_of_key(path: Seq<char>)
    ensures
        QUEUE_PREFIX@.is_prefix_of(queue_key(path)),
        command_of(queue_key(path)) == path,
{
    let key = queue_key(path);
    let n = QUEUE_PREFIX@.len() as int;
    assert(key.subrange(0, n) =~= QUEUE_PREFIX@);
    assert(key.skip(n) =~= path);
}

/// A key that bears the prefix is the key of its command's queue.
pub proof fn lemma_key_of_command(key: Seq<char>)
    requires
        QUEUE_PREFIX@.is_prefix_of(key),
    ensures
        queue_key(command_of(key)) == key,
{
    let n = QUEUE_PREFIX@.len() as int;
    assert(key.subrange(0, n) + key.skip(n) =~= key);
}

/// The key of the queue on which the requests for the command `path`
/// arrive.
pub fn key(path: &str) -> (key: String)
    ensures
        key@ == queue_key(path@),
{
    QUEUE_PREFIX.to_owned().concat(path)
}

/// The command whose requests arrive on the queue `key`; empty if the key
/// is not that of a command's queue.
pub fn command(key: &str) -> (command: String)
    ensures
        command@ == command_of(key@),
{
    let n = key.unicode_len();
    let m = QUEUE_PREFIX.unicode_len();
    if n < m {
        return String::new();
    }
    if same_text(key.substring_char(0, m), QUEUE_PREFIX) {
        assert(key@.skip(m as int) =~= key@.subrange(m as int, n as int));
        key.substring_char(m, n).to_owned()
    } else {
        String::new()
    }
}

/// What the dispatch loop got from the broker.
pub enum Popped {
    /// No connection to the broker could be had.
    NoConnection,
    /// The broker failed to hand out a request.
    Failed,
    /// A request, taken from the queue `queue`.
    Request { queue: String, request: IncomingRequest },
}

/// What the dispatch loop does next.
pub enum Dispatch {
    /// Wait for `seconds`, then ask the broker again.
    Retry { seconds: u64 },
    /// Hand the request to a worker, for `command`.
    Run { command: String, request: IncomingRequest },
}

/// What the dispatch loop does with what it got from the broker: a request
/// goes to a worker under the command of its queue, and a failure is
/// followed by a pause.
pub fn dispatch(popped: Popped) -> (next: Dispatch)
    ensures
        match popped {
            Popped::Request { queue, request } => next matches Dispatch::Run {
                command,
                request: handed,
            } && command@ == command_of(queue@) && handed == request,
            _ => next matches Dispatch::Retry { seconds } && seconds == RETRY_DELAY,
        },
{
    match popped {
        Popped::Request { queue, request } => Dispatch::Run {
            command: command(queue.as_str()),
            request,
        },
        _ => Dispatch::Retry { seconds: RETRY_DELAY },
    }
}

/// A server before it runs: the root of its router, the state that its
/// handlers share, and the number of its workers.
pub struct Server<D, H> {
    root: Module<H>,
    workers: usize,
    data: D,
}

impl<D, H> Server<D, H> {
    /// The root of the router.
    pub closed spec fn root(&self) -> Module<H> {
        self.root
    }

    /// The shared state.
    pub closed spec fn data(&self) -> D {
        self.data
    }

    /// The number of workers.
    pub closed spec fn size(&self) -> usize {
        self.workers
    }

    /// A server without handlers, with the shared state `data` and
    /// `workers` workers.
    pub fn new(data: D, workers: usize) -> (server: Self)
        ensures
            server.root().wf(),
            forall|names: Seq<Seq<char>>| server.root().registered(names) is None,
            server.data() == data,
            server.size() == workers,
    {
        Server { root: Module::new(), workers, data }
    }

    /// The submodule `name` of the root, made empty if it was not there.
    pub fn module(&mut self, name: &str) -> (child: &mut Module<H>)
        requires
            old(self).root().wf(),
            dot_free(name@),
        ensures
            child.wf(),
            forall|names: Seq<Seq<char>>|
                names.len() >= 1 ==> #[trigger] child.registered(names) == old(
                    self,
                ).root().registered(seq![name@] + names),
            forall|names: Seq<Seq<char>>| #[trigger]
                final(self).root().registered(names) == if names.len() >= 2 && names[0] == name@ {
                    final(child).registered(names.drop_first())
                } else {
                    old(self).root().registered(names)
                },
            final(child).wf() ==> final(self).root().wf(),
            final(self).data() == old(self).data(),
            final(self).size() == old(self).size(),
    {
        self.root.module(name)
    }

    /// Registers `handler` in the root under `name`.
    pub fn handle(&mut self, name: &str, handler: H) -> (this: &mut Self)
        requires
            old(self).root().wf(),
            dot_free(name@),
            old(self).root().registered(seq![name@]) is None,
        ensures
            this.root().wf(),
            forall|names: Seq<Seq<char>>| #[trigger]
                this.root().registered(names) == if names.len() == 1 && names[0] == name@ {
                    Some(handler)
                } else {
                    old(self).root().registered(names)
                },
            this.data() == old(self).data(),
            this.size() == old(self).size(),
            *final(self) == *final(this),
    {
        self.root.handle(name, handler);
        self
    }

    /// Whether a handler is registered in the root itself under `name`.
    pub fn has_handler(&self, name: &str) -> (present: bool)
        requires
            self.root().wf(),
        ensures
            present == (self.root().registered(seq![name@]) is Some),
    {
        self.root.has_handler(name)
    }

    /// The handler that serves the dotted `path`.
    pub fn lookup(&self, path: &str) -> (found: Option<&H>)
        requires
            self.root().wf(),
        ensures
            match found {
                Some(handler) => self.root().serves(path@) == Some(*handler),
                None => self.root().serves(path@) is None,
            },
    {
        self.root.lookup(path)
    }

    /// The number of workers.
    pub fn workers(&self) -> (count: usize)
        ensures
            count == self.size(),
    {
        self.workers
    }

    /// The keys of the queues to listen on: one for each registered path,
    /// each once.
    pub fn keys(&self) -> (keys: Vec<String>)
        requires
            self.root().wf(),
        ensures
            keys.deep_view().no_duplicates(),
            forall|key: Seq<char>|
                keys.deep_view().contains(key) <==> QUEUE_PREFIX@.is_prefix_of(key)
                    && self.root().registered(split_dots(command_of(key))) is Some,
    {
        let paths = self.root.functions();
        let mut keys: Vec<String> = Vec::new();
        let mut i: usize = 0;
        while i < paths.len()
            invariant
                i <= paths.len(),
                keys.len() == i,
                forall|k: int| 0 <= k < i ==> keys[k]@ == queue_key(paths[k]@),
            decreases paths.len() - i,
        {
            keys.push(key(paths[i].as_str()));
            i += 1;
        }
        proof {
            let have = paths.deep_view();
            let made = keys.deep_view();
            assert forall|a: int, b: int|
                0 <= a < made.len() && 0 <= b < made.len() && a != b implies made[a]
                != made[b] by {
                lemma_command_of_key(have[a]);
                lemma_command_of_key(have[b]);
            }
            assert forall|key: Seq<char>|
                made.contains(key) <==> QUEUE_PREFIX@.is_prefix_of(key) && self.root().registered(
                    split_dots(command_of(key)),
                ) is Some by {
                if made.contains(key) {
                    let k = choose|k: int| 0 <= k < made.len() && made[k] == key;
                    lemma_command_of_key(have[k]);
                    assert(have.contains(have[k]));
                }
                if QUEUE_PREFIX@.is_prefix_of(key) && self.root().registered(
                    split_dots(command_of(key)),
                ) is Some {
                    lemma_key_of_command(key);
                    assert(have.contains(command_of(key)));
                    let k = choose|k: int| 0 <= k < have.len() && have[k] == command_of(key);
                    assert(made[k] == key);
                }
            }
        }
        keys
    }

    /// The runner of this server's work: it takes over the router and the
    /// shared state.
    pub fn into_runner(self) -> (runner: WorkRunner<D, H>)
        requires
            self.root().wf(),
        ensures
            runner.root() == self.root(),
            runner.data() == self.data(),
    {
        WorkRunner::new(self.data, self.root)
    }
}

} // verus!
