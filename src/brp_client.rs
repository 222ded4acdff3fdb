use vstd::prelude::*;

verus! {

/// Lifecycle of the one connection to the remote process.
#[derive(Debug, Clone, Copy, PartialEq, Eq, Structural)]
pub enum ConnectionState {
    Disconnected,
    Connecting,
    Connected,
    Closing,
}

/// Settings of the protocol client; times are in milliseconds.
#[derive(Debug, Clone, Copy, PartialEq, Eq, Structural)]
pub struct ClientConfig {
    /// Connection attempts of one `connect_with_retry`.
    pub max_retries: u32,
    pub base_delay_ms: u64,
    /// Largest exponent of the reconnect backoff.
    pub backoff_cap: u32,
    pub request_timeout_ms: u64,
    /// Most queued requests handled on one batch tick.
    pub batch_max: usize,
    pub batch_tick_ms: u64,
}

impl Default for ClientConfig {
    fn default() -> (r: Self)
        ensures
            r.max_retries == 5,
            r.base_delay_ms == 1000,
            r.backoff_cap == 5,
            r.request_timeout_ms == 5000,
            r.batch_max == 10,
            r.batch_tick_ms == 50,
    {
        ClientConfig {
            max_retries: 5,
            base_delay_ms: 1000,
            backoff_cap: 5,
            request_timeout_ms: 5000,
            batch_max: 10,
            batch_tick_ms: 50,
        }
    }
}

pub open spec fn exp2(n: nat) -> nat
    decreases n,
{
    if n == 0 {
        1
    } else {
        2 * exp2((n - 1) as nat)
    }
}

/// The wait after the `failures`-th failed connection attempt:
/// `base * 2^min(failures, cap)`, held at `u64::MAX`.
pub open spec fn reconnect_delay(base: u64, failures: u32, cap: u32) -> int {
    let e = if failures <= cap {
        failures
    } else {
        cap
    };
    let d = base * exp2(e as nat);
    if d <= u64::MAX {
        d
    } else {
        u64::MAX as int
    }
}

impl ClientConfig {
    /// The wait after the `failures`-th failed connection attempt.
    pub fn reconnect_delay_ms(&self, failures: u32) -> (r: u64)
        ensures
            r == reconnect_delay(self.base_delay_ms, failures, self.backoff_cap),
    {
        let e: u32 = if failures <= self.backoff_cap {
            failures
        } else {
            self.backoff_cap
        };
        let mut d: u64 = self.base_delay_ms;
        let mut k: u32 = 0;
        let ghost base = self.base_delay_ms as int;
        assert(exp2(0) == 1);
        assert(base * exp2(0) == base);
        while k < e
            invariant
                k <= e,
                base == self.base_delay_ms,
                // d is the exact value while it fits, else held at the top
                base * exp2(k as nat) <= u64::MAX ==> d == base * exp2(k as nat),
                base * exp2(k as nat) > u64::MAX ==> d == u64::MAX,
            decreases e - k,
        {
            proof {
                assert(exp2((k + 1) as nat) == 2 * exp2(k as nat));
                assert(base * exp2((k + 1) as nat) == 2 * (base * exp2(k as nat))) by (nonlinear_arith)
                    requires
                        exp2((k + 1) as nat) == 2 * exp2(k as nat),
                ;
                assert(base >= 0);
                assert(exp2(k as nat) >= 0) by {
                    lemma_exp2_pos(k as nat);
                }
                assert(base * exp2(k as nat) >= 0) by (nonlinear_arith)
                    requires
                        base >= 0,
                        exp2(k as nat) >= 0,
                ;
            }
            d = if d > u64::MAX / 2 {
                u64::MAX
            } else {
                2 * d
            };
            k = k + 1;
        }
        d
    }
}

proof fn lemma_exp2_pos(n: nat)
    ensures
        exp2(n) >= 1,
    decreases n,
{
    if n > 0 {
        lemma_exp2_pos((n - 1) as nat);
    }
}

/// What the caller tears down when the connection closes.
#[derive(Debug, Clone, Copy, PartialEq, Eq, Structural)]
pub struct Teardown {
    /// Cancel the batch task and wait for it to end, before the socket closes.
    pub abort_batch_task: bool,
    pub close_socket: bool,
}

/// What the caller does before connecting anew: tear down the old connection,
/// then fail the requests that were still queued on it.
#[derive(Debug)]
pub struct Reconnect {
    pub teardown: Teardown,
    pub dropped_requests: Vec<u64>,
}

/// What follows a failed connection attempt.
#[derive(Debug, Clone, Copy, PartialEq, Eq, Structural)]
pub enum ConnectStep {
    /// Wait this long, then attempt again.
    RetryAfter { delay_ms: u64 },
    /// Every allowed attempt failed: report a connection error.
    GiveUp,
}

/// Why a request could not be served.
#[derive(Debug, Clone, Copy, PartialEq, Eq, Structural)]
pub enum ClientError {
    /// No connection, or connecting failed.
    Connection,
    /// The admission oracle refused the batch.
    RateLimited,
    /// No reply within the request's time budget.
    Timeout,
    /// A reply of an unexpected shape.
    Protocol,
}

/// What the socket delivered while a request waited for its reply.
#[derive(Debug, Clone)]
pub enum InboundEvent {
    /// A text message: the reply.
    Text(String),
    /// The remote side closed the connection.
    Closed,
    /// The socket failed.
    Failed,
    /// The time budget ran out first.
    TimedOut,
}

/// How a run of connection attempts ended.
#[derive(Debug)]
pub struct ConnectReport {
    /// What was torn down of the previous connection, and the requests it
    /// still had queued, which fail with a connection error.
    pub teardown: Teardown,
    pub dropped_requests: Vec<u64>,
    pub result: Result<(), ClientError>,
    pub attempts: u32,
    /// Waits made between attempts, in milliseconds.
    pub waits_ms: Vec<u64>,
}

/// A snapshot of the client for status reports.
#[derive(Debug, Clone, Copy, PartialEq, Eq, Structural)]
pub struct ConnectionStats {
    pub connected: bool,
    pub retry_count: u32,
    pub queue_size: usize,
}

/// What one batch tick did with the queue.
#[derive(Debug, Clone)]
pub struct BatchTick {
    /// Requests admitted for processing.
    pub processed: Vec<u64>,
    /// Requests failed at once with a rate-limit error.
    pub rate_limited: Vec<u64>,
}

/// The mutable state of the protocol client, kept under one lock by its owner:
/// connection state, retry counter, the queue of batched requests by id, and
/// whether a socket and a batch task exist.
#[derive(Debug)]
pub struct ConnectionManager {
    config: ClientConfig,
    state: ConnectionState,
    retry_count: u32,
    socket_open: bool,
    batch_task_running: bool,
    queue: Vec<u64>,
}

impl ConnectionManager {
    pub closed spec fn cfg(&self) -> ClientConfig {
        self.config
    }

    pub closed spec fn state_spec(&self) -> ConnectionState {
        self.state
    }

    pub closed spec fn retries(&self) -> u32 {
        self.retry_count
    }

    pub closed spec fn socket(&self) -> bool {
        self.socket_open
    }

    pub closed spec fn batch_task(&self) -> bool {
        self.batch_task_running
    }

    pub closed spec fn queue_spec(&self) -> Seq<u64> {
        self.queue@
    }

    /// The counter never passes the attempt limit; only a connection has a
    /// socket.
    pub closed spec fn wf(&self) -> bool {
        &&& self.retry_count <= self.config.max_retries
        &&& self.state == ConnectionState::Connected ==> self.socket_open
    }

    pub fn new(config: ClientConfig) -> (r: Self)
        ensures
            r.wf(),
            r.cfg() == config,
            r.state_spec() == ConnectionState::Disconnected,
            r.retries() == 0,
            !r.socket(),
            !r.batch_task(),
            r.queue_spec().len() == 0,
    {
        ConnectionManager {
            config,
            state: ConnectionState::Disconnected,
            retry_count: 0,
            socket_open: false,
            batch_task_running: false,
            queue: Vec::new(),
        }
    }

    pub fn config(&self) -> (r: ClientConfig)
        ensures
            r == self.cfg(),
    {
        self.config
    }

    pub fn state(&self) -> (r: ConnectionState)
        ensures
            r == self.state_spec(),
    {
        self.state
    }

    pub fn retry_count(&self) -> (r: u32)
        ensures
            r == self.retries(),
    {
        self.retry_count
    }

    pub fn queue_len(&self) -> (r: usize)
        ensures
            r == self.queue_spec().len(),
    {
        self.queue.len()
    }

    pub fn get_connection_stats(&self) -> (r: ConnectionStats)
        ensures
            r.connected == (self.state_spec() == ConnectionState::Connected),
            r.retry_count == self.retries(),
            r.queue_size == self.queue_spec().len(),
    {
        ConnectionStats {
            connected: self.state == ConnectionState::Connected,
            retry_count: self.retry_count,
            queue_size: self.queue.len(),
        }
    }

    pub fn is_connected(&self) -> (r: bool)
        ensures
            r == (self.state_spec() == ConnectionState::Connected),
    {
        self.state == ConnectionState::Connected
    }

    /// Closes the connection, in order: the batch task first, then the socket.
    /// Safe to call when already disconnected, where it tears nothing down.
    pub fn disconnect(&mut self) -> (r: Teardown)
        requires
            old(self).wf(),
        ensures
            final(self).wf(),
            r.abort_batch_task == old(self).batch_task(),
            r.close_socket == old(self).socket(),
            final(self).state_spec() == ConnectionState::Disconnected,
            !final(self).socket(),
            !final(self).batch_task(),
            final(self).retries() == old(self).retries(),
            final(self).queue_spec() == old(self).queue_spec(),
            final(self).cfg() == old(self).cfg(),
    {
        let r = Teardown { abort_batch_task: self.batch_task_running, close_socket: self.socket_open };
        self.batch_task_running = false;
        self.socket_open = false;
        self.state = ConnectionState::Disconnected;
        r
    }

    /// Starts connecting; a live connection is closed first, so none leaks,
    /// and its queued requests are handed back to be failed.
    pub fn begin_connect(&mut self) -> (r: Reconnect)
        requires
            old(self).wf(),
        ensures
            final(self).wf(),
            final(self).state_spec() == ConnectionState::Connecting,
            !final(self).socket(),
            !final(self).batch_task(),
            r.teardown.abort_batch_task == old(self).batch_task(),
            r.teardown.close_socket == old(self).socket(),
            r.dropped_requests@ == old(self).queue_spec(),
            final(self).queue_spec().len() == 0,
            final(self).retries() == old(self).retries(),
            final(self).cfg() == old(self).cfg(),
    {
        let teardown = self.disconnect();
        let dropped_requests = self.fail_pending();
        self.state = ConnectionState::Connecting;
        Reconnect { teardown, dropped_requests }
    }

    /// A connection attempt succeeded: the counter starts again from zero.
    pub fn connect_succeeded(&mut self)
        requires
            old(self).wf(),
        ensures
            final(self).wf(),
            final(self).state_spec() == ConnectionState::Connected,
            final(self).socket(),
            final(self).retries() == 0,
            final(self).batch_task() == old(self).batch_task(),
            final(self).queue_spec() == old(self).queue_spec(),
            final(self).cfg() == old(self).cfg(),
    {
        self.state = ConnectionState::Connected;
        self.socket_open = true;
        self.retry_count = 0;
    }

    /// Another attempt is allowed in this run of attempts.
    pub fn can_attempt(&self) -> (r: bool)
        ensures
            r == (self.retries() < self.cfg().max_retries),
    {
        self.retry_count < self.config.max_retries
    }

    /// A connection attempt failed: wait and retry, or give up once the
    /// attempts are spent.
    pub fn connect_failed(&mut self) -> (r: ConnectStep)
        requires
            old(self).wf(),
            old(self).retries() < old(self).cfg().max_retries,
        ensures
            final(self).wf(),
            final(self).retries() == old(self).retries() + 1,
            !final(self).socket(),
            final(self).retries() < final(self).cfg().max_retries ==> r == (ConnectStep::RetryAfter {
                delay_ms: reconnect_delay(
                    old(self).cfg().base_delay_ms,
                    final(self).retries(),
                    old(self).cfg().backoff_cap,
                ) as u64,
            }) && final(self).state_spec() == ConnectionState::Connecting,
            final(self).retries() == final(self).cfg().max_retries ==> r == ConnectStep::GiveUp
                && final(self).state_spec() == ConnectionState::Disconnected,
            final(self).batch_task() == old(self).batch_task(),
            final(self).queue_spec() == old(self).queue_spec(),
            final(self).cfg() == old(self).cfg(),
    {
        self.retry_count = self.retry_count + 1;
        self.socket_open = false;
        if self.retry_count < self.config.max_retries {
            self.state = ConnectionState::Connecting;
            ConnectStep::RetryAfter { delay_ms: self.config.reconnect_delay_ms(self.retry_count) }
        } else {
            self.state = ConnectionState::Disconnected;
            ConnectStep::GiveUp
        }
    }

    /// Connects with retries, over the outcomes of the attempts in order: at
    /// most the attempts left are made, the run stops at the first success, and
    /// once every allowed attempt failed no further attempt is made.
    pub fn connect_with_retry(&mut self, outcomes: &[bool]) -> (r: ConnectReport)
        requires
            old(self).wf(),
            outcomes@.len() >= old(self).cfg().max_retries - old(self).retries(),
        ensures
            final(self).wf(),
            r.attempts <= old(self).cfg().max_retries - old(self).retries(),
            forall|k: int| 0 <= k < r.attempts - 1 ==> !outcomes@[k],
            r.result is Ok <==> r.attempts >= 1 && outcomes@[r.attempts - 1],
            r.result is Ok ==> final(self).state_spec() == ConnectionState::Connected
                && final(self).retries() == 0,
            r.result is Err ==> r.result == Err::<(), ClientError>(ClientError::Connection)
                && r.attempts == old(self).cfg().max_retries - old(self).retries()
                && final(self).retries() == final(self).cfg().max_retries
                && final(self).state_spec() == ConnectionState::Disconnected,
            r.waits_ms@.len() == if r.attempts == 0 {
                0
            } else {
                r.attempts - 1
            },
            forall|k: int|
                0 <= k < r.waits_ms@.len() ==> r.waits_ms@[k] == reconnect_delay(
                    old(self).cfg().base_delay_ms,
                    (old(self).retries() + k + 1) as u32,
                    old(self).cfg().backoff_cap,
                ) as u64,
            r.teardown.abort_batch_task == old(self).batch_task(),
            r.teardown.close_socket == old(self).socket(),
            r.dropped_requests@ == old(self).queue_spec(),
            final(self).queue_spec().len() == 0,
            final(self).cfg() == old(self).cfg(),
    {
        let Reconnect { teardown, dropped_requests } = self.begin_connect();
        let ghost start = self.retry_count;
        let mut attempts: u32 = 0;
        let mut waits: Vec<u64> = Vec::new();
        while self.retry_count < self.config.max_retries
            invariant
                self.wf(),
                self.config == old(self).cfg(),
                self.queue_spec().len() == 0,
                start == old(self).retries(),
                teardown.abort_batch_task == old(self).batch_task(),
                teardown.close_socket == old(self).socket(),
                dropped_requests@ == old(self).queue_spec(),
                forall|k: int|
                    0 <= k < waits@.len() ==> waits@[k] == reconnect_delay(
                        self.config.base_delay_ms,
                        (start + k + 1) as u32,
                        self.config.backoff_cap,
                    ) as u64,
                self.retry_count == start + attempts,
                outcomes@.len() >= self.config.max_retries - start,
                forall|k: int| 0 <= k < attempts ==> !outcomes@[k],
                waits@.len() == attempts,
                attempts > 0 ==> self.retry_count < self.config.max_retries,
                self.state == ConnectionState::Connecting,
            decreases self.config.max_retries - self.retry_count,
        {
            let ok = outcomes[attempts as usize];
            attempts = attempts + 1;
            if ok {
                self.connect_succeeded();
                return ConnectReport { teardown, dropped_requests, result: Ok(()), attempts, waits_ms: waits };
            }
            match self.connect_failed() {
                ConnectStep::RetryAfter { delay_ms } => {
                    waits.push(delay_ms);
                },
                ConnectStep::GiveUp => {
                    return ConnectReport {
                        teardown,
                        dropped_requests,
                        result: Err(ClientError::Connection),
                        attempts,
                        waits_ms: waits,
                    };
                },
            }
        }
        self.state = ConnectionState::Disconnected;
        ConnectReport { teardown, dropped_requests, result: Err(ClientError::Connection), attempts, waits_ms: waits }
    }

    /// A request on the simple path may go out only over a connection.
    pub fn begin_request(&self) -> (r: Result<(), ClientError>)
        ensures
            r is Ok <==> self.state_spec() == ConnectionState::Connected,
            r is Err ==> r == Err::<(), ClientError>(ClientError::Connection),
    {
        if self.state == ConnectionState::Connected {
            Ok(())
        } else {
            Err(ClientError::Connection)
        }
    }

    /// Turns what arrived for a request into its outcome; a lost connection is
    /// recorded as such, a timeout leaves the connection as it was.
    pub fn on_reply(&mut self, event: InboundEvent) -> (r: Result<String, ClientError>)
        requires
            old(self).wf(),
        ensures
            final(self).wf(),
            event matches InboundEvent::Text(t) ==> r == Ok::<String, ClientError>(t) && *final(self)
                == *old(self),
            event is TimedOut ==> r == Err::<String, ClientError>(ClientError::Timeout) && *final(self)
                == *old(self),
            (event is Closed || event is Failed) ==> r == Err::<String, ClientError>(
                ClientError::Connection,
            ) && final(self).state_spec() == ConnectionState::Disconnected && !final(self).socket()
                && final(self).batch_task() == old(self).batch_task() && final(self).queue_spec()
                == old(self).queue_spec() && final(self).retries() == old(self).retries()
                && final(self).cfg() == old(self).cfg(),
    {
        match event {
            InboundEvent::Text(t) => Ok(t),
            InboundEvent::TimedOut => Err(ClientError::Timeout),
            InboundEvent::Closed | InboundEvent::Failed => {
                self.socket_open = false;
                self.state = ConnectionState::Disconnected;
                Err(ClientError::Connection)
            },
        }
    }

    /// Queues a request for the batch path; without a connection it fails at
    /// once and the queue is left as it was.
    pub fn submit_batched(&mut self, request_id: u64) -> (r: Result<(), ClientError>)
        requires
            old(self).wf(),
        ensures
            final(self).wf(),
            old(self).state_spec() == ConnectionState::Connected ==> r is Ok
                && final(self).queue_spec() == old(self).queue_spec().push(request_id),
            old(self).state_spec() != ConnectionState::Connected ==> r == Err::<(), ClientError>(
                ClientError::Connection,
            ) && final(self).queue_spec() == old(self).queue_spec(),
            final(self).state_spec() == old(self).state_spec(),
            final(self).retries() == old(self).retries(),
            final(self).cfg() == old(self).cfg(),
    {
        if self.state != ConnectionState::Connected {
            return Err(ClientError::Connection);
        }
        self.queue.push(request_id);
        Ok(())
    }

    /// One tick of the batch processor: takes at most `batch_max` requests from
    /// the front of the queue; if admission is refused, all of them fail with a
    /// rate-limit error instead of going back to the queue.
    pub fn batch_tick(&mut self, admitted: bool) -> (r: BatchTick)
        requires
            old(self).wf(),
        ensures
            final(self).wf(),
            ({
                let n = if old(self).queue_spec().len() < old(self).cfg().batch_max {
                    old(self).queue_spec().len() as int
                } else {
                    old(self).cfg().batch_max as int
                };
                &&& final(self).queue_spec() == old(self).queue_spec().skip(n)
                &&& admitted ==> r.processed@ == old(self).queue_spec().take(n) && r.rate_limited@.len()
                    == 0
                &&& !admitted ==> r.rate_limited@ == old(self).queue_spec().take(n) && r.processed@.len()
                    == 0
            }),
            final(self).state_spec() == old(self).state_spec(),
            final(self).retries() == old(self).retries(),
            final(self).cfg() == old(self).cfg(),
    {
        let len = self.queue.len();
        let n: usize = if len < self.config.batch_max {
            len
        } else {
            self.config.batch_max
        };
        let mut taken: Vec<u64> = Vec::new();
        let mut rest: Vec<u64> = Vec::new();
        let mut i: usize = 0;
        while i < len
            invariant
                len == self.queue@.len(),
                n <= len,
                i <= len,
                i <= n ==> taken@ == self.queue@.take(i as int) && rest@.len() == 0,
                i > n ==> taken@ == self.queue@.take(n as int) && rest@ == self.queue@.subrange(
                    n as int,
                    i as int,
                ),
            decreases len - i,
        {
            if i < n {
                taken.push(self.queue[i]);
                assert(taken@ =~= self.queue@.take(i + 1));
            } else {
                rest.push(self.queue[i]);
                assert(rest@ =~= self.queue@.subrange(n as int, i + 1));
            }
            i = i + 1;
        }
        assert(rest@ =~= self.queue@.skip(n as int));
        self.queue = rest;
        if admitted {
            BatchTick { processed: taken, rate_limited: Vec::new() }
        } else {
            BatchTick { processed: Vec::new(), rate_limited: taken }
        }
    }

    /// Fails every queued request, as when the connection is lost; the queue
    /// ends empty.
    pub fn fail_pending(&mut self) -> (r: Vec<u64>)
        requires
            old(self).wf(),
        ensures
            final(self).wf(),
            r@ == old(self).queue_spec(),
            final(self).queue_spec().len() == 0,
            final(self).state_spec() == old(self).state_spec(),
            final(self).socket() == old(self).socket(),
            final(self).batch_task() == old(self).batch_task(),
            final(self).retries() == old(self).retries(),
            final(self).cfg() == old(self).cfg(),
    {
        let mut out: Vec<u64> = Vec::new();
        std::mem::swap(&mut out, &mut self.queue);
        out
    }

    /// Records that the batch task was started.
    pub fn batch_task_started(&mut self)
        requires
            old(self).wf(),
        ensures
            final(self).wf(),
            final(self).batch_task(),
            final(self).state_spec() == old(self).state_spec(),
            final(self).socket() == old(self).socket(),
            final(self).retries() == old(self).retries(),
            final(self).queue_spec() == old(self).queue_spec(),
            final(self).cfg() == old(self).cfg(),
    {
        self.batch_task_running = true;
    }
}

} // verus!
