//! Subscriptions: who receives an event, how a failing handler is retried, and the names,
//! builders and statistics that go with handlers.
use vstd::prelude::*;
use vstd::arithmetic::power2::pow2;
use vstd::string::StringExecFns;
use crate::error::Error;
use crate::event::Event;
use crate::foreign::{decimal_text, new_uuid, u64_text, uuid_string, uuid_text};
use crate::metadata::opt_text;
use crate::registry::SubscriptionEntry;

verus! {

/// How a failing handler is retried.
#[derive(Debug, Clone, Copy, PartialEq, Eq, Structural)]
pub struct RetryPolicy {
    /// Retries after the first failure before the event is given up.
    pub max_retries: u32,
    /// Wait before the first retry, in milliseconds; each further retry waits twice as long.
    pub retry_backoff: u64,
}

/// What to do after a handler failed.
#[derive(Debug, Clone, Copy, PartialEq, Eq, Structural)]
pub enum RetryStep {
    /// Wait `backoff_ms`, then run the handler again; `attempt` failures so far.
    Retry { attempt: u32, backoff_ms: u64 },
    /// Give the event up (to the dead letter queue) after `attempts` failures.
    DeadLetter { attempts: u32 },
}

/// The wait before retry number `attempt` (from 1): the base backoff doubled for each
/// earlier retry.
pub open spec fn backoff_for(base: u64, attempt: nat) -> int {
    base * pow2((attempt - 1) as nat)
}

/// The step after the handler failed for the `(failures + 1)`-th time.
pub open spec fn step_after(p: RetryPolicy, failures: u32) -> RetryStep {
    let attempt = failures + 1;
    if attempt > p.max_retries {
        RetryStep::DeadLetter { attempts: attempt as u32 }
    } else {
        RetryStep::Retry { attempt: attempt as u32, backoff_ms: backoff_for(p.retry_backoff, attempt as nat) as u64 }
    }
}

/// A retry after `failures + 1` failures can be waited for: the doubling stays within 32
/// steps and the wait fits in 64 bits.
pub open spec fn retry_fits(p: RetryPolicy, failures: u32) -> bool {
    failures + 1 <= p.max_retries ==> (failures + 1 <= 32 && backoff_for(p.retry_backoff, (failures + 1) as nat) <= u64::MAX)
}

impl RetryPolicy {
    /// Whether `after_failure` can be asked about a failure after `failures` earlier ones:
    /// the count of failures can grow, and where a retry follows, its wait fits in 64 bits.
    pub fn fits(&self, failures: u32) -> (r: bool)
        ensures
            r == (failures < u32::MAX && retry_fits(*self, failures)),
    {
        if failures == u32::MAX {
            return false;
        }
        let attempt = failures + 1;
        if attempt > self.max_retries {
            return true;
        }
        if attempt > 32 {
            return false;
        }
        let shift: u64 = (attempt - 1) as u64;
        proof {
            vstd::bits::lemma_u64_pow2_no_overflow(shift as nat);
            vstd::bits::lemma_u64_shl_is_mul(1, shift);
        }
        let factor: u64 = 1u64 << shift;
        assert(factor == pow2(shift as nat));
        self.retry_backoff.checked_mul(factor).is_some()
    }

    /// The step after the handler failed, `failures` earlier failures of this event
    /// counted: retry with the doubled backoff while retries remain, else give it up.
    pub fn after_failure(&self, failures: u32) -> (s: RetryStep)
        requires
            failures < u32::MAX,
            retry_fits(*self, failures),
        ensures
            s == step_after(*self, failures),
            failures + 1 > self.max_retries ==> s == (RetryStep::DeadLetter { attempts: (failures + 1) as u32 }),
            failures + 1 <= self.max_retries ==> s == (RetryStep::Retry {
                attempt: (failures + 1) as u32,
                backoff_ms: (self.retry_backoff * pow2(failures as nat)) as u64,
            }),
    {
        let attempt = failures + 1;
        if attempt > self.max_retries {
            RetryStep::DeadLetter { attempts: attempt }
        } else {
            let shift: u64 = (attempt - 1) as u64;
            proof {
                vstd::bits::lemma_u64_pow2_no_overflow(shift as nat);
                vstd::bits::lemma_u64_shl_is_mul(1, shift);
            }
            let factor: u64 = 1u64 << shift;
            assert(factor == pow2(shift as nat));
            assert(self.retry_backoff * factor <= u64::MAX);
            RetryStep::Retry { attempt, backoff_ms: self.retry_backoff * factor }
        }
    }
}

/// The subscriptions an event goes to: the subscriptions of its type that route by type
/// alone, in order, followed by the topic subscriptions that match its topic and are not
/// already there, each once.
pub fn dispatch_targets(type_entries: &Vec<SubscriptionEntry>, topic_entries: &Vec<SubscriptionEntry>) -> (r: Vec<SubscriptionEntry>)
    ensures
        r@.take(untopical(type_entries@).len() as int) == untopical(type_entries@),
        r@.len() >= untopical(type_entries@).len(),
        forall|i: int| untopical(type_entries@).len() <= i < r@.len() ==> topic_entries@.contains(#[trigger] r@[i]),
        forall|i: int, j: int| untopical(type_entries@).len() <= i < j < r@.len() ==> r@[i].id != r@[j].id,
        forall|i: int, j: int| 0 <= j < untopical(type_entries@).len() <= i < r@.len() ==> r@[i].id != r@[j].id,
        forall|k: int| 0 <= k < topic_entries@.len() ==> exists|i: int| 0 <= i < r@.len() && r@[i].id == (#[trigger] topic_entries@[k]).id,
        forall|i: int| 0 <= i < r@.len() ==> (type_entries@.contains(#[trigger] r@[i]) && r@[i].topic is None)
            || topic_entries@.contains(r@[i]),
        forall|k: int| 0 <= k < type_entries@.len() && (#[trigger] type_entries@[k]).topic is None
            ==> r@.contains(type_entries@[k]),
{
    let mut r: Vec<SubscriptionEntry> = Vec::new();
    let mut i: usize = 0;
    while i < type_entries.len()
        invariant
            i <= type_entries@.len(),
            r@ == untopical(type_entries@.take(i as int)),
        decreases type_entries@.len() - i,
    {
        assert(type_entries@.take(i + 1) == type_entries@.take(i as int).push(type_entries@[i as int]));
        assert(type_entries@.take(i + 1).drop_last() == type_entries@.take(i as int));
        proof {
            reveal(Seq::filter);
        }
        if type_entries[i].topic.is_none() {
            r.push(type_entries[i].duplicate());
        }
        i += 1;
    }
    assert(type_entries@.take(type_entries@.len() as int) == type_entries@);
    let ghost base = r@;
    let mut k: usize = 0;
    while k < topic_entries.len()
        invariant
            k <= topic_entries@.len(),
            base == untopical(type_entries@),
            r@.len() >= base.len(),
            r@.take(base.len() as int) == base,
            forall|i: int| base.len() <= i < r@.len() ==> topic_entries@.contains(#[trigger] r@[i]),
            forall|i: int, j: int| 0 <= i < j < r@.len() && base.len() <= j ==> r@[i].id != r@[j].id,
            forall|m: int| 0 <= m < k ==> exists|i: int| 0 <= i < r@.len() && r@[i].id == (#[trigger] topic_entries@[m]).id,
        decreases topic_entries@.len() - k,
    {
        let id = topic_entries[k].id;
        let mut present = false;
        let mut j: usize = 0;
        while j < r.len()
            invariant
                j <= r@.len(),
                present ==> exists|i: int| 0 <= i < r@.len() && r@[i].id == id,
                !present ==> forall|i: int| 0 <= i < j ==> r@[i].id != id,
            decreases r@.len() - j,
        {
            if r[j].id == id {
                present = true;
            }
            j += 1;
        }
        if !present {
            let ghost before = r@;
            r.push(topic_entries[k].duplicate());
            proof {
                assert(r@.take(base.len() as int) == before.take(base.len() as int));
                assert(topic_entries@.contains(r@[before.len() as int]));
                assert forall|m: int| 0 <= m <= k implies exists|i: int| 0 <= i < r@.len() && r@[i].id == (#[trigger] topic_entries@[m]).id by {
                    if m < k {
                        let i = choose|i: int| 0 <= i < before.len() && before[i].id == topic_entries@[m].id;
                        assert(r@[i] == before[i]);
                    } else {
                        assert(r@[before.len() as int].id == topic_entries@[m].id);
                    }
                }
            }
        }
        k += 1;
    }
    proof {
        lemma_untopical_members(type_entries@);
        let n = base.len() as int;
        assert forall|i: int| 0 <= i < r@.len() implies (type_entries@.contains(#[trigger] r@[i]) && r@[i].topic is None)
            || topic_entries@.contains(r@[i]) by {
            if i < n {
                assert(r@[i] == r@.take(n)[i]);
                assert(r@[i] == base[i]);
            }
        }
        assert forall|k: int| 0 <= k < type_entries@.len() && (#[trigger] type_entries@[k]).topic is None
            implies r@.contains(type_entries@[k]) by {
            let j = choose|j: int| 0 <= j < base.len() && base[j] == type_entries@[k];
            assert(r@[j] == r@.take(n)[j]);
        }
    }
    r
}

/// The entries of a list that route by type alone are exactly its entries without a
/// topic: each of them comes from the list and has no topic, and every entry of the list
/// without a topic is among them.
pub proof fn lemma_untopical_members(s: Seq<SubscriptionEntry>)
    ensures
        forall|i: int| 0 <= i < untopical(s).len() ==> s.contains(#[trigger] untopical(s)[i]) && untopical(s)[i].topic is None,
        forall|k: int| 0 <= k < s.len() && (#[trigger] s[k]).topic is None ==> untopical(s).contains(s[k]),
    decreases s.len(),
{
    reveal(Seq::filter);
    if s.len() > 0 {
        let d = s.drop_last();
        lemma_untopical_members(d);
        assert(s.drop_last() == d);
        let u = untopical(s);
        let ud = untopical(d);
        assert forall|i: int| 0 <= i < u.len() implies s.contains(#[trigger] u[i]) && u[i].topic is None by {
            if i < ud.len() {
                assert(u[i] == ud[i]);
                let j = choose|j: int| 0 <= j < d.len() && d[j] == ud[i];
                assert(s[j] == d[j]);
            } else {
                assert(s[s.len() - 1] == s.last());
            }
        }
        assert forall|k: int| 0 <= k < s.len() && (#[trigger] s[k]).topic is None implies u.contains(s[k]) by {
            if k < d.len() {
                assert(d[k] == s[k]);
                let j = choose|j: int| 0 <= j < ud.len() && ud[j] == d[k];
                assert(u[j] == ud[j]);
            } else {
                assert(u[u.len() - 1] == s.last());
            }
        }
    }
}

/// The entries that route by type alone, in order.
pub open spec fn untopical(s: Seq<SubscriptionEntry>) -> Seq<SubscriptionEntry> {
    s.filter(|e: SubscriptionEntry| e.topic is None)
}

/// `kind<event>`: how handlers are named after the event type they handle.
pub open spec fn handler_label(kind: Seq<char>, event: Seq<char>) -> Seq<char> {
    kind + "<"@ + event + ">"@
}

/// The name `kind<event>`.
pub fn label_for(kind: &str, event: &str) -> (s: String)
    ensures
        s@ == handler_label(kind@, event@),
{
    String::from_str(kind).concat("<").concat(event).concat(">")
}

/// The name of a handler of a topic: `TopicHandler<event>::topic`.
pub fn topic_handler_name(event: &str, topic: &str) -> (s: String)
    ensures
        s@ == handler_label("TopicHandler"@, event@) + "::"@ + topic@,
{
    label_for("TopicHandler", event).concat("::").concat(topic)
}

/// Identity and name of a subscription, without the means to end it.
#[derive(Debug, Clone)]
pub struct WeakSubscriptionHandle {
    id: u128,
    name: Option<String>,
}

impl WeakSubscriptionHandle {
    /// The identifier.
    pub closed spec fn id_spec(&self) -> u128 {
        self.id
    }

    /// The name.
    pub closed spec fn name_spec(&self) -> Option<Seq<char>> {
        opt_text(self.name)
    }

    /// A handle with the given identifier and name.
    pub fn from_parts(id: u128, name: Option<String>) -> (h: WeakSubscriptionHandle)
        ensures
            h.id_spec() == id,
            h.name_spec() == opt_text(name),
    {
        WeakSubscriptionHandle { id, name }
    }

    /// The identifier.
    pub fn id(&self) -> (r: u128)
        ensures
            r == self.id_spec(),
    {
        self.id
    }

    /// The name.
    pub fn name(&self) -> (r: Option<&str>)
        ensures
            match self.name_spec() {
                Some(n) => r matches Some(s) && s@ == n,
                None => r is None,
            },
    {
        match &self.name {
            Some(n) => Some(n.as_str()),
            None => None,
        }
    }

    /// `Subscription 'name' (id)`, or `Subscription id` where it has no name.
    pub fn describe(&self) -> (s: String)
        ensures
            s@ == match self.name_spec() {
                Some(n) => "Subscription '"@ + n + "' ("@ + uuid_text(self.id_spec()) + ")"@,
                None => "Subscription "@ + uuid_text(self.id_spec()),
            },
    {
        let id = uuid_string(self.id);
        match &self.name {
            Some(n) => String::from_str("Subscription '").concat(n.as_str()).concat("' (").concat(id.as_str()).concat(")"),
            None => String::from_str("Subscription ").concat(id.as_str()),
        }
    }
}

/// Options of a subscription about to be made.
#[derive(Debug, Clone)]
pub struct SubscriptionBuilder {
    name: Option<String>,
    auto_unsubscribe: bool,
}

impl SubscriptionBuilder {
    /// The name chosen.
    pub closed spec fn name_spec(&self) -> Option<Seq<char>> {
        opt_text(self.name)
    }

    /// Whether the subscription ends when its handle is dropped.
    pub closed spec fn auto_unsubscribe_spec(&self) -> bool {
        self.auto_unsubscribe
    }

    /// No name; ends when its handle is dropped.
    pub fn new() -> (b: SubscriptionBuilder)
        ensures
            b.name_spec() is None,
            b.auto_unsubscribe_spec(),
    {
        SubscriptionBuilder { name: None, auto_unsubscribe: true }
    }

    /// Name the subscription.
    pub fn name(self, name: &str) -> (b: SubscriptionBuilder)
        ensures
            b.name_spec() == Some(name@),
            b.auto_unsubscribe_spec() == self.auto_unsubscribe_spec(),
    {
        SubscriptionBuilder { name: Some(name.to_owned()), ..self }
    }

    /// Set whether the subscription ends when its handle is dropped.
    pub fn auto_unsubscribe(self, auto: bool) -> (b: SubscriptionBuilder)
        ensures
            b.name_spec() == self.name_spec(),
            b.auto_unsubscribe_spec() == auto,
    {
        SubscriptionBuilder { auto_unsubscribe: auto, ..self }
    }

    /// Whether the subscription ends when its handle is dropped.
    pub fn auto_unsubscribes(&self) -> (r: bool)
        ensures
            r == self.auto_unsubscribe_spec(),
    {
        self.auto_unsubscribe
    }

    /// The identity of the new subscription: a fresh identifier and the name chosen.
    pub fn build(self) -> (h: WeakSubscriptionHandle)
        ensures
            h.id_spec() != 0,
            h.name_spec() == self.name_spec(),
    {
        let id = new_uuid();
        WeakSubscriptionHandle::from_parts(id, self.name)
    }
}

/// Counts over the subscription manager.
#[derive(Debug, Clone, Copy, Default)]
pub struct SubscriptionStats {
    /// Subscriptions with a running handler.
    pub active_subscriptions: usize,
    /// Event types with subscriptions.
    pub total_event_types: usize,
}

/// Counts over one handler's work.
#[derive(Debug, Clone, Default)]
pub struct HandlerStats {
    /// Events processed.
    pub events_processed: u64,
    /// Events that failed.
    pub events_failed: u64,
    /// Total processing time, in milliseconds.
    pub total_processing_time_ms: u64,
    /// The last error.
    pub last_error: Option<String>,
}

impl HandlerStats {
    /// The mean processing time in milliseconds, 0 where nothing was processed.
    pub fn average_time_ms(&self) -> (r: u64)
        ensures
            r == (if self.events_processed > 0 {
                self.total_processing_time_ms / self.events_processed
            } else {
                0
            }),
    {
        if self.events_processed > 0 {
            self.total_processing_time_ms / self.events_processed
        } else {
            0
        }
    }

    /// `Processed: p, Failed: f, Avg time: ams`.
    pub fn summary(&self) -> (s: String)
        ensures
            s@ == "Processed: "@ + decimal_text(self.events_processed as nat) + ", Failed: "@ + decimal_text(
                self.events_failed as nat,
            ) + ", Avg time: "@ + decimal_text(
                (if self.events_processed > 0 {
                    self.total_processing_time_ms / self.events_processed
                } else {
                    0
                }) as nat,
            ) + "ms"@,
    {
        let p = u64_text(self.events_processed);
        let f = u64_text(self.events_failed);
        let a = u64_text(self.average_time_ms());
        String::from_str("Processed: ").concat(p.as_str()).concat(", Failed: ").concat(f.as_str()).concat(
            ", Avg time: ",
        ).concat(a.as_str()).concat("ms")
    }
}

/// A handler made of a function of the event, with a name.
pub struct FunctionHandler<T, F> {
    function: F,
    name: String,
    _event: core::marker::PhantomData<T>,
}

impl<T: Event, F> FunctionHandler<T, F> {
    /// The function.
    pub closed spec fn function_spec(&self) -> F {
        self.function
    }

    /// The name.
    pub closed spec fn name_spec(&self) -> Seq<char> {
        self.name@
    }

    /// A handler named `FunctionHandler<event>` after the name `T::event_type` gives.
    pub fn new(function: F) -> (h: FunctionHandler<T, F>)
        ensures
            h.function_spec() == function,
            exists|event: &'static str| call_ensures(T::event_type, (), event)
                && h.name_spec() == #[trigger] handler_label("FunctionHandler"@, event@),
    {
        let name_of = T::event_type;
        let event = name_of();
        let name = label_for("FunctionHandler", event);
        FunctionHandler { function, name, _event: core::marker::PhantomData }
    }

    /// A handler with the given name.
    pub fn with_name(function: F, name: &str) -> (h: FunctionHandler<T, F>)
        ensures
            h.function_spec() == function,
            h.name_spec() == name@,
    {
        FunctionHandler { function, name: name.to_owned(), _event: core::marker::PhantomData }
    }

    /// The handler's name.
    pub fn name(&self) -> (r: &str)
        ensures
            r@ == self.name_spec(),
    {
        self.name.as_str()
    }

    /// The function.
    pub fn function(&self) -> (r: &F)
        ensures
            *r == self.function_spec(),
    {
        &self.function
    }
}

/// A handler of `T` events made of a typed handler `H`.
pub struct TypedHandlerAdapter<T, H> {
    handler: H,
    _event: core::marker::PhantomData<T>,
}

impl<T: Event, H> TypedHandlerAdapter<T, H> {
    /// The typed handler.
    pub closed spec fn handler_spec(&self) -> H {
        self.handler
    }

    /// An adapter around `handler`.
    pub fn new(handler: H) -> (a: TypedHandlerAdapter<T, H>)
        ensures
            a.handler_spec() == handler,
    {
        TypedHandlerAdapter { handler, _event: core::marker::PhantomData }
    }

    /// The typed handler.
    pub fn handler(&self) -> (r: &H)
        ensures
            *r == self.handler_spec(),
    {
        &self.handler
    }
}

/// The error a handler gives for an envelope of another type than it handles.
pub fn wrong_event_error(event_name: &str) -> (e: Error)
    ensures
        e matches Error::EventNotRegistered { event_type } && event_type@ == event_name@,
{
    Error::EventNotRegistered { event_type: event_name.to_owned() }
}

impl Default for SubscriptionBuilder {
    /// No name; ends when its handle is dropped.
    fn default() -> (b: SubscriptionBuilder)
        ensures
            b.name_spec() is None,
            b.auto_unsubscribe_spec(),
    {
        SubscriptionBuilder::new()
    }
}

} // verus!
