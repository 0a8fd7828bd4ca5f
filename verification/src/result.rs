//! Reconciliation result types.
//!
//! A [`ReconcileResult`] describes effects as data. Instead of performing I/O
//! directly, the functional core returns a result describing what should
//! happen; the imperative shell then executes these effects.
//!
//! The result is generic over the upsert and status update types, so that
//! each controller can define its own effect types while reusing the
//! reconciliation machinery.
use vstd::prelude::*;

verus! {

/// Number of nanoseconds in one second.
pub const NANOS_PER_SEC: u32 = 1_000_000_000;

/// A span of time, as a number of whole seconds and a number of nanoseconds
/// below one second.
///
/// Durations are ordered by their length: first by whole seconds, then by
/// the nanoseconds that remain.
#[derive(Clone, Copy, Debug, PartialEq, Eq, Structural)]
pub struct Duration {
    secs: u64,
    nanos: u32,
}

impl Duration {
    /// The nanosecond part never reaches a whole second.
    #[verifier::type_invariant]
    pub closed spec fn well_formed(self) -> bool {
        self.nanos < NANOS_PER_SEC
    }

    /// The number of whole seconds.
    pub closed spec fn whole_secs(self) -> u64 {
        self.secs
    }

    /// The nanoseconds beyond the whole seconds.
    pub closed spec fn subsec(self) -> u32 {
        self.nanos
    }

    /// The length of the duration in nanoseconds.
    pub open spec fn total_nanos(self) -> int {
        self.whole_secs() * NANOS_PER_SEC + self.subsec()
    }

    /// The duration of `secs` whole seconds.
    pub closed spec fn of_secs(secs: u64) -> Duration {
        Duration { secs, nanos: 0 }
    }

    /// `self` is no longer than `other`.
    pub open spec fn no_longer_than(self, other: Duration) -> bool {
        ||| self.whole_secs() < other.whole_secs()
        ||| (self.whole_secs() == other.whole_secs() && self.subsec() <= other.subsec())
    }

    /// The shorter of two durations (the first one when they are equal).
    pub open spec fn shorter(self, other: Duration) -> Duration {
        if self.no_longer_than(other) {
            self
        } else {
            other
        }
    }

    /// The parts of a duration of whole seconds.
    pub proof fn lemma_of_secs(secs: u64)
        ensures
            Duration::of_secs(secs).whole_secs() == secs,
            Duration::of_secs(secs).subsec() == 0,
    {
    }

    /// Two durations with the same parts are the same duration.
    pub proof fn lemma_parts_determine(a: Duration, b: Duration)
        requires
            a.whole_secs() == b.whole_secs(),
            a.subsec() == b.subsec(),
        ensures
            a == b,
    {
    }

    /// Creates a duration of `secs` whole seconds.
    pub fn from_secs(secs: u64) -> (d: Duration)
        ensures
            d == Duration::of_secs(secs),
            d.whole_secs() == secs,
            d.subsec() == 0,
    {
        Duration { secs, nanos: 0 }
    }

    /// Creates a duration from whole seconds and additional nanoseconds;
    /// nanoseconds of a second or more carry into the seconds.
    pub fn new(secs: u64, nanos: u32) -> (d: Duration)
        requires
            secs + nanos / NANOS_PER_SEC <= u64::MAX,
        ensures
            d.whole_secs() == secs + nanos / NANOS_PER_SEC,
            d.subsec() == nanos % NANOS_PER_SEC,
            d.total_nanos() == secs * NANOS_PER_SEC + nanos,
    {
        let extra: u64 = (nanos / NANOS_PER_SEC) as u64;
        let d = Duration { secs: secs + extra, nanos: nanos % NANOS_PER_SEC };
        assert(d.total_nanos() == secs * NANOS_PER_SEC + nanos) by (nonlinear_arith)
            requires
                d.whole_secs() == secs + nanos / NANOS_PER_SEC,
                d.subsec() == nanos % NANOS_PER_SEC,
                d.total_nanos() == d.whole_secs() * NANOS_PER_SEC + d.subsec(),
        ;
        d
    }

    /// The number of whole seconds.
    pub fn as_secs(&self) -> (s: u64)
        ensures
            s == self.whole_secs(),
    {
        self.secs
    }

    /// The nanoseconds beyond the whole seconds, always below one second.
    pub fn subsec_nanos(&self) -> (n: u32)
        ensures
            n == self.subsec(),
            n < NANOS_PER_SEC,
    {
        proof {
            use_type_invariant(self);
        }
        self.nanos
    }

    /// The shorter of two durations.
    pub fn min(self, other: Duration) -> (d: Duration)
        ensures
            d == self.shorter(other),
            d == self || d == other,
            d.total_nanos() <= self.total_nanos(),
            d.total_nanos() <= other.total_nanos(),
    {
        proof {
            use_type_invariant(&self);
            use_type_invariant(&other);
            law_shorter_is_least(self, other);
        }
        if self.secs < other.secs || (self.secs == other.secs && self.nanos <= other.nanos) {
            self
        } else {
            other
        }
    }
}

/// When to requeue the reconciliation.
#[derive(Clone, Copy, Debug, PartialEq, Eq, Structural)]
pub enum RequeueDecision {
    /// Requeue after a duration (normal case).
    After(Duration),
    /// Requeue after a duration (error case, takes precedence over `After`).
    OnError(Duration),
    /// Don't requeue (terminal state, or a watch will trigger).
    Never,
}

impl RequeueDecision {
    /// The decision that combines two decisions: `Never` yields to any other
    /// decision; an error requeue takes precedence over a normal one; the
    /// shorter duration is kept.
    pub open spec fn combine(self, other: RequeueDecision) -> RequeueDecision {
        match (self, other) {
            (RequeueDecision::Never, r) => r,
            (r, RequeueDecision::Never) => r,
            (RequeueDecision::After(a), RequeueDecision::After(b)) => RequeueDecision::After(
                a.shorter(b),
            ),
            (RequeueDecision::OnError(a), RequeueDecision::OnError(b)) => RequeueDecision::OnError(
                a.shorter(b),
            ),
            (RequeueDecision::After(a), RequeueDecision::OnError(b)) => RequeueDecision::OnError(
                a.shorter(b),
            ),
            (RequeueDecision::OnError(b), RequeueDecision::After(a)) => RequeueDecision::OnError(
                a.shorter(b),
            ),
        }
    }

    /// The duration a decision waits, if any.
    pub open spec fn delay(self) -> Option<Duration> {
        match self {
            RequeueDecision::After(d) => Some(d),
            RequeueDecision::OnError(d) => Some(d),
            RequeueDecision::Never => None,
        }
    }

    /// Get the minimum of two requeue decisions.
    ///
    /// `Never` yields to any other decision. When mixing `After` and `OnError`,
    /// `OnError` takes precedence with the minimum duration.
    pub fn min(self, other: RequeueDecision) -> (r: RequeueDecision)
        ensures
            r == self.combine(other),
            self is Never ==> r == other,
            other is Never ==> r == self,
            (r is OnError) <==> (self is OnError || other is OnError),
            (r is Never) <==> (self is Never && other is Never),
            self.delay() is Some && other.delay() is Some ==> {
                let d = r.delay().unwrap();
                &&& r.delay() is Some
                &&& (d == self.delay().unwrap() || d == other.delay().unwrap())
                &&& d.total_nanos() <= self.delay().unwrap().total_nanos()
                &&& d.total_nanos() <= other.delay().unwrap().total_nanos()
            },
    {
        match (self, other) {
            (RequeueDecision::Never, r) => r,
            (r, RequeueDecision::Never) => r,
            (RequeueDecision::After(a), RequeueDecision::After(b)) => RequeueDecision::After(
                a.min(b),
            ),
            (RequeueDecision::OnError(a), RequeueDecision::OnError(b)) => RequeueDecision::OnError(
                a.min(b),
            ),
            (RequeueDecision::After(a), RequeueDecision::OnError(b)) => RequeueDecision::OnError(
                a.min(b),
            ),
            (RequeueDecision::OnError(b), RequeueDecision::After(a)) => {
                proof {
                    lemma_shorter_commutative(a, b);
                }
                RequeueDecision::OnError(a.min(b))
            },
        }
    }

    /// Get the duration to requeue after, if any.
    pub fn duration(&self) -> (d: Option<Duration>)
        ensures
            d == self.delay(),
    {
        match self {
            RequeueDecision::After(d) => Some(*d),
            RequeueDecision::OnError(d) => Some(*d),
            RequeueDecision::Never => None,
        }
    }

    /// Check if this is an error requeue.
    pub fn is_error(&self) -> (b: bool)
        ensures
            b == (*self is OnError),
    {
        match self {
            RequeueDecision::OnError(_) => true,
            _ => false,
        }
    }
}


/// Event severity levels.
#[derive(Clone, Copy, Debug, PartialEq, Eq, Structural)]
pub enum EventSeverity {
    /// Normal event (informational).
    Normal,
    /// Warning event (something unexpected but not fatal).
    Warning,
}

/// Events emitted during reconciliation (for observability).
#[derive(Debug)]
pub struct ReconcileEvent {
    /// Event severity.
    pub severity: EventSeverity,
    /// Short reason for the event.
    pub reason: String,
    /// Detailed message.
    pub message: String,
}

impl Clone for ReconcileEvent {
    fn clone(&self) -> (e: Self)
        ensures
            e == *self,
    {
        ReconcileEvent {
            severity: self.severity,
            reason: self.reason.clone(),
            message: self.message.clone(),
        }
    }
}

/// A resource to delete, identified by API coordinates.
#[derive(Debug)]
pub struct ResourceDelete {
    /// API group and version (e.g., "apps/v1").
    pub api_version: String,
    /// Resource kind (e.g., "Deployment").
    pub kind: String,
    /// Namespace (`None` for cluster-scoped resources).
    pub namespace: Option<String>,
    /// Resource name.
    pub name: String,
}

impl Clone for ResourceDelete {
    fn clone(&self) -> (d: Self)
        ensures
            d == *self,
    {
        let namespace = match &self.namespace {
            Some(ns) => Some(ns.clone()),
            None => None,
        };
        ResourceDelete {
            api_version: self.api_version.clone(),
            kind: self.kind.clone(),
            namespace,
            name: self.name.clone(),
        }
    }
}

impl ResourceDelete {
    /// Create a new resource delete descriptor.
    pub fn new(api_version: &str, kind: &str, namespace: Option<String>, name: &str) -> (d:
        ResourceDelete)
        ensures
            d.api_version@ == api_version@,
            d.kind@ == kind@,
            d.namespace == namespace,
            d.name@ == name@,
    {
        ResourceDelete {
            api_version: String::from_str(api_version),
            kind: String::from_str(kind),
            namespace,
            name: String::from_str(name),
        }
    }

    /// Create a delete descriptor for a namespaced resource.
    pub fn namespaced(api_version: &str, kind: &str, namespace: &str, name: &str) -> (d:
        ResourceDelete)
        ensures
            d.api_version@ == api_version@,
            d.kind@ == kind@,
            d.namespace is Some,
            d.namespace.unwrap()@ == namespace@,
            d.name@ == name@,
    {
        ResourceDelete::new(api_version, kind, Some(String::from_str(namespace)), name)
    }
}

/// The abstract content of a [`ReconcileResult`]: the effects in each
/// category, in the order they were added, and the requeue decision.
pub struct ReconcileResultView<U, S> {
    pub upserts: Seq<U>,
    pub deletes: Seq<ResourceDelete>,
    pub status_updates: Seq<S>,
    pub requeue: Option<RequeueDecision>,
    pub events: Seq<ReconcileEvent>,
}

/// The requeue decision of two merged results: the one that is present, or
/// the combination of both.
pub open spec fn merge_requeue(a: Option<RequeueDecision>, b: Option<RequeueDecision>) -> Option<
    RequeueDecision,
> {
    match (a, b) {
        (None, r) => r,
        (r, None) => r,
        (Some(x), Some(y)) => Some(x.combine(y)),
    }
}

impl<U, S> ReconcileResultView<U, S> {
    /// The result with no effects and no requeue decision.
    pub open spec fn empty() -> Self {
        ReconcileResultView {
            upserts: Seq::empty(),
            deletes: Seq::empty(),
            status_updates: Seq::empty(),
            requeue: None,
            events: Seq::empty(),
        }
    }

    /// `self` followed by `other`: the effects of `other` come after those of
    /// `self`, and the requeue decisions are merged.
    pub open spec fn merged(self, other: Self) -> Self {
        ReconcileResultView {
            upserts: self.upserts + other.upserts,
            deletes: self.deletes + other.deletes,
            status_updates: self.status_updates + other.status_updates,
            requeue: merge_requeue(self.requeue, other.requeue),
            events: self.events + other.events,
        }
    }
}

/// The result of a reconciliation: the effects to perform.
///
/// This is the output of the functional reconciliation core. It describes
/// all the effects that should be performed without performing them.
///
/// `U` is the upsert type (domain-specific resources to create or update),
/// and `S` is the status update type (domain-specific status patches).
#[derive(Debug, Clone)]
pub struct ReconcileResult<U, S> {
    /// Resources to create or update.
    pub upserts: Vec<U>,
    /// Resources to delete.
    pub deletes: Vec<ResourceDelete>,
    /// Status updates to apply.
    pub status_updates: Vec<S>,
    /// When to requeue this reconciliation.
    pub requeue: Option<RequeueDecision>,
    /// Events to emit (for debugging/observability).
    pub events: Vec<ReconcileEvent>,
}

impl<U, S> View for ReconcileResult<U, S> {
    type V = ReconcileResultView<U, S>;

    open spec fn view(&self) -> ReconcileResultView<U, S> {
        ReconcileResultView {
            upserts: self.upserts@,
            deletes: self.deletes@,
            status_updates: self.status_updates@,
            requeue: self.requeue,
            events: self.events@,
        }
    }
}

impl<U, S> Default for ReconcileResult<U, S> {
    fn default() -> (r: Self)
        ensures
            r@ == ReconcileResultView::<U, S>::empty(),
    {
        ReconcileResult {
            upserts: Vec::new(),
            deletes: Vec::new(),
            status_updates: Vec::new(),
            requeue: None,
            events: Vec::new(),
        }
    }
}

impl<U, S> ReconcileResult<U, S> {
    /// Create a new empty result.
    pub fn new() -> (r: Self)
        ensures
            r@ == ReconcileResultView::<U, S>::empty(),
    {
        Self::default()
    }

    /// Set the requeue decision to requeue after a duration.
    pub fn with_requeue(self, after: Duration) -> (r: Self)
        ensures
            r@ == (ReconcileResultView { requeue: Some(RequeueDecision::After(after)), ..self@ }),
    {
        let mut r = self;
        r.requeue = Some(RequeueDecision::After(after));
        r
    }

    /// Set the requeue decision for error cases.
    pub fn with_requeue_on_error(self, after: Duration) -> (r: Self)
        ensures
            r@ == (ReconcileResultView { requeue: Some(RequeueDecision::OnError(after)), ..self@ }),
    {
        let mut r = self;
        r.requeue = Some(RequeueDecision::OnError(after));
        r
    }

    /// Add a resource to delete.
    pub fn delete_resource(self, delete: ResourceDelete) -> (r: Self)
        ensures
            r@ == (ReconcileResultView { deletes: self@.deletes.push(delete), ..self@ }),
    {
        let mut r = self;
        r.deletes.push(delete);
        r
    }

    /// Emit an event.
    pub fn emit_event(self, event: ReconcileEvent) -> (r: Self)
        ensures
            r@ == (ReconcileResultView { events: self@.events.push(event), ..self@ }),
    {
        let mut r = self;
        r.events.push(event);
        r
    }

    /// Emit a normal (informational) event.
    pub fn emit_normal(self, reason: &str, message: &str) -> (r: Self)
        ensures
            r@ == (ReconcileResultView { events: r@.events, ..self@ }),
            r@.events.drop_last() == self@.events,
            r@.events.len() == self@.events.len() + 1,
            r@.events.last().severity == EventSeverity::Normal,
            r@.events.last().reason@ == reason@,
            r@.events.last().message@ == message@,
    {
        self.emit_event(
            ReconcileEvent {
                severity: EventSeverity::Normal,
                reason: String::from_str(reason),
                message: String::from_str(message),
            },
        )
    }

    /// Emit a warning event.
    pub fn emit_warning(self, reason: &str, message: &str) -> (r: Self)
        ensures
            r@ == (ReconcileResultView { events: r@.events, ..self@ }),
            r@.events.drop_last() == self@.events,
            r@.events.len() == self@.events.len() + 1,
            r@.events.last().severity == EventSeverity::Warning,
            r@.events.last().reason@ == reason@,
            r@.events.last().message@ == message@,
    {
        self.emit_event(
            ReconcileEvent {
                severity: EventSeverity::Warning,
                reason: String::from_str(reason),
                message: String::from_str(message),
            },
        )
    }

    /// Merge another result into this one.
    ///
    /// Combines upserts, deletes, status updates, and events from both
    /// results. The minimum requeue time is kept.
    pub fn merge(self, other: ReconcileResult<U, S>) -> (r: Self)
        ensures
            r@ == self@.merged(other@),
            r@.upserts == self@.upserts + other@.upserts,
            r@.deletes == self@.deletes + other@.deletes,
            r@.status_updates == self@.status_updates + other@.status_updates,
            r@.events == self@.events + other@.events,
            self@.requeue is None ==> r@.requeue == other@.requeue,
            other@.requeue is None ==> r@.requeue == self@.requeue,
            self@.requeue is Some && other@.requeue is Some ==> r@.requeue == Some(
                self@.requeue.unwrap().combine(other@.requeue.unwrap()),
            ),
    {
        let mut r = self;
        let mut other = other;
        r.upserts.append(&mut other.upserts);
        r.deletes.append(&mut other.deletes);
        r.status_updates.append(&mut other.status_updates);
        r.events.append(&mut other.events);
        r.requeue =
            match (r.requeue, other.requeue) {
                (None, q) => q,
                (q, None) => q,
                (Some(a), Some(b)) => Some(a.min(b)),
            };
        r
    }

    /// Check if this result has any upserts.
    pub fn has_upserts(&self) -> (b: bool)
        ensures
            b == (self@.upserts.len() > 0),
    {
        !self.upserts.is_empty()
    }

    /// Check if this result has any deletes.
    pub fn has_deletes(&self) -> (b: bool)
        ensures
            b == (self@.deletes.len() > 0),
    {
        !self.deletes.is_empty()
    }

    /// Check if this result has any status updates.
    pub fn has_status_updates(&self) -> (b: bool)
        ensures
            b == (self@.status_updates.len() > 0),
    {
        !self.status_updates.is_empty()
    }
}

/// Merging with an empty result, on either side, changes nothing.
pub proof fn law_merge_empty_is_identity<U, S>(r: ReconcileResultView<U, S>)
    ensures
        ReconcileResultView::<U, S>::empty().merged(r) == r,
        r.merged(ReconcileResultView::<U, S>::empty()) == r,
{
    assert(ReconcileResultView::<U, S>::empty().merged(r).upserts =~= r.upserts);
    assert(ReconcileResultView::<U, S>::empty().merged(r).deletes =~= r.deletes);
    assert(ReconcileResultView::<U, S>::empty().merged(r).status_updates =~= r.status_updates);
    assert(ReconcileResultView::<U, S>::empty().merged(r).events =~= r.events);
    assert(r.merged(ReconcileResultView::<U, S>::empty()).upserts =~= r.upserts);
    assert(r.merged(ReconcileResultView::<U, S>::empty()).deletes =~= r.deletes);
    assert(r.merged(ReconcileResultView::<U, S>::empty()).status_updates =~= r.status_updates);
    assert(r.merged(ReconcileResultView::<U, S>::empty()).events =~= r.events);
}

/// Merging three results does not depend on how the merges are grouped.
pub proof fn law_merge_associative<U, S>(
    a: ReconcileResultView<U, S>,
    b: ReconcileResultView<U, S>,
    c: ReconcileResultView<U, S>,
)
    ensures
        a.merged(b).merged(c) == a.merged(b.merged(c)),
{
    assert(a.upserts + b.upserts + c.upserts =~= a.upserts + (b.upserts + c.upserts));
    assert(a.deletes + b.deletes + c.deletes =~= a.deletes + (b.deletes + c.deletes));
    assert(a.status_updates + b.status_updates + c.status_updates =~= a.status_updates + (
    b.status_updates + c.status_updates));
    assert(a.events + b.events + c.events =~= a.events + (b.events + c.events));
    match (a.requeue, b.requeue, c.requeue) {
        (Some(x), Some(y), Some(z)) => law_min_associative(x, y, z),
        _ => {},
    }
}

/// The requeue decision of a merge does not depend on the order of the
/// merged results.
pub proof fn law_merge_requeue_commutative(a: Option<RequeueDecision>, b: Option<RequeueDecision>)
    ensures
        merge_requeue(a, b) == merge_requeue(b, a),
{
    match (a, b) {
        (Some(x), Some(y)) => law_min_commutative(x, y),
        _ => {},
    }
}

/// Combining two decisions does not depend on their order.
pub proof fn law_min_commutative(a: RequeueDecision, b: RequeueDecision)
    ensures
        a.combine(b) == b.combine(a),
{
    match (a, b) {
        (RequeueDecision::After(x), RequeueDecision::After(y)) => lemma_shorter_commutative(x, y),
        (RequeueDecision::OnError(x), RequeueDecision::OnError(y)) => lemma_shorter_commutative(x, y),
        _ => {},
    }
}

/// Combining three decisions does not depend on how they are grouped.
pub proof fn law_min_associative(a: RequeueDecision, b: RequeueDecision, c: RequeueDecision)
    ensures
        a.combine(b).combine(c) == a.combine(b.combine(c)),
{
    match (a.delay(), b.delay(), c.delay()) {
        (Some(x), Some(y), Some(z)) => {
            lemma_shorter_associative(x, y, z);
            lemma_shorter_commutative(x, y);
            lemma_shorter_commutative(y, z);
            lemma_shorter_commutative(x, z);
            lemma_shorter_commutative(x.shorter(y), z);
            lemma_shorter_commutative(x, y.shorter(z));
            lemma_shorter_associative(y, x, z);
            lemma_shorter_associative(x, z, y);
        },
        _ => {},
    }
}

/// `Never` yields to any decision, on either side.
pub proof fn law_never_yields(r: RequeueDecision)
    ensures
        RequeueDecision::Never.combine(r) == r,
        r.combine(RequeueDecision::Never) == r,
{
}

/// Combining a decision with itself gives the same decision.
pub proof fn law_min_idempotent(r: RequeueDecision)
    ensures
        r.combine(r) == r,
{
}

/// The combination is an error requeue exactly when one of the two is.
pub proof fn law_error_takes_precedence(a: RequeueDecision, b: RequeueDecision)
    ensures
        (a.combine(b) is OnError) <==> (a is OnError || b is OnError),
{
}

/// The combination waits for the shorter of the two durations; `Never`
/// contributes no duration.
pub proof fn law_min_keeps_shorter_duration(a: RequeueDecision, b: RequeueDecision)
    ensures
        a.combine(b).delay() == match (a.delay(), b.delay()) {
            (Some(x), Some(y)) => Some(x.shorter(y)),
            (Some(x), None) => Some(x),
            (None, Some(y)) => Some(y),
            (None, None) => None::<Duration>,
        },
{
    match (a, b) {
        (RequeueDecision::OnError(x), RequeueDecision::After(y)) => lemma_shorter_commutative(x, y),
        _ => {},
    }
}

/// The shorter of two durations is one of them, and no longer than either,
/// measured in nanoseconds.
pub proof fn law_shorter_is_least(x: Duration, y: Duration)
    requires
        x.well_formed(),
        y.well_formed(),
    ensures
        x.shorter(y) == x || x.shorter(y) == y,
        x.shorter(y).total_nanos() <= x.total_nanos(),
        x.shorter(y).total_nanos() <= y.total_nanos(),
{
    assert(x.subsec() < NANOS_PER_SEC);
    assert(y.subsec() < NANOS_PER_SEC);
    if x.whole_secs() < y.whole_secs() {
        assert(x.whole_secs() * NANOS_PER_SEC + NANOS_PER_SEC <= y.whole_secs() * NANOS_PER_SEC)
            by (nonlinear_arith)
            requires
                x.whole_secs() < y.whole_secs(),
        ;
    } else if y.whole_secs() < x.whole_secs() {
        assert(y.whole_secs() * NANOS_PER_SEC + NANOS_PER_SEC <= x.whole_secs() * NANOS_PER_SEC)
            by (nonlinear_arith)
            requires
                y.whole_secs() < x.whole_secs(),
        ;
    }
}

/// Combining two decisions waits for the least of their durations: the
/// combination carries one of the input durations, no longer than either;
/// when one input is `Never`, the combination is the other input; it is an
/// error requeue exactly when an input is, and `Never` only when both are.
pub proof fn law_min_waits_least(a: RequeueDecision, b: RequeueDecision)
    requires
        a.delay() matches Some(x) ==> x.well_formed(),
        b.delay() matches Some(y) ==> y.well_formed(),
    ensures
        a is Never ==> a.combine(b) == b,
        b is Never ==> a.combine(b) == a,
        (a.combine(b) is OnError) <==> (a is OnError || b is OnError),
        (a.combine(b) is Never) <==> (a is Never && b is Never),
        a.delay() is Some && b.delay() is Some ==> {
            let d = a.combine(b).delay().unwrap();
            &&& a.combine(b).delay() is Some
            &&& (d == a.delay().unwrap() || d == b.delay().unwrap())
            &&& d.total_nanos() <= a.delay().unwrap().total_nanos()
            &&& d.total_nanos() <= b.delay().unwrap().total_nanos()
        },
{
    match (a.delay(), b.delay()) {
        (Some(x), Some(y)) => {
            law_shorter_is_least(x, y);
            law_shorter_is_least(y, x);
            lemma_shorter_commutative(x, y);
        },
        _ => {},
    }
}

/// A merge holds the effects of the first result followed by those of the
/// second, in each category, and keeps the requeue decision that is present
/// (the combination when both are).
pub proof fn law_merge_appends<U, S>(a: ReconcileResultView<U, S>, b: ReconcileResultView<U, S>)
    ensures
        a.merged(b).upserts == a.upserts + b.upserts,
        a.merged(b).deletes == a.deletes + b.deletes,
        a.merged(b).status_updates == a.status_updates + b.status_updates,
        a.merged(b).events == a.events + b.events,
        a.merged(b).deletes.len() == a.deletes.len() + b.deletes.len(),
        a.merged(b).upserts.len() == a.upserts.len() + b.upserts.len(),
        a.merged(b).status_updates.len() == a.status_updates.len() + b.status_updates.len(),
        a.merged(b).events.len() == a.events.len() + b.events.len(),
        a.requeue is None ==> a.merged(b).requeue == b.requeue,
        b.requeue is None ==> a.merged(b).requeue == a.requeue,
        a.requeue is Some && b.requeue is Some ==> a.merged(b).requeue == Some(
            a.requeue.unwrap().combine(b.requeue.unwrap()),
        ),
{
}

/// The shorter of two durations does not depend on their order.
pub proof fn lemma_shorter_commutative(x: Duration, y: Duration)
    ensures
        x.shorter(y) == y.shorter(x),
{
    if x.no_longer_than(y) && y.no_longer_than(x) {
        Duration::lemma_parts_determine(x, y);
    }
}

/// The shorter of three durations does not depend on the grouping.
pub proof fn lemma_shorter_associative(x: Duration, y: Duration, z: Duration)
    ensures
        x.shorter(y).shorter(z) == x.shorter(y.shorter(z)),
{
}

} // verus!
