//! Executors for testing controllers.
//!
//! - [`RecordingExecutor`] records all effects without applying them, so
//!   tests can assert on what the functional core produced.
//! - [`FailingExecutor`] succeeds for the first N operations, then fails,
//!   for testing error handling paths.
use crate::result::ResourceDelete;
use vstd::prelude::*;

verus! {

/// The effects recorded by an executor, in the order they were applied.
pub struct RecordedEffects<U, S> {
    pub upserts: Seq<U>,
    pub status_updates: Seq<S>,
    pub deletes: Seq<ResourceDelete>,
}

impl<U, S> RecordedEffects<U, S> {
    /// Nothing recorded.
    pub open spec fn empty() -> Self {
        RecordedEffects { upserts: Seq::empty(), status_updates: Seq::empty(), deletes: Seq::empty() }
    }
}

/// An executor that records all effects without applying them.
pub struct RecordingExecutor<U, S> {
    upserts: Vec<U>,
    status_updates: Vec<S>,
    deletes: Vec<ResourceDelete>,
}

impl<U, S> View for RecordingExecutor<U, S> {
    type V = RecordedEffects<U, S>;

    closed spec fn view(&self) -> RecordedEffects<U, S> {
        RecordedEffects {
            upserts: self.upserts@,
            status_updates: self.status_updates@,
            deletes: self.deletes@,
        }
    }
}

impl<U, S> RecordingExecutor<U, S> {
    /// Create a new empty recording executor.
    pub fn new() -> (e: Self)
        ensures
            e@ == RecordedEffects::<U, S>::empty(),
    {
        let e = RecordingExecutor { upserts: Vec::new(), status_updates: Vec::new(), deletes: Vec::new() };
        assert(e@.upserts =~= Seq::<U>::empty());
        e
    }

    /// Get a clone of all recorded upserts.
    pub fn upserts(&self) -> (r: Vec<U>) where U: Clone
        ensures
            r@.len() == self@.upserts.len(),
            forall|i: int| 0 <= i < r@.len() ==> cloned(self@.upserts[i], #[trigger] r@[i]),
    {
        self.upserts.clone()
    }

    /// Get a clone of all recorded status updates.
    pub fn status_updates(&self) -> (r: Vec<S>) where S: Clone
        ensures
            r@.len() == self@.status_updates.len(),
            forall|i: int| 0 <= i < r@.len() ==> cloned(self@.status_updates[i], #[trigger] r@[i]),
    {
        self.status_updates.clone()
    }

    /// Get a clone of all recorded deletes.
    pub fn deletes(&self) -> (r: Vec<ResourceDelete>)
        ensures
            r@ == self@.deletes,
    {
        let r = self.deletes.clone();
        assert(r@ =~= self@.deletes);
        r
    }

    /// Record an upsert.
    pub fn execute_upsert(&mut self, upsert: &U) where U: Clone
        ensures
            final(self)@.upserts.len() == old(self)@.upserts.len() + 1,
            final(self)@.upserts.drop_last() == old(self)@.upserts,
            cloned(*upsert, final(self)@.upserts.last()),
            final(self)@.status_updates == old(self)@.status_updates,
            final(self)@.deletes == old(self)@.deletes,
    {
        self.upserts.push(upsert.clone());
        assert(self@.upserts.drop_last() =~= old(self)@.upserts);
    }

    /// Record a status update.
    pub fn execute_status_update(&mut self, update: &S) where S: Clone
        ensures
            final(self)@.status_updates.len() == old(self)@.status_updates.len() + 1,
            final(self)@.status_updates.drop_last() == old(self)@.status_updates,
            cloned(*update, final(self)@.status_updates.last()),
            final(self)@.upserts == old(self)@.upserts,
            final(self)@.deletes == old(self)@.deletes,
    {
        self.status_updates.push(update.clone());
        assert(self@.status_updates.drop_last() =~= old(self)@.status_updates);
    }

    /// Record a resource delete.
    pub fn execute_delete(&mut self, delete: &ResourceDelete)
        ensures
            final(self)@.deletes == old(self)@.deletes.push(*delete),
            final(self)@.upserts == old(self)@.upserts,
            final(self)@.status_updates == old(self)@.status_updates,
    {
        self.deletes.push(delete.clone());
    }
}

impl<U, S> Default for RecordingExecutor<U, S> {
    fn default() -> (e: Self)
        ensures
            e@ == RecordedEffects::<U, S>::empty(),
    {
        Self::new()
    }
}

/// The error of a [`FailingExecutor`].
#[derive(Debug)]
pub struct TestExecutorError(pub String);

impl TestExecutorError {
    /// The error as text.
    pub fn to_string(&self) -> (s: String)
        ensures
            s@ == "TestExecutorError: "@ + self.0@,
    {
        let mut s = String::from_str("TestExecutorError: ");
        s.append(self.0.as_str());
        s
    }
}

/// The character of the decimal digit `d`.
pub open spec fn digit_char(d: nat) -> char {
    (d + 48) as char
}

/// The decimal representation of `n`, without leading zeros.
pub open spec fn decimal(n: nat) -> Seq<char>
    decreases n,
{
    if n < 10 {
        seq![digit_char(n)]
    } else {
        decimal(n / 10) + seq![digit_char(n % 10)]
    }
}

/// The number that a sequence of decimal digits denotes.
pub open spec fn digits_value(s: Seq<char>) -> int
    decreases s.len(),
{
    if s.len() == 0 {
        0
    } else {
        digits_value(s.drop_last()) * 10 + (s.last() as int - 48)
    }
}

/// The decimal text of `n` is made of the digits `0` to `9`, starts with a
/// digit other than `0` unless `n` is zero, and denotes `n`.
pub proof fn law_decimal_denotes(n: nat)
    ensures
        decimal(n).len() > 0,
        forall|i: int| 0 <= i < decimal(n).len() ==> '0' <= #[trigger] decimal(n)[i] <= '9',
        n > 0 ==> decimal(n)[0] != '0',
        digits_value(decimal(n)) == n,
    decreases n,
{
    assert(digit_char(n % 10) as int == n % 10 + 48);
    if n < 10 {
        assert(decimal(n).drop_last() =~= Seq::<char>::empty());
        assert(digits_value(decimal(n).drop_last()) == 0);
        assert(decimal(n).last() == digit_char(n));
    }
    if n >= 10 {
        law_decimal_denotes(n / 10);
        let s = decimal(n);
        assert(s.drop_last() =~= decimal(n / 10));
        assert(s.last() == digit_char(n % 10));
        assert(digits_value(s) == digits_value(decimal(n / 10)) * 10 + (s.last() as int - 48));
        assert(digits_value(s) == (n / 10) * 10 + n % 10);
        assert(s[0] == decimal(n / 10)[0]);
        assert forall|i: int| 0 <= i < s.len() implies '0' <= #[trigger] s[i] <= '9' by {
            if i < s.len() - 1 {
                assert(s[i] == decimal(n / 10)[i]);
            }
        }
    }
}

/// The text of a digit.
fn digit_text(d: usize) -> (s: &'static str)
    requires
        d < 10,
    ensures
        s@ == seq![digit_char(d as nat)],
{
    proof {
        reveal_strlit("0");
        reveal_strlit("1");
        reveal_strlit("2");
        reveal_strlit("3");
        reveal_strlit("4");
        reveal_strlit("5");
        reveal_strlit("6");
        reveal_strlit("7");
        reveal_strlit("8");
        reveal_strlit("9");
    }
    match d {
        0 => "0",
        1 => "1",
        2 => "2",
        3 => "3",
        4 => "4",
        5 => "5",
        6 => "6",
        7 => "7",
        8 => "8",
        _ => "9",
    }
}

/// The decimal representation of `n`.
fn decimal_text(n: usize) -> (s: String)
    ensures
        s@ == decimal(n as nat),
    decreases n,
{
    if n < 10 {
        String::from_str(digit_text(n))
    } else {
        let mut s = decimal_text(n / 10);
        s.append(digit_text(n % 10));
        s
    }
}

/// The message of the error of a [`FailingExecutor`] that succeeds for
/// `fail_after` operations.
pub open spec fn failure_message(fail_after: nat) -> Seq<char> {
    "Simulated failure after "@ + decimal(fail_after) + " operations"@
}

/// The number of successful operations after one more operation, when
/// `calls` operations have succeeded and at most `fail_after` may.
pub open spec fn calls_after_operation(calls: nat, fail_after: nat) -> nat {
    if calls < fail_after {
        calls + 1
    } else {
        calls
    }
}

/// The number of successful operations after `k` operations of a fresh
/// executor that succeeds for `fail_after` operations.
pub open spec fn calls_after(k: nat, fail_after: nat) -> nat
    decreases k,
{
    if k == 0 {
        0
    } else {
        calls_after_operation(calls_after((k - 1) as nat, fail_after), fail_after)
    }
}

/// An executor that succeeds for the first `fail_after` operations, then
/// fails. Only the successful operations are recorded.
pub struct FailingExecutor<U, S> {
    inner: RecordingExecutor<U, S>,
    fail_after: usize,
    call_count: usize,
}

impl<U, S> FailingExecutor<U, S> {
    /// The effects of the successful operations.
    pub closed spec fn recorded(self) -> RecordedEffects<U, S> {
        self.inner@
    }

    /// The number of operations that succeed before the executor fails.
    pub closed spec fn limit(self) -> nat {
        self.fail_after as nat
    }

    /// The number of operations that have succeeded.
    pub closed spec fn calls(self) -> nat {
        self.call_count as nat
    }

    /// The next operation succeeds.
    pub open spec fn next_succeeds(self) -> bool {
        self.calls() < self.limit()
    }

    /// Create a new failing executor that succeeds for `fail_after` operations.
    pub fn new(fail_after: usize) -> (e: Self)
        ensures
            e.recorded() == RecordedEffects::<U, S>::empty(),
            e.limit() == fail_after,
            e.calls() == 0,
    {
        FailingExecutor { inner: RecordingExecutor::new(), fail_after, call_count: 0 }
    }

    /// Get a clone of all recorded upserts (from successful calls).
    pub fn upserts(&self) -> (r: Vec<U>) where U: Clone
        ensures
            r@.len() == self.recorded().upserts.len(),
            forall|i: int| 0 <= i < r@.len() ==> cloned(self.recorded().upserts[i], #[trigger] r@[i]),
    {
        self.inner.upserts()
    }

    /// Get a clone of all recorded status updates (from successful calls).
    pub fn status_updates(&self) -> (r: Vec<S>) where S: Clone
        ensures
            r@.len() == self.recorded().status_updates.len(),
            forall|i: int|
                0 <= i < r@.len() ==> cloned(self.recorded().status_updates[i], #[trigger] r@[i]),
    {
        self.inner.status_updates()
    }

    /// Get a clone of all recorded deletes (from successful calls).
    pub fn deletes(&self) -> (r: Vec<ResourceDelete>)
        ensures
            r@ == self.recorded().deletes,
    {
        self.inner.deletes()
    }

    /// Count one more operation, or fail when all allowed operations are used.
    fn check_and_increment(&mut self) -> (r: Result<(), TestExecutorError>)
        ensures
            r is Ok == old(self).next_succeeds(),
            r matches Err(e) ==> e.0@ == failure_message(old(self).limit()),
            final(self).calls() == calls_after_operation(old(self).calls(), old(self).limit()),
            final(self).limit() == old(self).limit(),
            final(self).recorded() == old(self).recorded(),
    {
        if self.call_count >= self.fail_after {
            let mut message = String::from_str("Simulated failure after ");
            let count = decimal_text(self.fail_after);
            message.append(count.as_str());
            message.append(" operations");
            Err(TestExecutorError(message))
        } else {
            self.call_count = self.call_count + 1;
            Ok(())
        }
    }

    /// Apply an upsert: record it if the operation succeeds.
    pub fn execute_upsert(&mut self, upsert: &U) -> (r: Result<(), TestExecutorError>) where
        U: Clone,
        ensures
            r is Ok == old(self).next_succeeds(),
            r matches Err(e) ==> e.0@ == failure_message(old(self).limit()),
            final(self).calls() == calls_after_operation(old(self).calls(), old(self).limit()),
            final(self).limit() == old(self).limit(),
            r is Err ==> final(self).recorded() == old(self).recorded(),
            r is Ok ==> {
                &&& final(self).recorded().upserts.drop_last() == old(self).recorded().upserts
                &&& final(self).recorded().upserts.len() == old(self).recorded().upserts.len() + 1
                &&& cloned(*upsert, final(self).recorded().upserts.last())
                &&& final(self).recorded().status_updates == old(self).recorded().status_updates
                &&& final(self).recorded().deletes == old(self).recorded().deletes
            },
    {
        self.check_and_increment()?;
        self.inner.execute_upsert(upsert);
        Ok(())
    }

    /// Apply a status update: record it if the operation succeeds.
    pub fn execute_status_update(&mut self, update: &S) -> (r: Result<(), TestExecutorError>) where
        S: Clone,
        ensures
            r is Ok == old(self).next_succeeds(),
            r matches Err(e) ==> e.0@ == failure_message(old(self).limit()),
            final(self).calls() == calls_after_operation(old(self).calls(), old(self).limit()),
            final(self).limit() == old(self).limit(),
            r is Err ==> final(self).recorded() == old(self).recorded(),
            r is Ok ==> {
                &&& final(self).recorded().status_updates.drop_last() == old(
                    self,
                ).recorded().status_updates
                &&& final(self).recorded().status_updates.len() == old(
                    self,
                ).recorded().status_updates.len() + 1
                &&& cloned(*update, final(self).recorded().status_updates.last())
                &&& final(self).recorded().upserts == old(self).recorded().upserts
                &&& final(self).recorded().deletes == old(self).recorded().deletes
            },
    {
        self.check_and_increment()?;
        self.inner.execute_status_update(update);
        Ok(())
    }

    /// Apply a resource delete: record it if the operation succeeds.
    pub fn execute_delete(&mut self, delete: &ResourceDelete) -> (r: Result<(), TestExecutorError>)
        ensures
            r is Ok == old(self).next_succeeds(),
            r matches Err(e) ==> e.0@ == failure_message(old(self).limit()),
            final(self).calls() == calls_after_operation(old(self).calls(), old(self).limit()),
            final(self).limit() == old(self).limit(),
            r is Err ==> final(self).recorded() == old(self).recorded(),
            r is Ok ==> {
                &&& final(self).recorded().deletes == old(self).recorded().deletes.push(*delete)
                &&& final(self).recorded().upserts == old(self).recorded().upserts
                &&& final(self).recorded().status_updates == old(self).recorded().status_updates
            },
    {
        self.check_and_increment()?;
        self.inner.execute_delete(delete);
        Ok(())
    }
}

/// A fresh failing executor counts operations of every kind alike: of its
/// first `k` operations, `min(k, fail_after)` succeed, and operation number
/// `k` (from zero) succeeds exactly when `k < fail_after`.
pub proof fn law_fails_after_limit(k: nat, fail_after: nat)
    ensures
        calls_after(k, fail_after) == if k < fail_after {
            k
        } else {
            fail_after
        },
        (calls_after(k, fail_after) < fail_after) == (k < fail_after),
    decreases k,
{
    if k > 0 {
        law_fails_after_limit((k - 1) as nat, fail_after);
    }
}

} // verus!
