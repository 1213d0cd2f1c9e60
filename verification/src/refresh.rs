//! The weather cache and its retry policy.
//!
//! The daemon keeps the last snapshot it fetched successfully and hands it to
//! clients; a refresh makes a bounded number of attempts before giving up.
use crate::weather::Weather;
use vstd::prelude::*;

verus! {

/// A bounded run of attempts, numbered from 1.
#[derive(Debug, Clone, Copy, PartialEq, Eq, Structural)]
pub struct Attempts {
    made: u8,
    limit: u8,
}

impl Attempts {
    pub closed spec fn made(self) -> u8 {
        self.made
    }

    pub closed spec fn limit(self) -> u8 {
        self.limit
    }

    /// A fresh run that allows `limit` attempts.
    pub closed spec fn spec_new(limit: u8) -> Attempts {
        Attempts { made: 0, limit }
    }

    /// The run after one more call of [`Self::next`], and what that call
    /// returns.
    pub closed spec fn spec_next(self) -> (Attempts, Option<u8>) {
        if self.made < self.limit {
            (Attempts { made: (self.made + 1) as u8, limit: self.limit }, Some((self.made + 1) as u8))
        } else {
            (self, None)
        }
    }

    pub fn new(limit: u8) -> (a: Attempts)
        ensures
            a == Self::spec_new(limit),
            a.made() == 0,
            a.limit() == limit,
    {
        Attempts { made: 0, limit }
    }

    /// Starts the next attempt and returns its number, or `None` once
    /// `limit` attempts have been made.
    pub fn next(&mut self) -> (n: Option<u8>)
        ensures
            (*final(self), n) == old(self).spec_next(),
            old(self).made() < old(self).limit() ==> n == Some((old(self).made() + 1) as u8),
            old(self).made() >= old(self).limit() ==> n is None,
            final(self).made() == if old(self).made() < old(self).limit() {
                (old(self).made() + 1) as u8
            } else {
                old(self).made()
            },
            final(self).limit() == old(self).limit(),
    {
        if self.made < self.limit {
            self.made = self.made + 1;
            Some(self.made)
        } else {
            None
        }
    }
}

/// What happened since the last step of a retry run.
#[derive(Debug, Clone, Copy, PartialEq, Eq, Structural)]
pub enum RetryEvent {
    /// The run begins.
    Started,
    /// The last attempt succeeded.
    Succeeded,
    /// The last attempt failed.
    Failed,
    /// The pause after a failed attempt is over.
    Paused,
}

/// What a retry run does next.
#[derive(Debug, Clone, Copy, PartialEq, Eq, Structural)]
pub enum RetryStep {
    /// Make the attempt with this number (from 1).
    Attempt(u8),
    /// Pause before going on.
    Pause,
    /// Stop: the last attempt succeeded.
    Finish,
    /// Stop: every attempt failed.
    GiveUp,
}

impl Attempts {
    /// The next step of the run after `event`: an attempt succeeded ends the
    /// run; a failed one is followed by a pause; at the start and after a
    /// pause comes the next attempt, or giving up once `limit` attempts have
    /// been made.
    pub fn step(&mut self, event: RetryEvent) -> (s: RetryStep)
        ensures
            event is Succeeded ==> s is Finish && *final(self) == *old(self),
            event is Failed ==> s is Pause && *final(self) == *old(self),
            (event is Started || event is Paused) ==> match old(self).spec_next() {
                (a, Some(n)) => s == RetryStep::Attempt(n) && *final(self) == a,
                (a, None) => s is GiveUp && *final(self) == a,
            },
            (event is Started || event is Paused) && old(self).made() < old(self).limit() ==> s
                == RetryStep::Attempt((old(self).made() + 1) as u8),
            (event is Started || event is Paused) && old(self).made() >= old(self).limit() ==> s
                is GiveUp,
    {
        match event {
            RetryEvent::Succeeded => RetryStep::Finish,
            RetryEvent::Failed => RetryStep::Pause,
            RetryEvent::Started | RetryEvent::Paused => match self.next() {
                Some(n) => RetryStep::Attempt(n),
                None => RetryStep::GiveUp,
            },
        }
    }
}

/// A run of attempts after `k` calls of [`Attempts::next`].
pub open spec fn after_calls(a: Attempts, k: nat) -> Attempts
    decreases k,
{
    if k == 0 {
        a
    } else {
        after_calls(a, (k - 1) as nat).spec_next().0
    }
}

/// A fresh run with `limit` hands out the numbers 1, 2, ..., `limit` on its
/// first `limit` calls and `None` on every call after that: the `(k + 1)`-th
/// call returns `Some(k + 1)` exactly when `k < limit`. Through
/// [`Attempts::step`], a run whose attempts all fail makes attempts 1 to
/// `limit`, each followed by a pause, and then gives up.
pub proof fn theorem_attempt_numbers(limit: u8, k: nat)
    ensures
        after_calls(Attempts::spec_new(limit), k).spec_next().1 == if k < limit {
            Some((k + 1) as u8)
        } else {
            None::<u8>
        },
        after_calls(Attempts::spec_new(limit), k).made() == if k < limit {
            k
        } else {
            limit as nat
        },
        after_calls(Attempts::spec_new(limit), k).limit() == limit,
    decreases k,
{
    if k > 0 {
        theorem_attempt_numbers(limit, (k - 1) as nat);
    }
}

/// The weather client's state: the handles it fetches with, and the last
/// snapshot fetched successfully.
///
/// `C` holds what the fetching needs (the daemon uses its HTTP clients).
pub struct WeatherClient<C> {
    clients: C,
    cached: Option<Weather>,
}

impl<C> WeatherClient<C> {
    /// Attempts made to fetch the first snapshot at start-up.
    pub const INITIAL_ATTEMPTS: u8 = 10;

    /// Attempts made at each periodic refresh.
    pub const REFRESH_ATTEMPTS: u8 = 10;

    /// The last snapshot fetched successfully, if any.
    pub closed spec fn cached(self) -> Option<Weather> {
        self.cached
    }

    pub closed spec fn spec_clients(self) -> C {
        self.clients
    }

    /// A client that has fetched nothing yet.
    pub fn new(clients: C) -> (w: Self)
        ensures
            w.cached() is None,
            w.spec_clients() == clients,
    {
        WeatherClient { clients, cached: None }
    }

    pub fn clients(&self) -> (c: &C)
        ensures
            *c == self.spec_clients(),
    {
        &self.clients
    }

    /// The last snapshot fetched successfully, if any.
    pub fn current(&self) -> (w: Option<Weather>)
        ensures
            w == self.cached(),
    {
        self.cached
    }

    /// Records the outcome of one fetch attempt and returns it: a fetched
    /// snapshot replaces the cached one; a failed attempt leaves it as it
    /// was.
    pub fn record_refresh(&mut self, fetched: Option<Weather>) -> (r: Option<Weather>)
        ensures
            r == fetched,
            final(self).cached() == if fetched is Some {
                fetched
            } else {
                old(self).cached()
            },
            final(self).spec_clients() == old(self).spec_clients(),
    {
        if let Some(w) = fetched {
            self.cached = Some(w);
        }
        fetched
    }
}

/// The snapshot a client holds after fetch attempts with the outcomes
/// `outcomes`, in order: the last one that succeeded, or none.
pub open spec fn last_fetched(outcomes: Seq<Option<Weather>>) -> Option<Weather>
    decreases outcomes.len(),
{
    if outcomes.len() == 0 {
        None
    } else if outcomes.last() is Some {
        outcomes.last()
    } else {
        last_fetched(outcomes.drop_last())
    }
}

/// The cache follows the fetches: a new client holds
/// `last_fetched(seq![])`, and if a client holds `last_fetched(s)`, after
/// [`WeatherClient::record_refresh`] with outcome `o` it holds
/// `last_fetched(s.push(o))`. So `current` gives the last snapshot fetched
/// successfully, or `None` if no fetch ever succeeded.
pub proof fn theorem_cache_follows_fetches<C>(
    before: WeatherClient<C>,
    after: WeatherClient<C>,
    s: Seq<Option<Weather>>,
    o: Option<Weather>,
)
    requires
        before.cached() == last_fetched(s),
        after.cached() == if o is Some {
            o
        } else {
            before.cached()
        },
    ensures
        after.cached() == last_fetched(s.push(o)),
        last_fetched(Seq::<Option<Weather>>::empty()) is None,
{
    assert(s.push(o).drop_last() =~= s);
}

} // verus!
