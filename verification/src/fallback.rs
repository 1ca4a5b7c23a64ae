//! Gateway fallbacks: what a platform answers with when an operation fails.

use vstd::prelude::*;

use crate::platform::push_str;
use crate::strmap::StrMap;
use crate::text::opt_view;

verus! {

/// Fallback strategy for gateway operations.
#[derive(Debug, PartialEq, Eq)]
pub enum FallbackStrategy {
    BackupPlatform(String),
    Cached,
    Default,
    Queue,
    NoFallback,
}

impl Clone for FallbackStrategy {
    fn clone(&self) -> (r: Self)
        ensures
            r == *self,
    {
        match self {
            FallbackStrategy::BackupPlatform(p) => FallbackStrategy::BackupPlatform(p.clone()),
            FallbackStrategy::Cached => FallbackStrategy::Cached,
            FallbackStrategy::Default => FallbackStrategy::Default,
            FallbackStrategy::Queue => FallbackStrategy::Queue,
            FallbackStrategy::NoFallback => FallbackStrategy::NoFallback,
        }
    }
}

/// Fallback result for gateway operations.
#[derive(Debug)]
pub struct FallbackResult<T> {
    pub fallback_used: bool,
    pub value: Option<T>,
    pub strategy: Option<FallbackStrategy>,
    pub original_error: Option<String>,
}

impl<T> FallbackResult<T> {
    /// A plain success.
    pub fn success(value: T) -> (r: Self)
        ensures
            r == (FallbackResult::<T> {
                fallback_used: false,
                value: Some(value),
                strategy: None,
                original_error: None,
            }),
    {
        FallbackResult { fallback_used: false, value: Some(value), strategy: None, original_error: None }
    }

    /// A value obtained through a fallback strategy.
    pub fn fallback(value: T, strategy: FallbackStrategy, original_error: Option<String>) -> (r: Self)
        ensures
            r == (FallbackResult::<T> {
                fallback_used: true,
                value: Some(value),
                strategy: Some(strategy),
                original_error: original_error,
            }),
    {
        FallbackResult { fallback_used: true, value: Some(value), strategy: Some(strategy), original_error }
    }

    /// A failure with its error.
    pub fn failure(original_error: String) -> (r: Self)
        ensures
            r == (FallbackResult::<T> {
                fallback_used: false,
                value: None,
                strategy: None,
                original_error: Some(original_error),
            }),
    {
        FallbackResult { fallback_used: false, value: None, strategy: None, original_error: Some(original_error) }
    }

    /// Whether a value is present.
    pub fn is_success(&self) -> (b: bool)
        ensures
            b == self.value.is_some(),
    {
        self.value.is_some()
    }

    /// The value, or `default`.
    pub fn unwrap_or(self, default: T) -> (v: T)
        ensures
            v == (match self.value {
                Some(x) => x,
                None => default,
            }),
    {
        match self.value {
            Some(x) => x,
            None => default,
        }
    }
}

/// What `apply_fallback` answers, over character sequences: whether a
/// fallback was used, the value and the error.
pub open spec fn fallback_answer(
    strategy: FallbackStrategy,
    cached: Option<Seq<char>>,
    err: Option<Seq<char>>,
) -> (bool, Option<Seq<char>>, Option<Seq<char>>) {
    match strategy {
        FallbackStrategy::BackupPlatform(b) => (true, Some("Using backup platform: "@ + b@), err),
        FallbackStrategy::Cached => match cached {
            Some(c) => (true, Some(c), err),
            None => (false, None, Some(
                match err {
                    Some(e) => e,
                    None => "No cached response"@,
                },
            )),
        },
        FallbackStrategy::Default => (true, Some("Service temporarily unavailable"@), err),
        FallbackStrategy::Queue => (true, Some("Message queued for later retry"@), err),
        FallbackStrategy::NoFallback => (false, None, Some(
            match err {
                Some(e) => e,
                None => "No fallback available"@,
            },
        )),
    }
}

/// Fallback manager: a strategy per platform and cached responses.
pub struct FallbackManager {
    default_strategy: FallbackStrategy,
    platform_strategies: StrMap<FallbackStrategy>,
    cached_responses: StrMap<String>,
}

impl FallbackManager {
    /// The strategy for platforms without one of their own.
    pub closed spec fn default_strat(&self) -> FallbackStrategy {
        self.default_strategy
    }

    /// Strategies by platform.
    pub closed spec fn strategies(&self) -> Map<Seq<char>, FallbackStrategy> {
        self.platform_strategies@
    }

    /// Cached responses by platform.
    pub closed spec fn cache(&self) -> Map<Seq<char>, Seq<char>> {
        self.cached_responses@.map_values(|s: String| s@)
    }

    /// Internal consistency.
    pub closed spec fn wf(&self) -> bool {
        self.platform_strategies.wf() && self.cached_responses.wf()
    }

    /// The strategy a platform gets.
    pub open spec fn strategy_for(&self, p: Seq<char>) -> FallbackStrategy {
        if self.strategies().contains_key(p) {
            self.strategies()[p]
        } else {
            self.default_strat()
        }
    }

    /// A manager with no strategies (default `None`) and an empty cache.
    pub fn new() -> (m: Self)
        ensures
            m.wf(),
            m.default_strat() == FallbackStrategy::NoFallback,
            m.strategies() == Map::<Seq<char>, FallbackStrategy>::empty(),
            m.cache() == Map::<Seq<char>, Seq<char>>::empty(),
    {
        let m = FallbackManager {
            default_strategy: FallbackStrategy::NoFallback,
            platform_strategies: StrMap::new(),
            cached_responses: StrMap::new(),
        };
        assert(m.cache() =~= Map::<Seq<char>, Seq<char>>::empty());
        m
    }

    /// A manager with the given default strategy.
    pub fn with_default_strategy(strategy: FallbackStrategy) -> (m: Self)
        ensures
            m.wf(),
            m.default_strat() == strategy,
            m.strategies() == Map::<Seq<char>, FallbackStrategy>::empty(),
            m.cache() == Map::<Seq<char>, Seq<char>>::empty(),
    {
        let m = FallbackManager {
            default_strategy: strategy,
            platform_strategies: StrMap::new(),
            cached_responses: StrMap::new(),
        };
        assert(m.cache() =~= Map::<Seq<char>, Seq<char>>::empty());
        m
    }

    /// Sets a platform's strategy.
    pub fn set_platform_strategy(&mut self, platform: &str, strategy: FallbackStrategy)
        requires
            old(self).wf(),
        ensures
            final(self).wf(),
            final(self).strategies() == old(self).strategies().insert(platform@, strategy),
            final(self).default_strat() == old(self).default_strat(),
            final(self).cache() == old(self).cache(),
    {
        self.platform_strategies.insert(platform.to_owned(), strategy);
    }

    /// A platform's strategy (the default when it has none).
    pub fn get_platform_strategy(&self, platform: &str) -> (s: FallbackStrategy)
        requires
            self.wf(),
        ensures
            s == self.strategy_for(platform@),
    {
        match self.platform_strategies.get(platform) {
            Some(s) => s.clone(),
            None => self.default_strategy.clone(),
        }
    }

    /// Caches a platform's response.
    pub fn cache_response(&mut self, platform: &str, response: &str)
        requires
            old(self).wf(),
        ensures
            final(self).wf(),
            final(self).cache() == old(self).cache().insert(platform@, response@),
            final(self).strategies() == old(self).strategies(),
            final(self).default_strat() == old(self).default_strat(),
    {
        self.cached_responses.insert(platform.to_owned(), response.to_owned());
        assert(self.cache() =~= old(self).cache().insert(platform@, response@));
    }

    /// A platform's cached response.
    pub fn get_cached_response(&self, platform: &str) -> (r: Option<&String>)
        requires
            self.wf(),
        ensures
            match r {
                Some(s) => self.cache().contains_key(platform@) && s@ == self.cache()[platform@],
                None => !self.cache().contains_key(platform@),
            },
    {
        self.cached_responses.get(platform)
    }

    /// The fallback answer for a failed operation on `platform`.
    pub fn apply_fallback(&self, platform: &str, original_error: Option<String>) -> (r: FallbackResult<String>)
        requires
            self.wf(),
        ensures
            r.strategy == (if fallback_answer(
                self.strategy_for(platform@),
                if self.cache().contains_key(platform@) {
                    Some(self.cache()[platform@])
                } else {
                    None
                },
                opt_view(original_error),
            ).0 {
                Some(self.strategy_for(platform@))
            } else {
                None
            }),
            (r.fallback_used, opt_view(r.value), opt_view(r.original_error)) == fallback_answer(
                self.strategy_for(platform@),
                if self.cache().contains_key(platform@) {
                    Some(self.cache()[platform@])
                } else {
                    None
                },
                opt_view(original_error),
            ),
    {
        let strategy = self.get_platform_strategy(platform);
        match &strategy {
            FallbackStrategy::BackupPlatform(backup) => {
                let mut text = "Using backup platform: ".to_owned();
                push_str(&mut text, backup.as_str());
                let s2 = strategy.clone();
                FallbackResult::fallback(text, s2, original_error)
            },
            FallbackStrategy::Cached => {
                match self.get_cached_response(platform) {
                    Some(cached) => FallbackResult::fallback(cached.clone(), strategy.clone(), original_error),
                    None => FallbackResult::failure(
                        match original_error {
                            Some(e) => e,
                            None => "No cached response".to_owned(),
                        },
                    ),
                }
            },
            FallbackStrategy::Default => FallbackResult::fallback(
                "Service temporarily unavailable".to_owned(),
                strategy.clone(),
                original_error,
            ),
            FallbackStrategy::Queue => FallbackResult::fallback(
                "Message queued for later retry".to_owned(),
                strategy.clone(),
                original_error,
            ),
            FallbackStrategy::NoFallback => FallbackResult::failure(
                match original_error {
                    Some(e) => e,
                    None => "No fallback available".to_owned(),
                },
            ),
        }
    }

    /// Empties the cache.
    pub fn clear_cache(&mut self)
        requires
            old(self).wf(),
        ensures
            final(self).wf(),
            final(self).cache() == Map::<Seq<char>, Seq<char>>::empty(),
            final(self).strategies() == old(self).strategies(),
            final(self).default_strat() == old(self).default_strat(),
    {
        self.cached_responses.clear();
        assert(self.cache() =~= Map::<Seq<char>, Seq<char>>::empty());
    }

    /// Number of cached responses.
    pub fn cache_size(&self) -> (n: usize)
        requires
            self.wf(),
        ensures
            n == self.cache().len(),
    {
        proof {
            assert(self.cache().dom() =~= self.cached_responses@.dom());
        }
        self.cached_responses.len()
    }
}

impl Default for FallbackManager {
    fn default() -> (m: Self)
        ensures
            m.wf(),
            m.default_strat() == FallbackStrategy::NoFallback,
            m.strategies() == Map::<Seq<char>, FallbackStrategy>::empty(),
            m.cache() == Map::<Seq<char>, Seq<char>>::empty(),
    {
        Self::new()
    }
}

/// A fallback answer carries a value exactly when it reports a fallback as
/// used; otherwise it carries an error.
pub proof fn law_fallback_value_iff_used(
    strategy: FallbackStrategy,
    cached: Option<Seq<char>>,
    err: Option<Seq<char>>,
)
    ensures
        fallback_answer(strategy, cached, err).0 <==> fallback_answer(strategy, cached, err).1 is Some,
        !fallback_answer(strategy, cached, err).0 ==> fallback_answer(strategy, cached, err).2 is Some,
        fallback_answer(strategy, cached, err).0 ==> fallback_answer(strategy, cached, err).2 == err,
{
}

/// A fallback succeeds, with a value, exactly when the strategy is a backup
/// platform, the default answer, the queue, or the cache holding an entry;
/// then a fallback was used and the given error is passed on unchanged.
/// Otherwise no fallback is used and the error is the given one, or the
/// strategy's own text when none was given.
pub proof fn law_fallback_outcome(strategy: FallbackStrategy, cached: Option<Seq<char>>, err: Option<Seq<char>>)
    ensures
        fallback_answer(strategy, cached, err).1 is Some <==> (strategy is BackupPlatform
            || strategy is Default || strategy is Queue || (strategy is Cached && cached is Some)),
        fallback_answer(strategy, cached, err).0 <==> fallback_answer(strategy, cached, err).1 is Some,
        fallback_answer(strategy, cached, err).1 is Some ==> fallback_answer(strategy, cached, err).2 == err,
        fallback_answer(strategy, cached, err).1 is None ==> fallback_answer(strategy, cached, err).2 == Some(
            match err {
                Some(e) => e,
                None => if strategy is Cached {
                    "No cached response"@
                } else {
                    "No fallback available"@
                },
            },
        ),
{
}

} // verus!
