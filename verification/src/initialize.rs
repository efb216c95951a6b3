//! Pre-warming the caches: whether a caller runs the discovery or is told
//! that one is running, and how the outcome is reported.

use crate::cache::CacheManager;
use crate::text::{decimal_text, format_decimal};
use crate::types::{CacheInitResult, CacheStats, DiscoveryFailure, PortInfo};
use vstd::prelude::*;
use vstd::string::*;

verus! {

/// `true` or `false` in letters.
pub open spec fn bool_text(b: bool) -> Seq<char> {
    if b {
        "true"@
    } else {
        "false"@
    }
}

/// The line that reports a token that could not be found.
pub open spec fn token_error_line(reason: Seq<char>) -> Seq<char> {
    "CSRF token 缓存预热失败: "@ + reason
}

/// The line that reports ports that could not be found.
pub open spec fn ports_error_line(reason: Seq<char>) -> Seq<char> {
    "端口信息缓存预热失败: "@ + reason
}

/// The message of a pre-warming that took `elapsed_ms`: a success where both
/// were found, a partial success where one was, and else a failure with the
/// reasons of both.
pub open spec fn init_message(
    token_error: Option<Seq<char>>,
    ports_error: Option<Seq<char>>,
    elapsed_ms: u64,
) -> Seq<char> {
    let took = decimal_text(elapsed_ms as nat);
    match (token_error, ports_error) {
        (None, None) => "缓存初始化成功 ("@ + took + "ms)"@,
        (Some(t), Some(p)) => "缓存初始化失败 ("@ + took + "ms) - "@ + token_error_line(t) + "; "@
            + ports_error_line(p),
        _ => "缓存部分初始化成功 ("@ + took + "ms) - CSRF: "@ + bool_text(token_error is None)
            + ", 端口: "@ + bool_text(ports_error is None),
    }
}

/// The message for a caller who met a pre-warming that is still running.
pub open spec fn in_progress_text() -> Seq<char> {
    "缓存正在初始化中，请稍后再试"@
}

/// The reason of a failed discovery, if it failed.
pub open spec fn failure_text<T>(outcome: Result<T, DiscoveryFailure>) -> Option<Seq<char>> {
    match outcome {
        Ok(_) => None,
        Err(f) => Some(f.text()),
    }
}

/// What a caller is to do: run the discovery, or take the status of the one
/// that is running.
#[derive(Debug, PartialEq, Eq)]
pub enum InitDecision {
    Run,
    InProgress(CacheInitResult),
}

/// The lock of the pre-warming: it admits one caller and holds the others
/// off until that caller is done.
#[derive(Debug)]
pub struct InitializationLock {
    running: bool,
}

/// Whether a caller is admitted: only while nobody holds the lock.
pub open spec fn admits(running: bool) -> bool {
    !running
}

/// How many of `calls` callers in a row are admitted while nobody releases
/// the lock, `running` telling whether somebody holds it at first. Whether
/// admitted or not, a caller leaves the lock held.
pub open spec fn callers_admitted(running: bool, calls: nat) -> nat
    decreases calls,
{
    if calls == 0 {
        0
    } else {
        (if admits(running) {
            1nat
        } else {
            0nat
        }) + callers_admitted(true, (calls - 1) as nat)
    }
}

/// However many callers come while a pre-warming runs, none of them is
/// admitted; of callers who come to a free lock, the first one is admitted
/// and nobody else.
pub proof fn lemma_single_flight(calls: nat)
    ensures
        callers_admitted(true, calls) == 0,
        calls > 0 ==> callers_admitted(false, calls) == 1,
    decreases calls,
{
    if calls > 0 {
        lemma_single_flight((calls - 1) as nat);
    }
}

impl InitializationLock {
    /// Whether a caller holds the lock.
    pub closed spec fn is_running(&self) -> bool {
        self.running
    }

    /// An open lock.
    pub fn new() -> (r: Self)
        ensures
            !r.is_running(),
    {
        InitializationLock { running: false }
    }

    /// Admits the caller if nobody holds the lock, and tells whether it
    /// did. Somebody holds the lock afterwards in either case.
    pub fn try_acquire(&mut self) -> (acquired: bool)
        ensures
            acquired == admits(old(self).is_running()),
            final(self).is_running(),
    {
        let acquired = !self.running;
        self.running = true;
        acquired
    }

    /// Frees the lock, once the caller who held it is done.
    pub fn release(&mut self)
        ensures
            !final(self).is_running(),
    {
        self.running = false;
    }
}

/// The status for a caller who met a pre-warming that is still running: what
/// the caches hold by now.
pub fn in_progress_status(stats: &CacheStats) -> (r: CacheInitResult)
    ensures
        r.success == (stats.csrf_cache_size > 0 || stats.ports_cache_size > 0),
        r.message@ == in_progress_text(),
        r.csrf_cache_preloaded == (stats.csrf_cache_size > 0),
        r.ports_cache_preloaded == (stats.ports_cache_size > 0),
{
    CacheInitResult {
        success: stats.csrf_cache_size > 0 || stats.ports_cache_size > 0,
        message: String::from_str("缓存正在初始化中，请稍后再试"),
        csrf_cache_preloaded: stats.csrf_cache_size > 0,
        ports_cache_preloaded: stats.ports_cache_size > 0,
    }
}

/// Decides what a caller of the pre-warming does. Only the caller whom the
/// lock admits runs the discovery; any other is told at once that one is
/// running, with what the caches hold at `now`.
pub fn initialize_cache(lock: &mut InitializationLock, cache: &CacheManager, now: u64) -> (r: InitDecision)
    ensures
        final(lock).is_running(),
        admits(old(lock).is_running()) ==> r is Run,
        !admits(old(lock).is_running()) ==> {
            &&& r matches InitDecision::InProgress(status)
            &&& status.success == (cache.tokens().count(now) > 0 || cache.ports().count(now) > 0)
            &&& status.message@ == in_progress_text()
            &&& status.csrf_cache_preloaded == (cache.tokens().count(now) > 0)
            &&& status.ports_cache_preloaded == (cache.ports().count(now) > 0)
        },
{
    if lock.try_acquire() {
        InitDecision::Run
    } else {
        let stats = cache.get_stats(now);
        InitDecision::InProgress(in_progress_status(&stats))
    }
}

/// Writes the word for a truth value.
fn bool_word(b: bool) -> (r: &'static str)
    ensures
        r@ == bool_text(b),
{
    if b {
        "true"
    } else {
        "false"
    }
}

/// Reports a pre-warming from the reasons for which token and ports were
/// not found, `None` standing for found. It succeeded where at least one of
/// the two was found.
pub fn summarize_initialization(
    token_error: Option<&str>,
    ports_error: Option<&str>,
    elapsed_ms: u64,
) -> (r: CacheInitResult)
    ensures
        r.csrf_cache_preloaded == (token_error is None),
        r.ports_cache_preloaded == (ports_error is None),
        r.success == (token_error is None || ports_error is None),
        r.message@ == init_message(
            match token_error {
                Some(t) => Some(t@),
                None => None,
            },
            match ports_error {
                Some(p) => Some(p@),
                None => None,
            },
            elapsed_ms,
        ),
{
    let took = format_decimal(elapsed_ms);
    let csrf_loaded = token_error.is_none();
    let ports_loaded = ports_error.is_none();
    let mut message: String;
    match (token_error, ports_error) {
        (None, None) => {
            message = String::from_str("缓存初始化成功 (");
            message.append(took.as_str());
            message.append("ms)");
        },
        (Some(t), Some(p)) => {
            message = String::from_str("缓存初始化失败 (");
            message.append(took.as_str());
            message.append("ms) - ");
            message.append("CSRF token 缓存预热失败: ");
            message.append(t);
            message.append("; ");
            message.append("端口信息缓存预热失败: ");
            message.append(p);
            assert(message@ =~= init_message(Some(t@), Some(p@), elapsed_ms));
        },
        _ => {
            message = String::from_str("缓存部分初始化成功 (");
            message.append(took.as_str());
            message.append("ms) - CSRF: ");
            message.append(bool_word(csrf_loaded));
            message.append(", 端口: ");
            message.append(bool_word(ports_loaded));
        },
    }
    CacheInitResult {
        success: csrf_loaded || ports_loaded,
        message,
        csrf_cache_preloaded: csrf_loaded,
        ports_cache_preloaded: ports_loaded,
    }
}

/// Reports a pre-warming from what the two discoveries came to.
pub fn perform_cache_initialization(
    token: &Result<String, DiscoveryFailure>,
    ports: &Result<PortInfo, DiscoveryFailure>,
    elapsed_ms: u64,
) -> (r: CacheInitResult)
    ensures
        r.csrf_cache_preloaded == (*token is Ok),
        r.ports_cache_preloaded == (*ports is Ok),
        r.success == (*token is Ok || *ports is Ok),
        r.message@ == init_message(failure_text(*token), failure_text(*ports), elapsed_ms),
{
    let token_error = match token {
        Ok(_) => None,
        Err(f) => Some(f.describe()),
    };
    let ports_error = match ports {
        Ok(_) => None,
        Err(f) => Some(f.describe()),
    };
    let t: Option<&str> = match &token_error {
        Some(s) => Some(s.as_str()),
        None => None,
    };
    let p: Option<&str> = match &ports_error {
        Some(s) => Some(s.as_str()),
        None => None,
    };
    summarize_initialization(t, p, elapsed_ms)
}

} // verus!
