//! Finding token and ports: the cache first, then the command lines of the
//! candidate processes, then the fallback of each kind. Each step takes what
//! the caller has read and says what is to be read next.

use crate::cache::{CacheManager, CacheModel, CSRF_TOKEN_KEY, PORTS_INFO_KEY};
use crate::cmdline_detector::{detection, CmdLineDetector};
use crate::log_ports::{
    last_announced, parse_ports_from_log, EXTENSION_CLIENT_PATTERN, HTTPS_PORT_PATTERN,
    HTTP_PORT_PATTERN,
};
use crate::types::{
    opt_text, DiscoveryError, DiscoveryFailure, LogSnapshot, PortInfo, PortInfoView,
    ProcessHandle, ProcessInfoView,
};
use vstd::prelude::*;
use vstd::string::*;

verus! {

/// The port after a port, where there is one.
pub open spec fn next_port(port: Option<u16>) -> Option<u16> {
    match port {
        Some(p) => if p < 0xffff {
            Some((p + 1) as u16)
        } else {
            None
        },
        None => None,
    }
}

/// The bundle that one command line gives: its token and its extension
/// port, with the port after the extension port as the HTTPS port.
pub open spec fn bundle_of(info: ProcessInfoView) -> PortInfoView {
    PortInfoView {
        https_port: next_port(info.extension_port),
        http_port: None,
        extension_port: info.extension_port,
        log_path: None,
        csrf_token: Some(info.csrf_token),
    }
}

/// The bundle that the candidates give, token and ports from one process.
pub open spec fn server_info(handles: Seq<ProcessHandle>) -> Result<PortInfoView, DiscoveryError> {
    match detection(handles) {
        Ok(info) => Ok(bundle_of(info)),
        Err(e) => Err(e),
    }
}

/// A detected bundle by its view.
pub open spec fn bundle_view(r: Result<PortInfo, DiscoveryError>) -> Result<
    PortInfoView,
    DiscoveryError,
> {
    match r {
        Ok(info) => Ok(info@),
        Err(e) => Err(e),
    }
}

/// The bundle that a log gives: the ports that it announces, and its path.
pub open spec fn log_bundle(path: Seq<char>, content: Seq<char>) -> PortInfoView {
    PortInfoView {
        https_port: last_announced(HTTPS_PORT_PATTERN@, content),
        http_port: last_announced(HTTP_PORT_PATTERN@, content),
        extension_port: last_announced(EXTENSION_CLIENT_PATTERN@, content),
        log_path: Some(path),
        csrf_token: None,
    }
}

/// The bundle that the newest log gives; the empty bundle where there is no
/// log or it could not be read.
pub open spec fn log_bundle_or_empty(log: Option<LogSnapshot>) -> PortInfoView {
    match log {
        Some(l) => match l.content {
            Ok(c) => log_bundle(l.path@, c@),
            Err(_) => PortInfoView::empty(),
        },
        None => PortInfoView::empty(),
    }
}

/// A bundle with the path of the newest log put in, where a log was found.
pub open spec fn with_log_path(bundle: PortInfoView, log_path: Option<Seq<char>>) -> PortInfoView {
    match log_path {
        Some(path) => PortInfoView { log_path: Some(path), ..bundle },
        None => bundle,
    }
}

/// The path of a log, where one was found.
pub open spec fn path_of(log: Option<LogSnapshot>) -> Option<Seq<char>> {
    match log {
        Some(l) => Some(l.path@),
        None => None,
    }
}

/// The port cache `after` is the cache `before` with a bundle stored at
/// `now`.
pub open spec fn ports_stored(
    before: CacheModel<PortInfo>,
    after: CacheModel<PortInfo>,
    bundle: PortInfoView,
    now: u64,
) -> bool {
    exists|p: PortInfo| p@ == bundle && after == before.set(PORTS_INFO_KEY@, p, now)
}

/// The port cache after a detection that was made for the token: the bundle
/// is stored where it names an HTTPS port.
pub open spec fn ports_after_token_detection(
    before: CacheModel<PortInfo>,
    after: CacheModel<PortInfo>,
    bundle: PortInfoView,
    now: u64,
) -> bool {
    if bundle.https_port is Some {
        ports_stored(before, after, bundle, now)
    } else {
        after == before
    }
}

/// What the token cache says: the token, or that it has to be detected.
#[derive(Debug, PartialEq, Eq)]
pub enum TokenLookup {
    Cached(String),
    Detect,
}

/// What reading the command lines came to, for the token: the token, or the
/// error after which memory is to be scanned.
#[derive(Debug, PartialEq, Eq)]
pub enum TokenDetection {
    Found(String),
    Fallback(DiscoveryError),
}

/// What the port cache says: the bundle, or that it has to be detected.
#[derive(Debug, PartialEq, Eq)]
pub enum PortsLookup {
    Cached(PortInfo),
    Detect,
}

/// What reading the command lines came to, for the ports: the bundle, or the
/// error after which the log is to be read.
#[derive(Debug, PartialEq, Eq)]
pub enum PortsDetection {
    Found(PortInfo),
    Fallback(DiscoveryError),
}

/// Reads the candidates for a bundle in which token and ports come from one
/// process.
pub fn detect_server_info(handles: &Vec<ProcessHandle>) -> (r: Result<PortInfo, DiscoveryError>)
    ensures
        bundle_view(r) == server_info(handles@),
{
    let detector = CmdLineDetector::new();
    match detector.detect_process_info(handles) {
        Err(e) => Err(e),
        Ok(info) => {
            let https_port = match info.extension_port {
                Some(p) => if p < 0xffff {
                    Some(p + 1)
                } else {
                    None
                },
                None => None,
            };
            Ok(
                PortInfo {
                    https_port,
                    http_port: None,
                    extension_port: info.extension_port,
                    log_path: None,
                    csrf_token: Some(info.csrf_token),
                },
            )
        },
    }
}

/// Reads the ports that a log announces into a bundle.
pub fn ports_from_log(path: &str, content: &str) -> (r: PortInfo)
    ensures
        r@ == log_bundle(path@, content@),
{
    let ports = parse_ports_from_log(content);
    PortInfo {
        https_port: ports.0,
        http_port: ports.1,
        extension_port: ports.2,
        log_path: Some(path.to_owned()),
        csrf_token: None,
    }
}

/// Reads the newest log into a bundle; the bundle is empty where there is no
/// log or it could not be read.
pub fn parse_ports_from_log_sync(log: &Option<LogSnapshot>) -> (r: PortInfo)
    ensures
        r@ == log_bundle_or_empty(*log),
{
    match log {
        Some(l) => match &l.content {
            Ok(c) => ports_from_log(l.path.as_str(), c.as_str()),
            Err(_) => PortInfo::default(),
        },
        None => PortInfo::default(),
    }
}

/// The first step for the token: the cached token while it is fresh.
pub fn begin_token_lookup(cache: &CacheManager, now: u64) -> (r: TokenLookup)
    ensures
        match cache.tokens().get(CSRF_TOKEN_KEY@, now) {
            Some(t) => r == TokenLookup::Cached(t),
            None => r is Detect,
        },
{
    match cache.get_csrf_token(CSRF_TOKEN_KEY, now) {
        Some(t) => TokenLookup::Cached(t),
        None => TokenLookup::Detect,
    }
}

/// The second step for the token, with the candidates read: a bundle that
/// they give is cached, its token always and its ports where it names an
/// HTTPS port; their failure leaves the caches as they are and asks for the
/// memory scan.
pub fn finish_token_detection(cache: &mut CacheManager, now: u64, handles: &Vec<ProcessHandle>) -> (r:
    TokenDetection)
    ensures
        match server_info(handles@) {
            Ok(bundle) => {
                &&& r matches TokenDetection::Found(t)
                &&& Some(t@) == bundle.csrf_token
                &&& final(cache).tokens() == old(cache).tokens().set(CSRF_TOKEN_KEY@, t, now)
                &&& ports_after_token_detection(
                    old(cache).ports(),
                    final(cache).ports(),
                    bundle,
                    now,
                )
            },
            Err(e) => {
                &&& r == TokenDetection::Fallback(e)
                &&& final(cache).tokens() == old(cache).tokens()
                &&& final(cache).ports() == old(cache).ports()
            },
        },
{
    match detect_server_info(handles) {
        Err(e) => TokenDetection::Fallback(e),
        Ok(info) => {
            let token = match &info.csrf_token {
                Some(t) => t.clone(),
                None => String::new(),
            };
            if info.https_port.is_some() {
                cache.set_ports(PORTS_INFO_KEY, info, now);
            }
            cache.set_csrf_token(CSRF_TOKEN_KEY, token.clone(), now);
            TokenDetection::Found(token)
        },
    }
}

/// The last step for the token, with memory scanned: a token that the scan
/// found is cached; without one the discovery has failed in both ways.
pub fn finish_token_fallback(
    cache: &mut CacheManager,
    now: u64,
    first: DiscoveryError,
    scanned: Option<String>,
) -> (r: Result<String, DiscoveryFailure>)
    ensures
        final(cache).ports() == old(cache).ports(),
        match scanned {
            Some(t) => {
                &&& r == Ok::<String, DiscoveryFailure>(t)
                &&& final(cache).tokens() == old(cache).tokens().set(CSRF_TOKEN_KEY@, t, now)
            },
            None => {
                &&& r matches Err(f)
                &&& f.command_line == first
                &&& f.fallback == DiscoveryError::ExtractionFailed
                &&& final(cache).tokens() == old(cache).tokens()
            },
        },
{
    match scanned {
        Some(t) => {
            cache.set_csrf_token(CSRF_TOKEN_KEY, t.clone(), now);
            Ok(t)
        },
        None => Err(
            DiscoveryFailure { command_line: first, fallback: DiscoveryError::ExtractionFailed },
        ),
    }
}

/// Finds the token: the cached one while it is fresh; else the one of the
/// first candidate whose command line holds one; else the one that the
/// memory scan found. What was found is cached.
pub fn get_csrf_token_with_cache(
    cache: &mut CacheManager,
    now: u64,
    handles: &Vec<ProcessHandle>,
    scanned: Option<String>,
) -> (r: Result<String, DiscoveryFailure>)
    ensures
        match old(cache).tokens().get(CSRF_TOKEN_KEY@, now) {
            Some(t) => {
                &&& r == Ok::<String, DiscoveryFailure>(t)
                &&& final(cache).tokens() == old(cache).tokens()
                &&& final(cache).ports() == old(cache).ports()
            },
            None => match server_info(handles@) {
                Ok(bundle) => {
                    &&& r matches Ok(t)
                    &&& Some(t@) == bundle.csrf_token
                    &&& final(cache).tokens() == old(cache).tokens().set(CSRF_TOKEN_KEY@, t, now)
                    &&& ports_after_token_detection(
                        old(cache).ports(),
                        final(cache).ports(),
                        bundle,
                        now,
                    )
                },
                Err(e) => {
                    &&& final(cache).ports() == old(cache).ports()
                    &&& match scanned {
                        Some(t) => {
                            &&& r == Ok::<String, DiscoveryFailure>(t)
                            &&& final(cache).tokens() == old(cache).tokens().set(
                                CSRF_TOKEN_KEY@,
                                t,
                                now,
                            )
                        },
                        None => {
                            &&& r matches Err(f)
                            &&& f.command_line == e
                            &&& f.fallback == DiscoveryError::ExtractionFailed
                            &&& final(cache).tokens() == old(cache).tokens()
                        },
                    }
                },
            },
        },
{
    match begin_token_lookup(cache, now) {
        TokenLookup::Cached(t) => Ok(t),
        TokenLookup::Detect => match finish_token_detection(cache, now, handles) {
            TokenDetection::Found(t) => Ok(t),
            TokenDetection::Fallback(e) => finish_token_fallback(cache, now, e, scanned),
        },
    }
}

/// The first step for the ports: the cached bundle while it is fresh.
pub fn begin_ports_lookup(cache: &CacheManager, now: u64) -> (r: PortsLookup)
    ensures
        match cache.ports().get(PORTS_INFO_KEY@, now) {
            Some(p) => r matches PortsLookup::Cached(q) && q@ == p@,
            None => r is Detect,
        },
{
    match cache.get_ports(PORTS_INFO_KEY, now) {
        Some(p) => PortsLookup::Cached(p),
        None => PortsLookup::Detect,
    }
}

/// The second step for the ports, with the candidates read: a bundle that
/// they give gets the path of the newest log and is cached, and so is its
/// token; their failure leaves the caches as they are and asks for the log.
pub fn finish_ports_detection(
    cache: &mut CacheManager,
    now: u64,
    handles: &Vec<ProcessHandle>,
    log_path: &Option<String>,
) -> (r: PortsDetection)
    ensures
        match server_info(handles@) {
            Ok(bundle) => {
                &&& r matches PortsDetection::Found(p)
                &&& p@ == with_log_path(bundle, opt_text(*log_path))
                &&& ports_stored(old(cache).ports(), final(cache).ports(), p@, now)
                &&& exists|t: String|
                    Some(t@) == bundle.csrf_token && final(cache).tokens() == old(
                        cache,
                    ).tokens().set(CSRF_TOKEN_KEY@, t, now)
            },
            Err(e) => {
                &&& r == PortsDetection::Fallback(e)
                &&& final(cache).tokens() == old(cache).tokens()
                &&& final(cache).ports() == old(cache).ports()
            },
        },
{
    match detect_server_info(handles) {
        Err(e) => PortsDetection::Fallback(e),
        Ok(info) => {
            let mut info = info;
            match log_path {
                Some(path) => {
                    info.log_path = Some(path.clone());
                },
                None => {},
            }
            let stored = info.duplicate();
            cache.set_ports(PORTS_INFO_KEY, stored, now);
            match &info.csrf_token {
                Some(t) => {
                    cache.set_csrf_token(CSRF_TOKEN_KEY, t.clone(), now);
                },
                None => {},
            }
            PortsDetection::Found(info)
        },
    }
}

/// The text of the error for a log that was not found.
pub open spec fn log_missing_text() -> Seq<char> {
    "未找到 Antigravity.log，无法确定端口"@
}

/// The text of the error for a log that could not be read.
pub open spec fn log_unreadable_text(reason: Seq<char>) -> Seq<char> {
    "读取日志失败: "@ + reason
}

/// The last step for the ports, with the newest log read: the ports that the
/// log announces are cached as a bundle; without a log, or with one that
/// could not be read, the discovery has failed in both ways.
pub fn finish_ports_fallback(
    cache: &mut CacheManager,
    now: u64,
    first: DiscoveryError,
    log: &Option<LogSnapshot>,
) -> (r: Result<PortInfo, DiscoveryFailure>)
    ensures
        final(cache).tokens() == old(cache).tokens(),
        match *log {
            Some(l) => match l.content {
                Ok(c) => {
                    &&& r matches Ok(p)
                    &&& p@ == log_bundle(l.path@, c@)
                    &&& ports_stored(old(cache).ports(), final(cache).ports(), p@, now)
                },
                Err(reason) => {
                    &&& r matches Err(f)
                    &&& f.command_line == first
                    &&& f.fallback matches DiscoveryError::IoError(t)
                    &&& t@ == log_unreadable_text(reason@)
                    &&& final(cache).ports() == old(cache).ports()
                },
            },
            None => {
                &&& r matches Err(f)
                &&& f.command_line == first
                &&& f.fallback matches DiscoveryError::IoError(t)
                &&& t@ == log_missing_text()
                &&& final(cache).ports() == old(cache).ports()
            },
        },
{
    match log {
        None => Err(
            DiscoveryFailure {
                command_line: first,
                fallback: DiscoveryError::IoError(
                    String::from_str("未找到 Antigravity.log，无法确定端口"),
                ),
            },
        ),
        Some(l) => match &l.content {
            Err(reason) => {
                let mut text = String::from_str("读取日志失败: ");
                text.append(reason.as_str());
                Err(DiscoveryFailure { command_line: first, fallback: DiscoveryError::IoError(text) })
            },
            Ok(c) => {
                let info = ports_from_log(l.path.as_str(), c.as_str());
                let stored = info.duplicate();
                cache.set_ports(PORTS_INFO_KEY, stored, now);
                Ok(info)
            },
        },
    }
}

/// Finds the ports: the cached bundle while it is fresh; else the bundle of
/// the first candidate whose command line holds a token; else the ports that
/// the newest log announces. What was found is cached.
pub fn get_ports_with_cache(
    cache: &mut CacheManager,
    now: u64,
    handles: &Vec<ProcessHandle>,
    log: &Option<LogSnapshot>,
) -> (r: Result<PortInfo, DiscoveryFailure>)
    ensures
        match old(cache).ports().get(PORTS_INFO_KEY@, now) {
            Some(cached) => {
                &&& r matches Ok(p)
                &&& p@ == cached@
                &&& final(cache).tokens() == old(cache).tokens()
                &&& final(cache).ports() == old(cache).ports()
            },
            None => match server_info(handles@) {
                Ok(bundle) => {
                    &&& r matches Ok(p)
                    &&& p@ == with_log_path(bundle, path_of(*log))
                    &&& ports_stored(old(cache).ports(), final(cache).ports(), p@, now)
                    &&& exists|t: String|
                        Some(t@) == bundle.csrf_token && final(cache).tokens() == old(
                            cache,
                        ).tokens().set(CSRF_TOKEN_KEY@, t, now)
                },
                Err(e) => {
                    &&& final(cache).tokens() == old(cache).tokens()
                    &&& match *log {
                        Some(l) => match l.content {
                            Ok(c) => {
                                &&& r matches Ok(p)
                                &&& p@ == log_bundle(l.path@, c@)
                                &&& ports_stored(old(cache).ports(), final(cache).ports(), p@, now)
                            },
                            Err(reason) => {
                                &&& r matches Err(f)
                                &&& f.command_line == e
                                &&& f.fallback matches DiscoveryError::IoError(t)
                                &&& t@ == log_unreadable_text(reason@)
                                &&& final(cache).ports() == old(cache).ports()
                            },
                        },
                        None => {
                            &&& r matches Err(f)
                            &&& f.command_line == e
                            &&& f.fallback matches DiscoveryError::IoError(t)
                            &&& t@ == log_missing_text()
                            &&& final(cache).ports() == old(cache).ports()
                        },
                    }
                },
            },
        },
{
    match begin_ports_lookup(cache, now) {
        PortsLookup::Cached(p) => Ok(p),
        PortsLookup::Detect => {
            let log_path = match log {
                Some(l) => Some(l.path.clone()),
                None => None,
            };
            match finish_ports_detection(cache, now, handles, &log_path) {
                PortsDetection::Found(p) => Ok(p),
                PortsDetection::Fallback(e) => finish_ports_fallback(cache, now, e, log),
            }
        },
    }
}

/// Reads the candidates for the token alone.
pub fn find_csrf_token_from_memory(handles: &Vec<ProcessHandle>) -> (r: Result<
    String,
    DiscoveryError,
>)
    ensures
        match detection(handles@) {
            Ok(info) => r matches Ok(t) && t@ == info.csrf_token,
            Err(e) => r == Err::<String, DiscoveryError>(e),
        },
{
    let detector = CmdLineDetector::new();
    match detector.detect_process_info(handles) {
        Err(e) => Err(e),
        Ok(info) => Ok(info.csrf_token),
    }
}

/// Finds the token in the plain way: the cached one while it is fresh, else
/// the one of the first candidate whose command line holds one, which is
/// then cached.
pub fn get_csrf_token(cache: &mut CacheManager, now: u64, handles: &Vec<ProcessHandle>) -> (r:
    Result<String, DiscoveryError>)
    ensures
        final(cache).ports() == old(cache).ports(),
        match old(cache).tokens().get(CSRF_TOKEN_KEY@, now) {
            Some(t) => r == Ok::<String, DiscoveryError>(t) && final(cache).tokens() == old(
                cache,
            ).tokens(),
            None => match detection(handles@) {
                Ok(info) => {
                    &&& r matches Ok(t)
                    &&& t@ == info.csrf_token
                    &&& final(cache).tokens() == old(cache).tokens().set(CSRF_TOKEN_KEY@, t, now)
                },
                Err(e) => r == Err::<String, DiscoveryError>(e) && final(cache).tokens() == old(
                    cache,
                ).tokens(),
            },
        },
{
    match cache.get_csrf_token(CSRF_TOKEN_KEY, now) {
        Some(t) => Ok(t),
        None => {
            match find_csrf_token_from_memory(handles) {
                Err(e) => Err(e),
                Ok(token) => {
                    cache.set_csrf_token(CSRF_TOKEN_KEY, token.clone(), now);
                    Ok(token)
                },
            }
        },
    }
}

/// Finds the ports in the plain way: the cached bundle while it is fresh,
/// else what the newest log announces, which is then cached, be it empty.
pub fn get_ports(cache: &mut CacheManager, now: u64, log: &Option<LogSnapshot>) -> (r: PortInfo)
    ensures
        final(cache).tokens() == old(cache).tokens(),
        match old(cache).ports().get(PORTS_INFO_KEY@, now) {
            Some(cached) => r@ == cached@ && final(cache).ports() == old(cache).ports(),
            None => r@ == log_bundle_or_empty(*log) && ports_stored(
                old(cache).ports(),
                final(cache).ports(),
                r@,
                now,
            ),
        },
{
    match cache.get_ports(PORTS_INFO_KEY, now) {
        Some(p) => p,
        None => {
            let info = parse_ports_from_log_sync(log);
            let stored = info.duplicate();
            cache.set_ports(PORTS_INFO_KEY, stored, now);
            info
        },
    }
}

} // verus!
