use lsdiscovery::cache::{CacheManager, CSRF_TOKEN_KEY, PORTS_INFO_KEY};
use lsdiscovery::commands::{
    after_attempt, base_port, check_api_key, check_response, find_candidate_ports,
    find_working_https_port, language_server_get_user_status, language_server_url,
    malformed_body, next_probe, request_failed,
    status_is_success, test_port_connectivity, Attempt, ProbeStep, RetryStep, CSRF_HEADER,
};
use lsdiscovery::discovery::{
    begin_ports_lookup, begin_token_lookup, detect_server_info, finish_ports_detection,
    find_csrf_token_from_memory, finish_ports_fallback, finish_token_detection,
    finish_token_fallback, get_csrf_token,
    get_csrf_token_with_cache, get_ports, get_ports_with_cache, parse_ports_from_log_sync,
    ports_from_log, PortsDetection, PortsLookup, TokenDetection, TokenLookup,
};
use lsdiscovery::initialize::{
    in_progress_status, initialize_cache, perform_cache_initialization, summarize_initialization,
    InitDecision, InitializationLock,
};
use lsdiscovery::types::{
    CacheStats, DiscoveryError, DiscoveryFailure, LogSnapshot, PortInfo, ProcessHandle,
};

const TOKEN: &str = "123e4567-e89b-12d3-a456-426614174000";
const OTHER: &str = "9f8e7d6c-5b4a-4c3d-8e2f-1a0b9c8d7e6f";

fn server(pid: u32, port: u16, token: &str) -> ProcessHandle {
    ProcessHandle {
        pid,
        command_line: Some(format!("ls --extension_server_port={} --csrf_token={}", port, token)),
    }
}

fn log(content: &str) -> Option<LogSnapshot> {
    Some(LogSnapshot { path: "/logs/Antigravity.log".to_string(), content: Ok(content.to_string()) })
}

fn failure(fallback: DiscoveryError) -> DiscoveryFailure {
    DiscoveryFailure { command_line: DiscoveryError::ProcessNotFound, fallback }
}

#[test]
fn server_info_takes_port_and_token_from_one_process() {
    let handles = vec![
        ProcessHandle { pid: 9, command_line: Some("ls --extension_server_port=1".to_string()) },
        server(8, 42000, TOKEN),
        server(7, 43000, OTHER),
    ];
    let info = detect_server_info(&handles).unwrap();
    assert_eq!(
        info,
        PortInfo {
            https_port: Some(42001),
            http_port: None,
            extension_port: Some(42000),
            log_path: None,
            csrf_token: Some(TOKEN.to_string()),
        }
    );
    assert_eq!(detect_server_info(&Vec::new()), Err(DiscoveryError::ProcessNotFound));
}

#[test]
fn server_info_has_no_https_port_past_the_last_port() {
    let info = detect_server_info(&vec![server(1, 65535, TOKEN)]).unwrap();
    assert_eq!(info.https_port, None);
    assert_eq!(info.extension_port, Some(65535));
    let bare = ProcessHandle { pid: 1, command_line: Some(format!("ls --csrf_token={}", TOKEN)) };
    let info = detect_server_info(&vec![bare]).unwrap();
    assert_eq!(info.https_port, None);
    assert_eq!(info.extension_port, None);
}

#[test]
fn token_comes_from_the_cache_while_fresh() {
    let mut cache = CacheManager::new();
    cache.set_csrf_token(CSRF_TOKEN_KEY, "cached".to_string(), 10);
    let r = get_csrf_token_with_cache(&mut cache, 20, &vec![server(1, 5, TOKEN)], None);
    assert_eq!(r, Ok("cached".to_string()));
    assert_eq!(cache.get_ports(PORTS_INFO_KEY, 20), None);
    let r = get_csrf_token_with_cache(&mut cache, 300_011, &vec![server(1, 5, TOKEN)], None);
    assert_eq!(r, Ok(TOKEN.to_string()));
    assert_eq!(cache.get_csrf_token(CSRF_TOKEN_KEY, 300_011), Some(TOKEN.to_string()));
    assert_eq!(cache.get_ports(PORTS_INFO_KEY, 300_011).unwrap().https_port, Some(6));
}

#[test]
fn token_falls_back_to_the_memory_scan() {
    let mut cache = CacheManager::new();
    let r = get_csrf_token_with_cache(&mut cache, 0, &Vec::new(), Some(OTHER.to_string()));
    assert_eq!(r, Ok(OTHER.to_string()));
    assert_eq!(cache.get_csrf_token(CSRF_TOKEN_KEY, 0), Some(OTHER.to_string()));
    let mut cache = CacheManager::new();
    let handles = vec![ProcessHandle { pid: 1, command_line: None }];
    let r = get_csrf_token_with_cache(&mut cache, 0, &handles, None);
    assert_eq!(
        r,
        Err(DiscoveryFailure {
            command_line: DiscoveryError::ExtractionFailed,
            fallback: DiscoveryError::ExtractionFailed,
        })
    );
    assert_eq!(cache.get_csrf_token(CSRF_TOKEN_KEY, 0), None);
}

#[test]
fn token_steps_tell_what_to_read_next() {
    let mut cache = CacheManager::new();
    assert_eq!(begin_token_lookup(&cache, 0), TokenLookup::Detect);
    assert_eq!(
        finish_token_detection(&mut cache, 0, &Vec::new()),
        TokenDetection::Fallback(DiscoveryError::ProcessNotFound)
    );
    assert_eq!(
        finish_token_fallback(&mut cache, 0, DiscoveryError::ProcessNotFound, None),
        Err(failure(DiscoveryError::ExtractionFailed))
    );
    assert_eq!(
        finish_token_detection(&mut cache, 0, &vec![server(1, 65535, TOKEN)]),
        TokenDetection::Found(TOKEN.to_string())
    );
    assert_eq!(cache.get_ports(PORTS_INFO_KEY, 0), None);
    assert_eq!(begin_token_lookup(&cache, 1), TokenLookup::Cached(TOKEN.to_string()));
}

#[test]
fn ports_come_from_the_command_line_with_the_log_path() {
    let mut cache = CacheManager::new();
    let r = get_ports_with_cache(&mut cache, 5, &vec![server(1, 42000, TOKEN)], &log("ignored"));
    let expected = PortInfo {
        https_port: Some(42001),
        http_port: None,
        extension_port: Some(42000),
        log_path: Some("/logs/Antigravity.log".to_string()),
        csrf_token: Some(TOKEN.to_string()),
    };
    assert_eq!(r, Ok(expected.clone()));
    assert_eq!(cache.get_ports(PORTS_INFO_KEY, 5), Some(expected.clone()));
    assert_eq!(cache.get_csrf_token(CSRF_TOKEN_KEY, 5), Some(TOKEN.to_string()));
    let again = get_ports_with_cache(&mut cache, 6, &Vec::new(), &None);
    assert_eq!(again, Ok(expected));
}

#[test]
fn ports_fall_back_to_the_log() {
    let mut cache = CacheManager::new();
    let text = "random port at 5001 for HTTPS\nextension server client at port 5000\n";
    let r = get_ports_with_cache(&mut cache, 5, &Vec::new(), &log(text)).unwrap();
    assert_eq!(r.https_port, Some(5001));
    assert_eq!(r.http_port, None);
    assert_eq!(r.extension_port, Some(5000));
    assert_eq!(r.log_path, Some("/logs/Antigravity.log".to_string()));
    assert_eq!(r.csrf_token, None);
    assert_eq!(cache.get_ports(PORTS_INFO_KEY, 5), Some(r));
    assert_eq!(cache.get_csrf_token(CSRF_TOKEN_KEY, 5), None);
}

#[test]
fn ports_fail_without_a_readable_log() {
    let mut cache = CacheManager::new();
    let r = get_ports_with_cache(&mut cache, 5, &Vec::new(), &None);
    assert_eq!(
        r,
        Err(failure(DiscoveryError::IoError("未找到 Antigravity.log，无法确定端口".to_string())))
    );
    let unreadable =
        Some(LogSnapshot { path: "/x".to_string(), content: Err("denied".to_string()) });
    let r = get_ports_with_cache(&mut cache, 5, &Vec::new(), &unreadable);
    assert_eq!(r, Err(failure(DiscoveryError::IoError("读取日志失败: denied".to_string()))));
    assert_eq!(cache.get_ports(PORTS_INFO_KEY, 5), None);
    assert_eq!(
        r.unwrap_err().describe(),
        "从进程命令行提取信息失败: 未找到运行中的 Antigravity/Windsurf 进程; 读取日志失败: denied"
    );
}

#[test]
fn ports_steps_tell_what_to_read_next() {
    let mut cache = CacheManager::new();
    assert_eq!(begin_ports_lookup(&cache, 0), PortsLookup::Detect);
    assert_eq!(
        finish_ports_detection(&mut cache, 0, &Vec::new(), &Some("/l".to_string())),
        PortsDetection::Fallback(DiscoveryError::ProcessNotFound)
    );
    let found = finish_ports_fallback(&mut cache, 0, DiscoveryError::ProcessNotFound, &log(""));
    assert_eq!(found, Ok(ports_from_log("/logs/Antigravity.log", "")));
    assert!(matches!(begin_ports_lookup(&cache, 0), PortsLookup::Cached(_)));
    let mut cache = CacheManager::new();
    let r = finish_ports_detection(&mut cache, 0, &vec![server(3, 10, TOKEN)], &None);
    assert!(matches!(r, PortsDetection::Found(ref p) if p.https_port == Some(11) && p.log_path.is_none()));
    let r = finish_ports_detection(&mut cache, 0, &vec![server(3, 10, TOKEN)], &Some("/l".to_string()));
    assert!(matches!(r, PortsDetection::Found(ref p) if p.log_path == Some("/l".to_string())));
}

#[test]
fn token_alone_from_the_candidates() {
    assert_eq!(find_csrf_token_from_memory(&vec![server(1, 2, OTHER)]), Ok(OTHER.to_string()));
    assert_eq!(find_csrf_token_from_memory(&Vec::new()), Err(DiscoveryError::ProcessNotFound));
    let unreadable = vec![ProcessHandle { pid: 4, command_line: None }];
    assert_eq!(find_csrf_token_from_memory(&unreadable), Err(DiscoveryError::ExtractionFailed));
}

#[test]
fn plain_lookups() {
    let mut cache = CacheManager::new();
    assert_eq!(get_csrf_token(&mut cache, 0, &Vec::new()), Err(DiscoveryError::ProcessNotFound));
    assert_eq!(get_csrf_token(&mut cache, 0, &vec![server(1, 2, TOKEN)]), Ok(TOKEN.to_string()));
    assert_eq!(get_csrf_token(&mut cache, 1, &Vec::new()), Ok(TOKEN.to_string()));
    assert_eq!(cache.get_ports(PORTS_INFO_KEY, 1), None);
    let ports = get_ports(&mut cache, 1, &log("random port at 77 for HTTPS"));
    assert_eq!(ports.https_port, Some(77));
    assert_eq!(get_ports(&mut cache, 2, &None), ports);
    let mut cache = CacheManager::new();
    assert_eq!(get_ports(&mut cache, 0, &None), PortInfo::default());
    assert_eq!(cache.get_ports(PORTS_INFO_KEY, 0), Some(PortInfo::default()));
    let unreadable = Some(LogSnapshot { path: "/x".to_string(), content: Err("e".to_string()) });
    assert_eq!(parse_ports_from_log_sync(&unreadable), PortInfo::default());
}

#[test]
fn second_caller_is_told_that_initialization_is_running() {
    let mut cache = CacheManager::new();
    let mut lock = InitializationLock::new();
    assert_eq!(initialize_cache(&mut lock, &cache, 0), InitDecision::Run);
    match initialize_cache(&mut lock, &cache, 0) {
        InitDecision::InProgress(status) => {
            assert!(!status.success);
            assert!(!status.csrf_cache_preloaded);
            assert!(!status.ports_cache_preloaded);
            assert_eq!(status.message, "缓存正在初始化中，请稍后再试");
        }
        InitDecision::Run => panic!("a caller who met a running initialization must not run"),
    }
    cache.set_csrf_token(CSRF_TOKEN_KEY, "t".to_string(), 0);
    match initialize_cache(&mut lock, &cache, 0) {
        InitDecision::InProgress(status) => {
            assert!(status.success);
            assert!(status.csrf_cache_preloaded);
            assert!(!status.ports_cache_preloaded);
        }
        InitDecision::Run => panic!("a caller who met a running initialization must not run"),
    }
    lock.release();
    assert_eq!(initialize_cache(&mut lock, &cache, 0), InitDecision::Run);
    let status = in_progress_status(&CacheStats { csrf_cache_size: 0, ports_cache_size: 2 });
    assert!(status.success && status.ports_cache_preloaded && !status.csrf_cache_preloaded);
}

#[test]
fn lock_admits_one_caller() {
    let mut lock = InitializationLock::new();
    assert!(lock.try_acquire());
    assert!(!lock.try_acquire());
    assert!(!lock.try_acquire());
    lock.release();
    assert!(lock.try_acquire());
    lock.release();
    lock.release();
    assert!(lock.try_acquire());
}

#[test]
fn initialization_messages() {
    let both = summarize_initialization(None, None, 12);
    assert!(both.success && both.csrf_cache_preloaded && both.ports_cache_preloaded);
    assert_eq!(both.message, "缓存初始化成功 (12ms)");
    let partial = summarize_initialization(None, Some("no log"), 1500);
    assert!(partial.success && partial.csrf_cache_preloaded && !partial.ports_cache_preloaded);
    assert_eq!(partial.message, "缓存部分初始化成功 (1500ms) - CSRF: true, 端口: false");
    let other = summarize_initialization(Some("x"), None, 0);
    assert_eq!(other.message, "缓存部分初始化成功 (0ms) - CSRF: false, 端口: true");
    let neither = summarize_initialization(Some("a"), Some("b"), 3);
    assert!(!neither.success && !neither.csrf_cache_preloaded && !neither.ports_cache_preloaded);
    assert_eq!(
        neither.message,
        "缓存初始化失败 (3ms) - CSRF token 缓存预热失败: a; 端口信息缓存预热失败: b"
    );
}

#[test]
fn initialization_from_discovery_outcomes() {
    let token: Result<String, DiscoveryFailure> = Ok(TOKEN.to_string());
    let ports: Result<PortInfo, DiscoveryFailure> =
        Err(failure(DiscoveryError::IoError("gone".to_string())));
    let r = perform_cache_initialization(&token, &ports, 40);
    assert!(r.success && r.csrf_cache_preloaded && !r.ports_cache_preloaded);
    let none: Result<String, DiscoveryFailure> = Err(failure(DiscoveryError::ExtractionFailed));
    let r = perform_cache_initialization(&none, &ports, 40);
    assert!(!r.success);
    assert_eq!(
        r.message,
        "缓存初始化失败 (40ms) - CSRF token 缓存预热失败: 从进程命令行提取信息失败: \
         未找到运行中的 Antigravity/Windsurf 进程; 未能从任何进程命令行中提取 CSRF Token; \
         端口信息缓存预热失败: 从进程命令行提取信息失败: \
         未找到运行中的 Antigravity/Windsurf 进程; gone"
    );
}

#[test]
fn candidates_are_tried_in_their_order() {
    assert_eq!(find_candidate_ports(42000), vec![42001, 42000, 42002, 42100, 42101, 42102]);
    assert_eq!(find_candidate_ports(65535), vec![65535, 42100, 42101, 42102]);
    assert_eq!(find_candidate_ports(65534), vec![65535, 65534, 42100, 42101, 42102]);
    assert_eq!(next_probe(42000, 0), ProbeStep::Probe(42001));
    assert_eq!(next_probe(42000, 1), ProbeStep::Probe(42000));
    assert_eq!(next_probe(42000, 5), ProbeStep::Probe(42102));
    assert_eq!(next_probe(42000, 6), ProbeStep::Use(42000));
    assert_eq!(next_probe(65535, 4), ProbeStep::Use(65535));
}

#[test]
fn first_port_that_answers_is_used() {
    assert_eq!(find_working_https_port(42000, &vec![true]), 42001);
    assert_eq!(find_working_https_port(42000, &vec![false, false, true, true]), 42002);
    assert_eq!(find_working_https_port(42000, &vec![false; 5]), 42000);
    assert_eq!(find_working_https_port(42000, &vec![false, false, false, false, false, true]), 42102);
    assert_eq!(find_working_https_port(42000, &vec![false; 6]), 42000);
    assert_eq!(find_working_https_port(42000, &Vec::new()), 42000);
    assert_eq!(find_working_https_port(7, &vec![false, false, false, false, false, false, true]), 7);
}

#[test]
fn responses_are_judged_by_their_status() {
    assert!(status_is_success(200) && status_is_success(299));
    assert!(!status_is_success(199) && !status_is_success(300) && !status_is_success(0));
    assert!(test_port_connectivity(Some(204)));
    assert!(!test_port_connectivity(Some(403)));
    assert!(!test_port_connectivity(None));
    assert_eq!(check_response(200, "{}"), Ok(()));
    assert_eq!(
        check_response(403, "forbidden"),
        Err(DiscoveryError::NetworkError("请求返回错误状态码: 403, Body: forbidden".to_string()))
    );
    assert_eq!(
        request_failed("timed out"),
        DiscoveryError::NetworkError("请求失败: timed out".to_string())
    );
    assert_eq!(
        malformed_body("expected value", "<html>"),
        DiscoveryError::DecodeError("解析 JSON 失败: expected value; body=<html>".to_string())
    );
    assert_eq!(malformed_body("e", "b").message(), "解析 JSON 失败: e; body=b");
}

#[test]
fn request_addresses() {
    assert_eq!(
        language_server_url(42001, "GetUserStatus"),
        "https://127.0.0.1:42001/exa.language_server_pb.LanguageServerService/GetUserStatus"
    );
    assert_eq!(
        language_server_url(0, "GetUnleashData"),
        "https://127.0.0.1:0/exa.language_server_pb.LanguageServerService/GetUnleashData"
    );
    assert_eq!(CSRF_HEADER, "X-Codeium-Csrf-Token");
    let with = PortInfo { https_port: Some(9), ..PortInfo::default() };
    assert_eq!(base_port(&with), Ok(9));
    assert_eq!(base_port(&PortInfo::default()), Err("端口信息中未找到端口".to_string()));
}

#[test]
fn blank_key_is_refused() {
    assert_eq!(check_api_key("key"), Ok(()));
    assert_eq!(check_api_key("  k "), Ok(()));
    assert_eq!(check_api_key(""), Err("apiKey 不能为空".to_string()));
    assert_eq!(check_api_key(" \t\n\u{3000}\u{a0}"), Err("apiKey 不能为空".to_string()));
    assert_eq!(check_api_key("\u{200b}"), Ok(()));
}

#[test]
fn failed_request_is_retried_once_after_emptying_the_caches() {
    let mut cache = CacheManager::new();
    cache.set_csrf_token(CSRF_TOKEN_KEY, "stale".to_string(), 0);
    cache.set_ports(PORTS_INFO_KEY, PortInfo::default(), 0);
    let step = after_attempt(&mut cache, Attempt::First, Err("refused".to_string()));
    assert_eq!(step, RetryStep::Retry("refused".to_string()));
    assert_eq!(cache.get_csrf_token(CSRF_TOKEN_KEY, 0), None);
    assert_eq!(cache.get_ports(PORTS_INFO_KEY, 0), None);
    cache.set_csrf_token(CSRF_TOKEN_KEY, "fresh".to_string(), 1);
    let step = after_attempt(
        &mut cache,
        Attempt::Second("refused".to_string()),
        Err("status 403".to_string()),
    );
    assert_eq!(
        step,
        RetryStep::Failed("获取配额失败 (已重试): status 403 (首次失败: refused)".to_string())
    );
    assert_eq!(cache.get_csrf_token(CSRF_TOKEN_KEY, 1), Some("fresh".to_string()));
}

#[test]
fn answered_request_is_done() {
    let mut cache = CacheManager::new();
    cache.set_csrf_token(CSRF_TOKEN_KEY, "t".to_string(), 0);
    assert_eq!(
        after_attempt(&mut cache, Attempt::First, Ok("{}".to_string())),
        RetryStep::Done("{}".to_string())
    );
    assert_eq!(
        after_attempt(&mut cache, Attempt::Second("e".to_string()), Ok("{}".to_string())),
        RetryStep::Done("{}".to_string())
    );
    assert_eq!(cache.get_csrf_token(CSRF_TOKEN_KEY, 0), Some("t".to_string()));
}

#[test]
fn user_status_with_one_retry() {
    let mut cache = CacheManager::new();
    cache.set_csrf_token(CSRF_TOKEN_KEY, "t".to_string(), 0);
    let ok = language_server_get_user_status(&mut cache, "key", Ok("a".to_string()), Err("x".to_string()));
    assert_eq!(ok, Ok("a".to_string()));
    assert_eq!(cache.get_csrf_token(CSRF_TOKEN_KEY, 0), Some("t".to_string()));
    let blank = language_server_get_user_status(&mut cache, " ", Ok("a".to_string()), Ok("b".to_string()));
    assert_eq!(blank, Err("apiKey 不能为空".to_string()));
    let second = language_server_get_user_status(&mut cache, "key", Err("x".to_string()), Ok("b".to_string()));
    assert_eq!(second, Ok("b".to_string()));
    assert_eq!(cache.get_csrf_token(CSRF_TOKEN_KEY, 0), None);
    let failed = language_server_get_user_status(&mut cache, "key", Err("x".to_string()), Err("y".to_string()));
    assert_eq!(failed, Err("获取配额失败 (已重试): y (首次失败: x)".to_string()));
}
