//! The values that the discovery steps hand to one another.

use vstd::prelude::*;
use vstd::string::*;

verus! {

/// One running process, as the process list shows it.
#[derive(Debug, Clone)]
pub struct ProcessEntry {
    pub pid: u32,
    pub name: String,
}

/// A candidate process with the command line that was read for it;
/// `command_line` is `None` where it could not be read.
#[derive(Debug, Clone)]
pub struct ProcessHandle {
    pub pid: u32,
    pub command_line: Option<String>,
}

/// What one command line yielded: the token, and the ports as far as the
/// command line names them.
#[derive(Debug, Clone, PartialEq, Eq)]
pub struct ProcessInfo {
    pub pid: u32,
    pub extension_port: Option<u16>,
    pub api_port: Option<u16>,
    pub csrf_token: String,
}

/// `ProcessInfo` with its token as a sequence of characters.
pub struct ProcessInfoView {
    pub pid: u32,
    pub extension_port: Option<u16>,
    pub api_port: Option<u16>,
    pub csrf_token: Seq<char>,
}

impl View for ProcessInfo {
    type V = ProcessInfoView;

    open spec fn view(&self) -> ProcessInfoView {
        ProcessInfoView {
            pid: self.pid,
            extension_port: self.extension_port,
            api_port: self.api_port,
            csrf_token: self.csrf_token@,
        }
    }
}

/// The service topology as currently believed. Every field is optional,
/// since each way of finding out fills a different part.
#[derive(Debug, Clone, PartialEq, Eq)]
pub struct PortInfo {
    pub https_port: Option<u16>,
    pub http_port: Option<u16>,
    pub extension_port: Option<u16>,
    pub log_path: Option<String>,
    pub csrf_token: Option<String>,
}

/// `PortInfo` with its texts as sequences of characters.
pub struct PortInfoView {
    pub https_port: Option<u16>,
    pub http_port: Option<u16>,
    pub extension_port: Option<u16>,
    pub log_path: Option<Seq<char>>,
    pub csrf_token: Option<Seq<char>>,
}

/// The text inside an optional string.
pub open spec fn opt_text(s: Option<String>) -> Option<Seq<char>> {
    match s {
        Some(t) => Some(t@),
        None => None,
    }
}

/// Copies an optional string.
pub fn copy_opt_text(s: &Option<String>) -> (r: Option<String>)
    ensures
        opt_text(r) == opt_text(*s),
{
    match s {
        Some(t) => Some(t.clone()),
        None => None,
    }
}

impl View for PortInfo {
    type V = PortInfoView;

    open spec fn view(&self) -> PortInfoView {
        PortInfoView {
            https_port: self.https_port,
            http_port: self.http_port,
            extension_port: self.extension_port,
            log_path: opt_text(self.log_path),
            csrf_token: opt_text(self.csrf_token),
        }
    }
}

impl PortInfoView {
    /// The bundle with nothing known.
    pub open spec fn empty() -> PortInfoView {
        PortInfoView {
            https_port: None,
            http_port: None,
            extension_port: None,
            log_path: None,
            csrf_token: None,
        }
    }

    /// A bundle can be used once it names an HTTPS port or an extension port.
    pub open spec fn usable(self) -> bool {
        self.https_port is Some || self.extension_port is Some
    }
}

impl Default for PortInfo {
    fn default() -> (r: PortInfo)
        ensures
            r@ == PortInfoView::empty(),
    {
        PortInfo {
            https_port: None,
            http_port: None,
            extension_port: None,
            log_path: None,
            csrf_token: None,
        }
    }
}

impl PortInfo {
    /// Whether the bundle names an HTTPS port or an extension port.
    pub fn is_usable(&self) -> (r: bool)
        ensures
            r == self@.usable(),
    {
        self.https_port.is_some() || self.extension_port.is_some()
    }

    /// A copy of the bundle.
    pub fn duplicate(&self) -> (r: PortInfo)
        ensures
            r@ == self@,
    {
        PortInfo {
            https_port: self.https_port,
            http_port: self.http_port,
            extension_port: self.extension_port,
            log_path: copy_opt_text(&self.log_path),
            csrf_token: copy_opt_text(&self.csrf_token),
        }
    }
}

/// Why one command line yielded nothing that can be used.
#[derive(Debug, Clone, Copy, PartialEq, Eq, Structural)]
pub enum ExtractError {
    /// The pattern library refused a search pattern.
    PatternRejected,
}

/// Why a discovery ended without a value.
#[derive(Debug, Clone, PartialEq, Eq)]
pub enum DiscoveryError {
    /// No process with a matching name is running.
    ProcessNotFound,
    /// Processes were found, but no way of reading them yielded a credential.
    ExtractionFailed,
    /// A file or a process could not be read.
    IoError(String),
    /// A request timed out, was refused or came back with a failure status.
    NetworkError(String),
    /// A response body was not what it should be.
    DecodeError(String),
}

impl DiscoveryError {
    /// The text of the error.
    pub open spec fn text(self) -> Seq<char> {
        match self {
            DiscoveryError::ProcessNotFound => "未找到运行中的 Antigravity/Windsurf 进程"@,
            DiscoveryError::ExtractionFailed => "未能从任何进程命令行中提取 CSRF Token"@,
            DiscoveryError::IoError(t) => t@,
            DiscoveryError::NetworkError(t) => t@,
            DiscoveryError::DecodeError(t) => t@,
        }
    }

    /// A text that says what went wrong.
    pub fn message(&self) -> (r: String)
        ensures
            r@ == self.text(),
    {
        match self {
            DiscoveryError::ProcessNotFound => String::from_str(
                "未找到运行中的 Antigravity/Windsurf 进程",
            ),
            DiscoveryError::ExtractionFailed => String::from_str(
                "未能从任何进程命令行中提取 CSRF Token",
            ),
            DiscoveryError::IoError(t) => t.clone(),
            DiscoveryError::NetworkError(t) => t.clone(),
            DiscoveryError::DecodeError(t) => t.clone(),
        }
    }
}

/// A discovery that failed in both of its ways: what reading the command
/// lines came to, and what the fallback came to after it.
#[derive(Debug, Clone, PartialEq, Eq)]
pub struct DiscoveryFailure {
    pub command_line: DiscoveryError,
    pub fallback: DiscoveryError,
}

impl DiscoveryFailure {
    /// The text of the failure: that reading the command lines failed and
    /// why, then why the fallback failed.
    pub open spec fn text(self) -> Seq<char> {
        "从进程命令行提取信息失败: "@ + self.command_line.text() + "; "@ + self.fallback.text()
    }

    /// One text that names both errors, in the order in which the ways were
    /// tried.
    pub fn describe(&self) -> (r: String)
        ensures
            r@ == self.text(),
    {
        let mut out = String::from_str("从进程命令行提取信息失败: ");
        let first = self.command_line.message();
        out.append(first.as_str());
        out.append("; ");
        let second = self.fallback.message();
        out.append(second.as_str());
        out
    }
}

/// The newest log file as it was found: its path, and its text or the reason
/// why it could not be read.
#[derive(Debug)]
pub struct LogSnapshot {
    pub path: String,
    pub content: Result<String, String>,
}

/// How many entries each cache holds.
#[derive(Debug, Clone, Copy, PartialEq, Eq, Structural)]
pub struct CacheStats {
    pub csrf_cache_size: u64,
    pub ports_cache_size: u64,
}

/// How long a cached value lives and how many entries a cache may hold.
#[derive(Debug, Clone, Copy, PartialEq, Eq, Structural)]
pub struct CacheConfig {
    pub ttl_seconds: u64,
    pub max_cache_entries: u64,
}

impl Default for CacheConfig {
    /// Five minutes, and room for a hundred entries.
    fn default() -> (r: CacheConfig)
        ensures
            r == (CacheConfig { ttl_seconds: 300, max_cache_entries: 100 }),
    {
        CacheConfig { ttl_seconds: 300, max_cache_entries: 100 }
    }
}

/// What pre-warming the caches came to.
#[derive(Debug, Clone, PartialEq, Eq)]
pub struct CacheInitResult {
    pub success: bool,
    pub message: String,
    pub csrf_cache_preloaded: bool,
    pub ports_cache_preloaded: bool,
}

} // verus!
