//! Reading a candidate process: which process names count, and what a
//! command line says of ports and token.

use crate::pattern::{
    all_matches, all_matches_of, escape, escaped, first_group, first_group_of, is_part_at,
    is_part_of, matches_of, TextMatch,
};
use crate::text::{
    back_by, captured_port, contains_folded, contains_ignore_case, forth_by, offset_back,
    offset_forth, port_from_capture,
};
use crate::types::{
    opt_text, DiscoveryError, ExtractError, ProcessEntry, ProcessHandle, ProcessInfo,
    ProcessInfoView,
};
use vstd::prelude::*;
use vstd::seq_lib::{to_multiset_build, to_multiset_insert};
use vstd::slice::slice_subrange;
use vstd::string::*;
use vstd::utf8::encode_utf8;

verus! {

/// The flag that names the extension server's port.
pub const EXTENSION_PORT_FLAG: &'static str = "--extension_server_port";

/// The flag that names the API server's port.
pub const API_PORT_FLAG: &'static str = "--api_server_port";

/// What follows a port flag: equals signs or white space, then the digits
/// of the port.
pub const PORT_VALUE_PATTERN: &'static str = r"[=\s]+(\d+)";

/// Which group of a flag pattern holds the value.
pub const VALUE_GROUP: usize = 1;

/// The flag that names the token, in any case, with a run of hexadecimal
/// digits and hyphens.
pub const CSRF_TOKEN_PATTERN: &'static str = r"(?i)--csrf_token[=\s]+([a-f0-9\-]+)";

/// The other flag under which the token may come.
pub const MANAGER_TOKEN_PATTERN: &'static str = r"(?i)--manager_token[=\s]+([a-f0-9\-]+)";

/// A UUID in its canonical form of 8, 4, 4, 4 and 12 hexadecimal digits.
pub const UUID_PATTERN: &'static str =
    r"[0-9a-fA-F]{8}-[0-9a-fA-F]{4}-[0-9a-fA-F]{4}-[0-9a-fA-F]{4}-[0-9a-fA-F]{12}";

/// How far to either side of a UUID its context reaches, in characters.
pub const CONTEXT_REACH: usize = 50;

/// The bytes of `csrf`.
pub open spec fn csrf_word() -> Seq<u8> {
    seq![0x63u8, 0x73u8, 0x72u8, 0x66u8]
}

/// The bytes of `token`.
pub open spec fn token_word() -> Seq<u8> {
    seq![0x74u8, 0x6fu8, 0x6bu8, 0x65u8, 0x6eu8]
}

/// An offset kept within a text of `len` bytes.
pub open spec fn within(offset: int, len: int) -> int {
    if offset < len {
        offset
    } else {
        len
    }
}

/// Where the context of a match begins: `CONTEXT_REACH` characters before
/// the match, or at the beginning of the text.
pub open spec fn context_from(text: Seq<u8>, start: int) -> int {
    back_by(text, within(start, text.len() as int), CONTEXT_REACH as nat)
}

/// Where the context of a match ends: `CONTEXT_REACH` characters after the
/// match, or at the end of the text.
pub open spec fn context_to(text: Seq<u8>, end: int) -> int {
    forth_by(text, within(end, text.len() as int), CONTEXT_REACH as nat)
}

/// The text around a match, the match included, names `csrf` or `token` in
/// any case.
pub open spec fn has_context(text: Seq<u8>, found: (int, int, Seq<char>)) -> bool {
    let from = context_from(text, found.0);
    let to = context_to(text, found.1);
    &&& from <= to
    &&& (contains_folded(text.subrange(from, to), csrf_word()) || contains_folded(
        text.subrange(from, to),
        token_word(),
    ))
}

/// The first of the matches that has context, if any has.
pub open spec fn first_with_context(text: Seq<u8>, uuids: Seq<(int, int, Seq<char>)>) -> Option<
    Seq<char>,
>
    decreases uuids.len(),
{
    if uuids.len() == 0 {
        None
    } else if has_context(text, uuids[0]) {
        Some(uuids[0].2)
    } else {
        first_with_context(text, uuids.drop_first())
    }
}

/// The token among the UUIDs of a text: the first one with context; without
/// any, the only UUID there is; none where several stand without context.
pub open spec fn select_uuid(text: Seq<u8>, uuids: Seq<(int, int, Seq<char>)>) -> Option<
    Seq<char>,
> {
    match first_with_context(text, uuids) {
        Some(t) => Some(t),
        None => if uuids.len() == 1 {
            Some(uuids[0].2)
        } else {
            None
        },
    }
}

/// The token of a command line, given what its searches found: the value of
/// the token flag; else the value of the other flag; else the token among its
/// UUIDs.
pub open spec fn select_token(
    explicit: Option<Seq<char>>,
    alternate: Option<Seq<char>>,
    uuids: Seq<(int, int, Seq<char>)>,
    text: Seq<u8>,
) -> Option<Seq<char>> {
    match explicit {
        Some(t) => Some(t),
        None => match alternate {
            Some(t) => Some(t),
            None => select_uuid(text, uuids),
        },
    }
}

/// A token that is worth the name: one of at least one character.
pub open spec fn kept_token(token: Option<Seq<char>>) -> Option<Seq<char>> {
    match token {
        Some(t) => if t.len() > 0 {
            Some(t)
        } else {
            None
        },
        None => None,
    }
}

/// What the three searches of a command line come to: `select_token` of
/// what they find. A search that the pattern library refuses ends the
/// reading.
pub open spec fn found_token(cmdline: Seq<char>) -> Result<Option<Seq<char>>, ExtractError> {
    match first_group_of(CSRF_TOKEN_PATTERN@, VALUE_GROUP as nat, cmdline) {
        None => Err(ExtractError::PatternRejected),
        Some(Some(t)) => Ok(Some(t)),
        Some(None) => match first_group_of(MANAGER_TOKEN_PATTERN@, VALUE_GROUP as nat, cmdline) {
            None => Err(ExtractError::PatternRejected),
            Some(Some(t)) => Ok(Some(t)),
            Some(None) => match all_matches_of(UUID_PATTERN@, cmdline) {
                None => Err(ExtractError::PatternRejected),
                Some(uuids) => Ok(select_uuid(encode_utf8(cmdline), uuids)),
            },
        },
    }
}

/// The token of a command line: what its searches come to, where that is
/// a token of at least one character.
pub open spec fn token_of(cmdline: Seq<char>) -> Result<Option<Seq<char>>, ExtractError> {
    match found_token(cmdline) {
        Ok(t) => Ok(kept_token(t)),
        Err(e) => Err(e),
    }
}

/// The pattern for a flag with its port: the flag, character for character,
/// then what follows a port flag.
pub open spec fn flag_pattern_text(flag: Seq<char>) -> Seq<char> {
    escaped(flag) + PORT_VALUE_PATTERN@
}

/// The port that a command line names under a flag; none where the flag
/// does not stand in it or the digits after it write no port number.
pub open spec fn port_of(flag: Seq<char>, cmdline: Seq<char>) -> Option<u16> {
    match first_group_of(flag_pattern_text(flag), VALUE_GROUP as nat, cmdline) {
        Some(capture) => captured_port(capture),
        None => None,
    }
}

/// What one command line yields: nothing where it is empty or holds no
/// token; else its token, with the two ports as far as it names them.
pub open spec fn extraction(pid: u32, cmdline: Seq<char>) -> Result<
    Option<ProcessInfoView>,
    ExtractError,
> {
    if cmdline.len() == 0 {
        Ok(None)
    } else {
        match token_of(cmdline) {
            Err(e) => Err(e),
            Ok(None) => Ok(None),
            Ok(Some(token)) => Ok(
                Some(
                    ProcessInfoView {
                        pid,
                        extension_port: port_of(EXTENSION_PORT_FLAG@, cmdline),
                        api_port: port_of(API_PORT_FLAG@, cmdline),
                        csrf_token: token,
                    },
                ),
            ),
        }
    }
}

/// What a candidate yields, if anything: a command line that could not be
/// read or that ends in an error counts as yielding nothing.
pub open spec fn handle_yield(handle: ProcessHandle) -> Option<ProcessInfoView> {
    match handle.command_line {
        None => None,
        Some(c) => match extraction(handle.pid, c@) {
            Ok(Some(info)) => Some(info),
            _ => None,
        },
    }
}

/// What the first candidate that yields anything yields.
pub open spec fn first_yield(handles: Seq<ProcessHandle>) -> Option<ProcessInfoView>
    decreases handles.len(),
{
    if handles.len() == 0 {
        None
    } else {
        match handle_yield(handles[0]) {
            Some(info) => Some(info),
            None => first_yield(handles.drop_first()),
        }
    }
}

/// The outcome of reading the candidates in their order.
pub open spec fn detection(handles: Seq<ProcessHandle>) -> Result<
    ProcessInfoView,
    DiscoveryError,
> {
    if handles.len() == 0 {
        Err(DiscoveryError::ProcessNotFound)
    } else {
        match first_yield(handles) {
            Some(info) => Ok(info),
            None => Err(DiscoveryError::ExtractionFailed),
        }
    }
}

/// The process names that count by default.
pub open spec fn default_patterns() -> Seq<Seq<char>> {
    seq![
        "language_server_windows_x64"@,
        "language_server_macos"@,
        "language_server_linux"@,
        "language_server"@,
        "antigravity"@,
        "windsurf"@,
    ]
}

/// A process name holds one of the patterns, letters compared without
/// regard to ASCII case.
pub open spec fn name_matches(patterns: Seq<Seq<char>>, name: Seq<char>) -> bool {
    exists|i: int|
        0 <= i < patterns.len() && contains_folded(
            encode_utf8(name),
            encode_utf8(#[trigger] patterns[i]),
        )
}

/// The two product names by which the processes to scan are known.
pub open spec fn target_fragments() -> Seq<Seq<char>> {
    seq!["antigravity"@, "windsurf"@]
}

/// The process IDs of the entries whose name matches, in the order of the
/// entries.
pub open spec fn matching_pids(patterns: Seq<Seq<char>>, processes: Seq<ProcessEntry>) -> Seq<u32>
    decreases processes.len(),
{
    if processes.len() == 0 {
        Seq::empty()
    } else {
        let before = matching_pids(patterns, processes.drop_last());
        if name_matches(patterns, processes.last().name@) {
            before.push(processes.last().pid)
        } else {
            before
        }
    }
}

/// No element is larger than one before it.
pub open spec fn is_descending(s: Seq<u32>) -> bool {
    forall|i: int, j: int| 0 <= i < j < s.len() ==> s[i] >= s[j]
}

/// An extracted token by its view.
pub open spec fn token_view(r: Result<Option<String>, ExtractError>) -> Result<
    Option<Seq<char>>,
    ExtractError,
> {
    match r {
        Ok(t) => Ok(opt_text(t)),
        Err(e) => Err(e),
    }
}

/// An extraction by its view.
pub open spec fn extraction_view(r: Result<Option<ProcessInfo>, ExtractError>) -> Result<
    Option<ProcessInfoView>,
    ExtractError,
> {
    match r {
        Ok(Some(info)) => Ok(Some(info@)),
        Ok(None) => Ok(None),
        Err(e) => Err(e),
    }
}

/// A detection by its view.
pub open spec fn detection_view(r: Result<ProcessInfo, DiscoveryError>) -> Result<
    ProcessInfoView,
    DiscoveryError,
> {
    match r {
        Ok(info) => Ok(info@),
        Err(e) => Err(e),
    }
}

/// Puts `x` into a descending vector at its place.
fn insert_descending(v: &mut Vec<u32>, x: u32)
    requires
        is_descending(old(v)@),
    ensures
        is_descending(final(v)@),
        final(v)@.to_multiset() == old(v)@.to_multiset().insert(x),
{
    let mut pos: usize = 0;
    while pos < v.len() && v[pos] >= x
        invariant
            pos <= v@.len(),
            v@ == old(v)@,
            forall|j: int| 0 <= j < pos ==> v@[j] >= x,
        decreases v@.len() - pos,
    {
        pos += 1;
    }
    let ghost before = v@;
    v.insert(pos, x);
    proof {
        to_multiset_insert(before, pos as int, x);
        assert forall|i: int, j: int| 0 <= i < j < v@.len() implies v@[i] >= v@[j] by {
            if j < pos {
                assert(v@[i] == before[i] && v@[j] == before[j]);
            } else if j == pos {
                assert(v@[i] == before[i]);
            } else if i < pos {
                assert(v@[i] == before[i] && v@[j] == before[j - 1]);
            } else if i == pos {
                assert(v@[j] == before[j - 1]);
                assert(before[pos as int] < x);
                assert(before[pos as int] >= before[j - 1] || j - 1 == pos);
            } else {
                assert(v@[i] == before[i - 1] && v@[j] == before[j - 1]);
            }
        }
    }
}

/// Picks the token among the UUIDs of a text.
pub fn choose_uuid(uuids: &Vec<TextMatch>, text: &[u8]) -> (r: Option<String>)
    ensures
        opt_text(r) == select_uuid(text@, matches_of(uuids@)),
        r matches Some(t) ==> exists|i: int| 0 <= i < uuids@.len() && uuids@[i].text@ == t@,
{
    let ghost all = matches_of(uuids@);
    let csrf: Vec<u8> = vec![0x63u8, 0x73u8, 0x72u8, 0x66u8];
    let token: Vec<u8> = vec![0x74u8, 0x6fu8, 0x6bu8, 0x65u8, 0x6eu8];
    assert(csrf@ =~= csrf_word());
    assert(token@ =~= token_word());
    let len = text.len();
    let mut i: usize = 0;
    assert(all.skip(0) =~= all);
    while i < uuids.len()
        invariant
            i <= uuids@.len(),
            all == matches_of(uuids@),
            len == text@.len(),
            csrf@ == csrf_word(),
            token@ == token_word(),
            first_with_context(text@, all) == first_with_context(text@, all.skip(i as int)),
        decreases uuids@.len() - i,
    {
        let start = if uuids[i].start < len {
            uuids[i].start
        } else {
            len
        };
        let end = if uuids[i].end < len {
            uuids[i].end
        } else {
            len
        };
        let from = offset_back(text, start, CONTEXT_REACH);
        let to = offset_forth(text, end, CONTEXT_REACH);
        let ghost rest = all.skip(i as int);
        proof {
            assert(rest[0] == uuids@[i as int]@);
            assert(rest.drop_first() =~= all.skip(i + 1));
            assert(from == context_from(text@, rest[0].0));
            assert(to == context_to(text@, rest[0].1));
        }
        let near = if from <= to {
            let around = slice_subrange(text, from, to);
            contains_ignore_case(around, csrf.as_slice()) || contains_ignore_case(
                around,
                token.as_slice(),
            )
        } else {
            false
        };
        assert(near == has_context(text@, rest[0]));
        if near {
            let found = uuids[i].text.clone();
            assert(uuids@[i as int].text@ == found@);
            return Some(found);
        }
        i += 1;
    }
    assert(all.skip(i as int).len() == 0);
    if uuids.len() == 1 {
        assert(all[0] == uuids@[0]@);
        let found = uuids[0].text.clone();
        assert(uuids@[0].text@ == found@);
        Some(found)
    } else {
        None
    }
}

/// Picks the token of a command line from what its searches found.
pub fn choose_token(
    explicit: Option<String>,
    alternate: Option<String>,
    uuids: &Vec<TextMatch>,
    text: &[u8],
) -> (r: Option<String>)
    ensures
        opt_text(r) == select_token(
            opt_text(explicit),
            opt_text(alternate),
            matches_of(uuids@),
            text@,
        ),
{
    match explicit {
        Some(t) => Some(t),
        None => match alternate {
            Some(t) => Some(t),
            None => choose_uuid(uuids, text),
        },
    }
}

/// Keeps a token of at least one character.
pub fn keep_token(token: Option<String>) -> (r: Option<String>)
    ensures
        opt_text(r) == kept_token(opt_text(token)),
        r matches Some(t) ==> token == Some(t) && t@.len() > 0,
{
    match token {
        Some(t) => if t.as_str().is_empty() {
            None
        } else {
            Some(t)
        },
        None => None,
    }
}

/// Reads the token of a command line. A token that comes back has at least
/// one character and stands in the command line as one piece.
pub fn extract_csrf_token(cmdline: &str) -> (r: Result<Option<String>, ExtractError>)
    ensures
        token_view(r) == token_of(cmdline@),
        r matches Ok(Some(t)) ==> t@.len() > 0 && is_part_of(t@, cmdline@),
{
    match first_group(CSRF_TOKEN_PATTERN, VALUE_GROUP, cmdline) {
        Err(_) => {
            return Err(ExtractError::PatternRejected);
        },
        Ok(Some(t)) => {
            return Ok(keep_token(Some(t)));
        },
        Ok(None) => {},
    }
    match first_group(MANAGER_TOKEN_PATTERN, VALUE_GROUP, cmdline) {
        Err(_) => {
            return Err(ExtractError::PatternRejected);
        },
        Ok(Some(t)) => {
            return Ok(keep_token(Some(t)));
        },
        Ok(None) => {},
    }
    match all_matches(UUID_PATTERN, cmdline) {
        Err(_) => Err(ExtractError::PatternRejected),
        Ok(uuids) => {
            let chosen = choose_uuid(&uuids, cmdline.as_bytes());
            proof {
                if chosen is Some {
                    let t = chosen->0;
                    let i = choose|i: int| 0 <= i < uuids@.len() && uuids@[i].text@ == t@;
                    assert(is_part_at(
                        uuids@[i].text@,
                        cmdline@,
                        uuids@[i].start as int,
                        uuids@[i].end as int,
                    ));
                }
            }
            Ok(keep_token(chosen))
        },
    }
}

/// Writes the pattern for a flag with its port: the flag is matched
/// character for character, whatever characters it holds.
pub fn flag_pattern(flag: &str) -> (r: String)
    ensures
        r@ == flag_pattern_text(flag@),
{
    let mut pattern = escape(flag);
    pattern.append(PORT_VALUE_PATTERN);
    pattern
}

/// Reads the port that a command line names under a flag. A flag that does
/// not stand in the command line, or digits that write no port number, give
/// no port.
pub fn extract_port(cmdline: &str, flag: &str) -> (r: Option<u16>)
    ensures
        r == port_of(flag@, cmdline@),
        r is Some ==> exists|digits: Seq<char>|
            is_part_of(digits, cmdline@) && #[trigger] captured_port(Some(digits)) == r,
{
    let pattern = flag_pattern(flag);
    match first_group(pattern.as_str(), VALUE_GROUP, cmdline) {
        Err(_) => None,
        Ok(capture) => {
            let port = port_from_capture(&capture);
            proof {
                if port is Some {
                    assert(captured_port(Some(capture->0@)) == port);
                }
            }
            port
        },
    }
}

/// Whether a process is one of the product's by its name: the name holds
/// one of the two product names, in any case. White space around the name
/// and an executable suffix behind it make no difference to that.
pub fn is_target_process(name: &str) -> (r: bool)
    ensures
        r == name_matches(target_fragments(), name@),
{
    let bytes = name.as_bytes();
    let first = "antigravity".as_bytes();
    let second = "windsurf".as_bytes();
    let r = contains_ignore_case(bytes, first) || contains_ignore_case(bytes, second);
    proof {
        let fragments = target_fragments();
        assert(fragments[0] == "antigravity"@ && fragments[1] == "windsurf"@);
        if r {
            if contains_folded(bytes@, first@) {
                assert(contains_folded(encode_utf8(name@), encode_utf8(fragments[0])));
            } else {
                assert(contains_folded(encode_utf8(name@), encode_utf8(fragments[1])));
            }
        }
    }
    r
}

/// Finds the token and the ports in the command lines of candidate
/// processes.
pub struct CmdLineDetector {
    process_name_patterns: Vec<String>,
}

impl CmdLineDetector {
    /// The name patterns of this detector.
    pub closed spec fn patterns(&self) -> Seq<Seq<char>> {
        Seq::new(self.process_name_patterns@.len(), |i: int| self.process_name_patterns@[i]@)
    }

    /// A detector for the default process names.
    pub fn new() -> (r: Self)
        ensures
            r.patterns() == default_patterns(),
    {
        let mut names: Vec<String> = Vec::new();
        names.push(String::from_str("language_server_windows_x64"));
        names.push(String::from_str("language_server_macos"));
        names.push(String::from_str("language_server_linux"));
        names.push(String::from_str("language_server"));
        names.push(String::from_str("antigravity"));
        names.push(String::from_str("windsurf"));
        let r = CmdLineDetector { process_name_patterns: names };
        assert(r.patterns() =~= default_patterns());
        r
    }

    /// A detector for the given process names.
    pub fn with_patterns(process_name_patterns: Vec<String>) -> (r: Self)
        ensures
            r.patterns() == Seq::new(
                process_name_patterns@.len(),
                |i: int| process_name_patterns@[i]@,
            ),
    {
        CmdLineDetector { process_name_patterns }
    }

    /// Whether a process name holds one of the patterns.
    pub fn matches_process_name(&self, name: &str) -> (r: bool)
        ensures
            r == name_matches(self.patterns(), name@),
    {
        let bytes = name.as_bytes();
        let mut i: usize = 0;
        while i < self.process_name_patterns.len()
            invariant
                i <= self.process_name_patterns@.len(),
                bytes@ == encode_utf8(name@),
                forall|j: int|
                    0 <= j < i ==> !contains_folded(
                        encode_utf8(name@),
                        encode_utf8(#[trigger] self.patterns()[j]),
                    ),
            decreases self.process_name_patterns@.len() - i,
        {
            let pattern = self.process_name_patterns[i].as_str().as_bytes();
            assert(pattern@ == encode_utf8(self.patterns()[i as int]));
            if contains_ignore_case(bytes, pattern) {
                return true;
            }
            i += 1;
        }
        false
    }

    /// The candidates among the running processes, newest first: the IDs of
    /// the processes whose name matches, in descending order.
    pub fn find_target_processes(&self, processes: &Vec<ProcessEntry>) -> (r: Vec<u32>)
        ensures
            is_descending(r@),
            r@.to_multiset() == matching_pids(self.patterns(), processes@).to_multiset(),
    {
        let mut pids: Vec<u32> = Vec::new();
        let mut i: usize = 0;
        assert(processes@.subrange(0, 0) =~= Seq::empty());
        while i < processes.len()
            invariant
                i <= processes@.len(),
                is_descending(pids@),
                pids@.to_multiset() == matching_pids(
                    self.patterns(),
                    processes@.subrange(0, i as int),
                ).to_multiset(),
            decreases processes@.len() - i,
        {
            let ghost upto = processes@.subrange(0, i + 1);
            proof {
                assert(upto.drop_last() =~= processes@.subrange(0, i as int));
                assert(upto.last() == processes@[i as int]);
            }
            if self.matches_process_name(processes[i].name.as_str()) {
                proof {
                    to_multiset_build(
                        matching_pids(self.patterns(), upto.drop_last()),
                        processes@[i as int].pid,
                    );
                }
                insert_descending(&mut pids, processes[i].pid);
            }
            i += 1;
        }
        assert(processes@.subrange(0, i as int) =~= processes@);
        pids
    }

    /// Reads one command line for ports and token. The token decides: a
    /// command line with a token yields it, and the ports with it as far as
    /// they can be read.
    pub fn extract_from_cmdline(&self, pid: u32, cmdline: &str) -> (r: Result<
        Option<ProcessInfo>,
        ExtractError,
    >)
        ensures
            extraction_view(r) == extraction(pid, cmdline@),
            r matches Ok(Some(info)) ==> info.csrf_token@.len() > 0 && is_part_of(
                info.csrf_token@,
                cmdline@,
            ),
    {
        if cmdline.is_empty() {
            return Ok(None);
        }
        match extract_csrf_token(cmdline) {
            Err(e) => Err(e),
            Ok(None) => Ok(None),
            Ok(Some(token)) => {
                let extension_port = extract_port(cmdline, EXTENSION_PORT_FLAG);
                let api_port = extract_port(cmdline, API_PORT_FLAG);
                Ok(Some(ProcessInfo { pid, extension_port, api_port, csrf_token: token }))
            },
        }
    }

    /// Whether the command line of a candidate yields a token. Who reads the
    /// command lines one by one need not read on after a candidate that
    /// does.
    pub fn yields_token(&self, handle: &ProcessHandle) -> (r: bool)
        ensures
            r == (handle_yield(*handle) is Some),
    {
        match &handle.command_line {
            None => false,
            Some(c) => match self.extract_from_cmdline(handle.pid, c.as_str()) {
                Ok(Some(_)) => true,
                _ => false,
            },
        }
    }

    /// Reads the candidates in their order and stops at the first whose
    /// command line yields a token.
    pub fn detect_process_info(&self, handles: &Vec<ProcessHandle>) -> (r: Result<
        ProcessInfo,
        DiscoveryError,
    >)
        ensures
            detection_view(r) == detection(handles@),
    {
        if handles.len() == 0 {
            return Err(DiscoveryError::ProcessNotFound);
        }
        let mut i: usize = 0;
        assert(handles@.skip(0) =~= handles@);
        while i < handles.len()
            invariant
                i <= handles@.len(),
                first_yield(handles@) == first_yield(handles@.skip(i as int)),
            decreases handles@.len() - i,
        {
            let ghost rest = handles@.skip(i as int);
            proof {
                assert(rest[0] == handles@[i as int]);
                assert(rest.drop_first() =~= handles@.skip(i + 1));
            }
            match &handles[i].command_line {
                None => {},
                Some(c) => {
                    match self.extract_from_cmdline(handles[i].pid, c.as_str()) {
                        Ok(Some(info)) => {
                            return Ok(info);
                        },
                        _ => {},
                    }
                },
            }
            i += 1;
        }
        assert(handles@.skip(i as int).len() == 0);
        Err(DiscoveryError::ExtractionFailed)
    }
}

/// The processes to scan among the running processes, newest first: the IDs
/// of the processes that bear one of the two product names, in descending
/// order.
pub fn collect_target_pids(processes: &Vec<ProcessEntry>) -> (r: Vec<u32>)
    ensures
        is_descending(r@),
        r@.to_multiset() == matching_pids(target_fragments(), processes@).to_multiset(),
{
    let mut names: Vec<String> = Vec::new();
    names.push(String::from_str("antigravity"));
    names.push(String::from_str("windsurf"));
    let detector = CmdLineDetector::with_patterns(names);
    assert(detector.patterns() =~= target_fragments());
    detector.find_target_processes(processes)
}

/// The candidates after the first one that yields a token do not count:
/// the candidates read up to one that yields a token give what all of them
/// give.
pub proof fn lemma_detection_stops_at_first(handles: Seq<ProcessHandle>, read: int)
    requires
        0 < read <= handles.len(),
        handle_yield(handles[read - 1]) is Some,
    ensures
        detection(handles.take(read)) == detection(handles),
    decreases handles.len(),
{
    let taken = handles.take(read);
    assert(taken[0] == handles[0]);
    if handle_yield(handles[0]) is None {
        assert(read > 1);
        assert(taken.drop_first() =~= handles.drop_first().take(read - 1));
        assert(handles.drop_first()[read - 2] == handles[read - 1]);
        lemma_detection_stops_at_first(handles.drop_first(), read - 1);
    }
}

/// A command line with the token flag yields the flag's value, whatever
/// UUIDs stand in it besides.
pub proof fn lemma_explicit_flag_wins(cmdline: Seq<char>, value: Seq<char>)
    requires
        first_group_of(CSRF_TOKEN_PATTERN@, VALUE_GROUP as nat, cmdline) == Some(Some(value)),
        value.len() > 0,
    ensures
        token_of(cmdline) == Ok::<Option<Seq<char>>, ExtractError>(Some(value)),
{
}

/// A command line without either flag and without a UUID yields no token.
pub proof fn lemma_no_uuid_no_token(cmdline: Seq<char>)
    requires
        first_group_of(CSRF_TOKEN_PATTERN@, VALUE_GROUP as nat, cmdline) == Some(None::<Seq<char>>),
        first_group_of(MANAGER_TOKEN_PATTERN@, VALUE_GROUP as nat, cmdline) == Some(
            None::<Seq<char>>,
        ),
        all_matches_of(UUID_PATTERN@, cmdline) == Some(Seq::<(int, int, Seq<char>)>::empty()),
    ensures
        token_of(cmdline) == Ok::<Option<Seq<char>>, ExtractError>(None),
{
}

/// Where none of the UUIDs has context, none is found with context.
pub proof fn lemma_no_context_none_first(text: Seq<u8>, uuids: Seq<(int, int, Seq<char>)>)
    requires
        forall|i: int| 0 <= i < uuids.len() ==> !has_context(text, #[trigger] uuids[i]),
    ensures
        first_with_context(text, uuids) is None,
    decreases uuids.len(),
{
    if uuids.len() > 0 {
        assert(!has_context(text, uuids[0]));
        let rest = uuids.drop_first();
        assert forall|i: int| 0 <= i < rest.len() implies !has_context(text, #[trigger] rest[i]) by {
            assert(rest[i] == uuids[i + 1]);
        }
        lemma_no_context_none_first(text, rest);
    }
}

/// A command line without either flag, with exactly one UUID and without
/// `csrf` or `token` near it yields that UUID.
pub proof fn lemma_single_uuid_accepted(cmdline: Seq<char>, uuid: (int, int, Seq<char>))
    requires
        first_group_of(CSRF_TOKEN_PATTERN@, VALUE_GROUP as nat, cmdline) == Some(None::<Seq<char>>),
        first_group_of(MANAGER_TOKEN_PATTERN@, VALUE_GROUP as nat, cmdline) == Some(
            None::<Seq<char>>,
        ),
        all_matches_of(UUID_PATTERN@, cmdline) == Some(seq![uuid]),
        uuid.2.len() > 0,
        !has_context(encode_utf8(cmdline), uuid),
    ensures
        token_of(cmdline) == Ok::<Option<Seq<char>>, ExtractError>(Some(uuid.2)),
{
    lemma_no_context_none_first(encode_utf8(cmdline), seq![uuid]);
}

/// A command line without either flag, with two or more UUIDs and without
/// `csrf` or `token` near any of them yields no token.
pub proof fn lemma_ambiguous_uuids_rejected(cmdline: Seq<char>, uuids: Seq<(int, int, Seq<char>)>)
    requires
        first_group_of(CSRF_TOKEN_PATTERN@, VALUE_GROUP as nat, cmdline) == Some(None::<Seq<char>>),
        first_group_of(MANAGER_TOKEN_PATTERN@, VALUE_GROUP as nat, cmdline) == Some(
            None::<Seq<char>>,
        ),
        all_matches_of(UUID_PATTERN@, cmdline) == Some(uuids),
        uuids.len() >= 2,
        forall|i: int|
            0 <= i < uuids.len() ==> !has_context(encode_utf8(cmdline), #[trigger] uuids[i]),
    ensures
        token_of(cmdline) == Ok::<Option<Seq<char>>, ExtractError>(None),
{
    lemma_no_context_none_first(encode_utf8(cmdline), uuids);
}

} // verus!
