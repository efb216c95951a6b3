//! Reading the application log: which log file is the newest, and which
//! ports its lines announce.

use crate::pattern::{all_groups, all_groups_of, groups_of, is_part_of};
use crate::text::{captured_port, port_from_capture, same_text};
use vstd::prelude::*;
use vstd::string::*;

verus! {

/// The line that announces the HTTPS port, with its number.
pub const HTTPS_PORT_PATTERN: &'static str = r"random port at (\d+) for HTTPS";

/// The line that announces the HTTP port, with its number. The word has to
/// end after `HTTP`, so that no line that announces the HTTPS port matches.
pub const HTTP_PORT_PATTERN: &'static str = r"random port at (\d+) for HTTP\b";

/// The line that announces the extension server's port, with its number.
pub const EXTENSION_CLIENT_PATTERN: &'static str = r"extension server client at port (\d+)";

/// The name of the log file.
pub const LOG_FILE_NAME: &'static str = "Antigravity.log";

/// How deep below a log directory files are looked for.
pub const LOG_SEARCH_DEPTH: usize = 6;

/// A file that was met while walking the log directories.
#[derive(Debug, Clone)]
pub struct LogCandidate {
    /// The whole path of the file.
    pub path: String,
    /// The last component of the path.
    pub file_name: String,
    /// When the file was last modified, in nanoseconds since the epoch.
    pub modified: u64,
}

/// The file is a log file by its name.
pub open spec fn is_log(candidate: LogCandidate) -> bool {
    candidate.file_name@ == LOG_FILE_NAME@
}

/// The index of the newest log file among the candidates, the first of them
/// where several are equally new.
pub open spec fn is_latest_log(candidates: Seq<LogCandidate>, i: int) -> bool {
    &&& 0 <= i < candidates.len()
    &&& is_log(candidates[i])
    &&& forall|j: int|
        0 <= j < candidates.len() && is_log(#[trigger] candidates[j]) ==> candidates[j].modified
            <= candidates[i].modified
    &&& forall|j: int|
        0 <= j < i && is_log(#[trigger] candidates[j]) ==> candidates[j].modified
            < candidates[i].modified
}

/// Which group of an announcement holds the digits of the port.
pub const PORT_GROUP: usize = 1;

/// The digits that the last of several announcements captured; none where
/// there is no announcement.
pub open spec fn last_capture(captures: Seq<Option<Seq<char>>>) -> Option<Seq<char>> {
    if captures.len() == 0 {
        None
    } else {
        captures.last()
    }
}

/// The port that the last of several announcements names; none where there
/// is no announcement or the digits of the last one write no port number.
pub open spec fn announced_port(captures: Seq<Option<Seq<char>>>) -> Option<u16> {
    captured_port(last_capture(captures))
}

/// The port that the last line of a log to match a pattern names.
pub open spec fn last_announced(pattern: Seq<char>, content: Seq<char>) -> Option<u16> {
    match all_groups_of(pattern, PORT_GROUP as nat, content) {
        Some(captures) => announced_port(captures),
        None => None,
    }
}

/// Of several announcements the last one counts, whatever the ones before
/// it name and however their numbers compare.
pub proof fn lemma_last_announcement_wins(
    earlier: Seq<Option<Seq<char>>>,
    last: Option<Seq<char>>,
)
    ensures
        announced_port(earlier.push(last)) == captured_port(last),
{
}

/// Reads the port out of the digits that the announcements of a kind
/// captured, in the order of the announcements: the last one counts.
pub fn port_from_announcements(captures: &Vec<Option<String>>) -> (r: Option<u16>)
    ensures
        r == announced_port(groups_of(captures@)),
{
    if captures.len() == 0 {
        None
    } else {
        port_from_capture(&captures[captures.len() - 1])
    }
}

/// Reads the port that the last line of a log to match a pattern names.
pub fn last_port(content: &str, pattern: &str) -> (r: Option<u16>)
    ensures
        r == last_announced(pattern@, content@),
        r is Some ==> exists|digits: Seq<char>|
            is_part_of(digits, content@) && #[trigger] captured_port(Some(digits)) == r,
{
    match all_groups(pattern, PORT_GROUP, content) {
        Ok(captures) => {
            let port = port_from_announcements(&captures);
            proof {
                if port is Some {
                    let last = captures@[captures@.len() - 1];
                    assert(groups_of(captures@).last() == Some(last->0@));
                    assert(captured_port(Some(last->0@)) == port);
                }
            }
            port
        },
        Err(_) => None,
    }
}

/// Reads the HTTPS, the HTTP and the extension port from the text of a log.
/// Of several announcements of one kind the last one counts.
pub fn parse_ports_from_log(content: &str) -> (r: (Option<u16>, Option<u16>, Option<u16>))
    ensures
        r.0 == last_announced(HTTPS_PORT_PATTERN@, content@),
        r.1 == last_announced(HTTP_PORT_PATTERN@, content@),
        r.2 == last_announced(EXTENSION_CLIENT_PATTERN@, content@),
{
    let https_port = last_port(content, HTTPS_PORT_PATTERN);
    let http_port = last_port(content, HTTP_PORT_PATTERN);
    let extension_port = last_port(content, EXTENSION_CLIENT_PATTERN);
    (https_port, http_port, extension_port)
}

/// Picks the newest log file among the files that a walk met: its path, or
/// nothing where no file bears the log's name.
pub fn find_latest_antigravity_log(candidates: &Vec<LogCandidate>) -> (r: Option<String>)
    ensures
        match r {
            Some(path) => exists|i: int|
                is_latest_log(candidates@, i) && path@ == candidates@[i].path@,
            None => forall|j: int| 0 <= j < candidates@.len() ==> !is_log(#[trigger] candidates@[j]),
        },
{
    let mut newest: Option<usize> = None;
    let mut i: usize = 0;
    while i < candidates.len()
        invariant
            i <= candidates@.len(),
            match newest {
                Some(n) => is_latest_log(candidates@.subrange(0, i as int), n as int),
                None => forall|j: int| 0 <= j < i ==> !is_log(#[trigger] candidates@[j]),
            },
        decreases candidates@.len() - i,
    {
        let ghost before = candidates@.subrange(0, i as int);
        let ghost after = candidates@.subrange(0, i + 1);
        if same_text(candidates[i].file_name.as_str(), LOG_FILE_NAME) {
            let replace = match newest {
                Some(n) => candidates[n].modified < candidates[i].modified,
                None => true,
            };
            if replace {
                newest = Some(i);
                assert(is_latest_log(after, i as int)) by {
                    assert forall|j: int| 0 <= j < after.len() && is_log(
                        #[trigger] after[j],
                    ) implies after[j].modified <= after[i as int].modified by {
                        if j < i {
                            assert(before[j] == after[j]);
                        }
                    }
                    assert forall|j: int| 0 <= j < i && is_log(#[trigger] after[j]) implies after[j].modified
                        < after[i as int].modified by {
                        assert(before[j] == after[j]);
                    }
                }
            } else {
                let ghost n = newest->0 as int;
                assert(is_latest_log(after, n)) by {
                    assert(before[n] == after[n]);
                    assert forall|j: int| 0 <= j < after.len() && is_log(
                        #[trigger] after[j],
                    ) implies after[j].modified <= after[n].modified by {
                        if j < i {
                            assert(before[j] == after[j]);
                        }
                    }
                    assert forall|j: int| 0 <= j < n && is_log(#[trigger] after[j]) implies after[j].modified
                        < after[n].modified by {
                        assert(before[j] == after[j]);
                    }
                }
            }
        } else {
            match newest {
                Some(n) => {
                    assert(is_latest_log(after, n as int)) by {
                        assert(before[n as int] == after[n as int]);
                        assert forall|j: int| 0 <= j < after.len() && is_log(
                            #[trigger] after[j],
                        ) implies after[j].modified <= after[n as int].modified by {
                            if j < i {
                                assert(before[j] == after[j]);
                            }
                        }
                        assert forall|j: int| 0 <= j < n && is_log(#[trigger] after[j]) implies after[j].modified
                            < after[n as int].modified by {
                            assert(before[j] == after[j]);
                        }
                    }
                },
                None => {},
            }
        }
        i += 1;
    }
    assert(candidates@.subrange(0, i as int) =~= candidates@);
    match newest {
        Some(n) => Some(candidates[n].path.clone()),
        None => None,
    }
}

} // verus!
