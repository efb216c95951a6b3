//! Making a command line out of what was read for a process: the argument
//! file of the process, the output of `ps`, or on Windows the process list
//! and two system utilities, asked in turn.

use crate::text::{chars_of, push_char, same_text, trim_text, trimmed, decimal_text, format_decimal};
use crate::types::DiscoveryError;
use vstd::prelude::*;
use vstd::string::*;

verus! {

/// A text with a space for every NUL character.
pub open spec fn nul_to_space(raw: Seq<char>) -> Seq<char> {
    Seq::new(
        raw.len(),
        |i: int|
            if raw[i] == '\0' {
                ' '
            } else {
                raw[i]
            },
    )
}

/// Where a command line can be asked for on Windows, in the order of
/// asking.
#[derive(Debug, Clone, Copy, PartialEq, Eq, Structural)]
pub enum WindowsSource {
    /// The arguments in the process list, joined by spaces.
    ProcessList,
    /// The output of `Get-CimInstance`.
    CimInstance,
    /// The output of `Get-WmiObject`.
    WmiObject,
}

/// What to do next for a command line on Windows.
#[derive(Debug, PartialEq, Eq)]
pub enum CmdlineStep {
    /// Ask this source.
    Ask(WindowsSource),
    /// This is the command line.
    Found(String),
    /// No source is left.
    Failed(DiscoveryError),
}

/// The source to ask after a source; the first one after none.
pub open spec fn source_after(asked: Option<WindowsSource>) -> Option<WindowsSource> {
    match asked {
        None => Some(WindowsSource::ProcessList),
        Some(WindowsSource::ProcessList) => Some(WindowsSource::CimInstance),
        Some(WindowsSource::CimInstance) => Some(WindowsSource::WmiObject),
        Some(WindowsSource::WmiObject) => None,
    }
}

/// The command line in the output of a source, if it holds one: the process
/// list gives it as it is, unless it is empty; a utility gives it with white
/// space around it, and gives nothing with an empty line or with `null`.
pub open spec fn accepted_output(source: WindowsSource, output: Seq<char>) -> Option<Seq<char>> {
    match source {
        WindowsSource::ProcessList => if output.len() > 0 {
            Some(output)
        } else {
            None
        },
        _ => if trimmed(output).len() > 0 && trimmed(output) != "null"@ {
            Some(trimmed(output))
        } else {
            None
        },
    }
}

/// The text of the error for a process whose command line no source gave.
pub open spec fn unavailable_text(pid: u32) -> Seq<char> {
    "无法获取进程 "@ + decimal_text(pid as nat) + " 的命令行参数"@
}

/// The command line in the argument file of a process, where a NUL
/// character ends each argument: the arguments with spaces in their place.
pub fn get_cmdline_linux(raw: &str) -> (r: String)
    ensures
        r@ == nul_to_space(raw@),
{
    let chars = chars_of(raw);
    let mut out = String::new();
    let mut i: usize = 0;
    while i < chars.len()
        invariant
            i <= chars@.len(),
            chars@ == raw@,
            out@ == nul_to_space(raw@).subrange(0, i as int),
        decreases chars@.len() - i,
    {
        let c = if chars[i] == '\0' {
            ' '
        } else {
            chars[i]
        };
        push_char(&mut out, c);
        i += 1;
        assert(out@ =~= nul_to_space(raw@).subrange(0, i as int));
    }
    assert(nul_to_space(raw@).subrange(0, i as int) =~= nul_to_space(raw@));
    out
}

/// The command line in the output of `ps`: the output without the white
/// space around it.
pub fn get_cmdline_macos(output: &str) -> (r: String)
    ensures
        r@ == trimmed(output@),
{
    trim_text(output)
}

/// Reads the command line out of what a source on Windows gave.
pub fn accept_output(source: WindowsSource, output: &str) -> (r: Option<String>)
    ensures
        match r {
            Some(c) => accepted_output(source, output@) == Some(c@),
            None => accepted_output(source, output@) is None,
        },
{
    match source {
        WindowsSource::ProcessList => if output.is_empty() {
            None
        } else {
            Some(output.to_owned())
        },
        _ => {
            let line = trim_text(output);
            if line.as_str().is_empty() || same_text(line.as_str(), "null") {
                None
            } else {
                Some(line)
            }
        },
    }
}

/// Says what to do next for the command line of a process on Windows, after
/// a source was asked: `asked` is that source, `None` before the first, and
/// `output` is what it gave, `None` where asking failed. A command line that
/// a source gave is final; else the next source is asked; after the last one
/// the command line cannot be had.
pub fn get_cmdline_windows(pid: u32, asked: Option<WindowsSource>, output: Option<&str>) -> (r:
    CmdlineStep)
    ensures
        match (asked, output) {
            (Some(source), Some(text)) if accepted_output(source, text@) is Some => {
                &&& r matches CmdlineStep::Found(c)
                &&& Some(c@) == accepted_output(source, text@)
            },
            _ => match source_after(asked) {
                Some(next) => r == CmdlineStep::Ask(next),
                None => {
                    &&& r matches CmdlineStep::Failed(DiscoveryError::IoError(t))
                    &&& t@ == unavailable_text(pid)
                },
            },
        },
{
    match (asked, output) {
        (Some(source), Some(text)) => match accept_output(source, text) {
            Some(c) => {
                return CmdlineStep::Found(c);
            },
            None => {},
        },
        _ => {},
    }
    match asked {
        None => CmdlineStep::Ask(WindowsSource::ProcessList),
        Some(WindowsSource::ProcessList) => CmdlineStep::Ask(WindowsSource::CimInstance),
        Some(WindowsSource::CimInstance) => CmdlineStep::Ask(WindowsSource::WmiObject),
        Some(WindowsSource::WmiObject) => {
            let mut text = String::from_str("无法获取进程 ");
            let number = format_decimal(pid as u64);
            text.append(number.as_str());
            text.append(" 的命令行参数");
            CmdlineStep::Failed(DiscoveryError::IoError(text))
        },
    }
}

} // verus!
