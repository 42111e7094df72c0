//! Deciding, from a snapshot of the process table, whether a named program runs.
use vstd::prelude::*;
use vstd::string::StringSliceAdditionalSpecFns;
use vstd::utf8::{decode_utf8, encode_utf8, valid_utf8};

use crate::text::{last_index_of, rfind_char, str_eq, trim, trimmed};

verus! {

/// What the process table shows of one entry of `/proc`: the directory's
/// name, the contents of its `comm` file and of its `cmdline` file (each
/// `None` when it could not be read).
pub struct ProcessRecord {
    pub dir_name: String,
    pub comm: Option<String>,
    pub cmdline: Option<Vec<u8>>,
}

/// Whether a directory name is a process id: made of ASCII digits only.
pub open spec fn is_pid_name(name: Seq<char>) -> bool {
    forall|i: int| 0 <= i < name.len() ==> '0' <= #[trigger] name[i] <= '9'
}

/// The part of a path after its last `/` (the whole text when there is none).
pub open spec fn basename(s: Seq<char>) -> Seq<char> {
    match last_index_of(s, '/') {
        Some(p) => s.skip(p + 1),
        None => s,
    }
}

/// The bytes of a command line up to its first NUL: the program's own name.
pub open spec fn first_argument(cmdline: Seq<u8>) -> Seq<u8> {
    if exists|i: int| 0 <= i < cmdline.len() && cmdline[i] == 0 {
        cmdline.take(
            choose|i: int| 0 <= i < cmdline.len() && cmdline[i] == 0 && forall|j: int| 0 <= j < i ==> cmdline[j] != 0,
        )
    } else {
        cmdline
    }
}

/// Whether a command line names the program `name`: its first argument is
/// valid UTF-8 and its base name is `name`.
pub open spec fn cmdline_names(cmdline: Seq<u8>, name: Seq<char>) -> bool {
    valid_utf8(first_argument(cmdline)) && basename(decode_utf8(first_argument(cmdline))) == name
}

/// Length in bytes of the UTF-8 encoding of a text, as `str::len` reports it.
pub open spec fn byte_len(s: Seq<char>) -> usize {
    encode_utf8(s).len() as usize
}

/// Whether one table entry is a running instance of `name`: its `comm` (which
/// the kernel cuts at 15 bytes) trimmed equals `name`, or, for a name longer
/// than 15 bytes whose cut `comm` is exactly 15 bytes, its command line names it.
pub open spec fn record_runs(rec: ProcessRecord, name: Seq<char>) -> bool {
    is_pid_name(rec.dir_name@) && match rec.comm {
        Some(c) => trimmed(c@) == name || (byte_len(name) > 15 && byte_len(trimmed(c@)) == 15
            && match rec.cmdline {
            Some(b) => cmdline_names(b@, name),
            None => false,
        }),
        None => false,
    }
}

/// Whether some entry of the table is a running instance of `name`.
pub open spec fn runs_in(table: Seq<ProcessRecord>, name: Seq<char>) -> bool {
    exists|k: int| 0 <= k < table.len() && record_runs(#[trigger] table[k], name)
}

/// Whether a directory name is a process id.
pub fn is_pid_dir_name(name: &str) -> (r: bool)
    ensures
        r == is_pid_name(name@),
{
    let n = name.unicode_len();
    let mut i: usize = 0;
    while i < n
        invariant
            n == name@.len(),
            i <= n,
            forall|k: int| 0 <= k < i ==> '0' <= #[trigger] name@[k] <= '9',
        decreases n - i,
    {
        let c = name.get_char(i);
        if !('0' <= c && c <= '9') {
            return false;
        }
        i = i + 1;
    }
    true
}

/// Calls `std::str::from_utf8`, which accepts exactly the valid UTF-8 byte
/// strings and then gives the text they encode.
#[verifier::external_body]
fn utf8_text(bytes: &[u8]) -> (r: Option<&str>)
    ensures
        r is Some <==> valid_utf8(bytes@),
        r matches Some(s) ==> s@ == decode_utf8(bytes@),
{
    std::str::from_utf8(bytes).ok()
}

/// The bytes of `cmdline` before its first NUL.
fn first_argument_bytes(cmdline: &Vec<u8>) -> (r: Vec<u8>)
    ensures
        r@ == first_argument(cmdline@),
{
    let mut out: Vec<u8> = Vec::new();
    let mut i: usize = 0;
    while i < cmdline.len()
        invariant
            i <= cmdline.len(),
            out@ == cmdline@.take(i as int),
            forall|j: int| 0 <= j < i ==> cmdline@[j] != 0,
        decreases cmdline.len() - i,
    {
        if cmdline[i] == 0 {
            proof {
                let w = choose|k: int| 0 <= k < cmdline@.len() && cmdline@[k] == 0 && forall|j: int| 0 <= j < k ==> cmdline@[j] != 0;
                assert(0 <= i < cmdline@.len() && cmdline@[i as int] == 0);
                if w < i {
                } else if w > i {
                    assert(cmdline@[i as int] != 0);
                }
            }
            return out;
        }
        out.push(cmdline[i]);
        assert(out@ =~= cmdline@.take(i + 1));
        i = i + 1;
    }
    assert(cmdline@.take(i as int) =~= cmdline@);
    out
}

/// Check a command line for process name match: the base name of its first
/// argument (a program path) is compared with `name`.
pub fn cmdline_matches(cmdline: &Vec<u8>, name: &str) -> (r: bool)
    ensures
        r == cmdline_names(cmdline@, name@),
{
    let first = first_argument_bytes(cmdline);
    match utf8_text(first.as_slice()) {
        None => false,
        Some(text) => {
            let n = text.unicode_len();
            let base = match rfind_char(text, '/') {
                Some(p) => text.substring_char(p + 1, n),
                None => text.substring_char(0, n),
            };
            assert(base@ == basename(text@));
            str_eq(base, name)
        },
    }
}

/// Whether one table entry is a running instance of `name`.
pub fn record_matches(rec: &ProcessRecord, name: &str) -> (r: bool)
    ensures
        r == record_runs(*rec, name@),
{
    if !is_pid_dir_name(rec.dir_name.as_str()) {
        return false;
    }
    match &rec.comm {
        None => false,
        Some(comm) => {
            let process_name = trim(comm.as_str());
            if str_eq(process_name, name) {
                return true;
            }
            if name.len() > 15 && process_name.len() == 15 {
                match &rec.cmdline {
                    Some(b) => cmdline_matches(b, name),
                    None => false,
                }
            } else {
                false
            }
        },
    }
}

/// Check if a process is running by name (pidof replacement), in a snapshot
/// of the process table.
pub fn is_process_running(name: &str, table: &Vec<ProcessRecord>) -> (r: bool)
    ensures
        r == runs_in(table@, name@),
{
    let mut k: usize = 0;
    while k < table.len()
        invariant
            k <= table.len(),
            forall|j: int| 0 <= j < k ==> !record_runs(#[trigger] table@[j], name@),
        decreases table.len() - k,
    {
        if record_matches(&table[k], name) {
            return true;
        }
        k = k + 1;
    }
    false
}

/// Check watch list and return first running process
///
/// Returns the name of the first process in the list that is currently running
pub fn check_watch_list(list: &Vec<String>, table: &Vec<ProcessRecord>) -> (r: Option<String>)
    ensures
        r matches Some(found) ==> exists|i: int|
            0 <= i < list@.len() && found@ == list@[i]@ && runs_in(table@, list@[i]@)
                && forall|j: int| 0 <= j < i ==> !runs_in(table@, #[trigger] list@[j]@),
        r is None ==> forall|i: int| 0 <= i < list@.len() ==> !runs_in(table@, #[trigger] list@[i]@),
{
    let mut i: usize = 0;
    while i < list.len()
        invariant
            i <= list.len(),
            forall|j: int| 0 <= j < i ==> !runs_in(table@, #[trigger] list@[j]@),
        decreases list.len() - i,
    {
        if is_process_running(list[i].as_str(), table) {
            return Some(list[i].clone());
        }
        i = i + 1;
    }
    None
}

} // verus!

verus! {

/// A program with a short name (at most 15 bytes, which the kernel's `comm`
/// holds whole) runs in a table entry exactly when the entry is a process
/// and its `comm`, trimmed, is the name; a name that the `comm` merely
/// starts with, or that the command line names, does not count.
pub proof fn law_short_names_match_comm_exactly(rec: ProcessRecord, name: Seq<char>)
    requires
        byte_len(name) <= 15,
    ensures
        record_runs(rec, name) <==> (is_pid_name(rec.dir_name@) && (rec.comm matches Some(c) && trimmed(c@)
            == name)),
{
}

/// A short name does not run in a table where no entry's trimmed `comm`
/// is that name.
pub proof fn law_short_name_needs_equal_comm(table: Seq<ProcessRecord>, name: Seq<char>)
    requires
        byte_len(name) <= 15,
        forall|k: int|
            0 <= k < table.len() ==> !((#[trigger] table[k]).comm matches Some(c) && trimmed(c@) == name),
    ensures
        !runs_in(table, name),
{
    if runs_in(table, name) {
        let k = choose|k: int| 0 <= k < table.len() && record_runs(#[trigger] table[k], name);
        law_short_names_match_comm_exactly(table[k], name);
    }
}

} // verus!
