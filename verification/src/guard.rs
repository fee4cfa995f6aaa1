//! The foreground guard's rules: which applications may hold the foreground
//! while a lock is active, and what is done with one that may not.

use crate::text::{chars_of, has_part, has_suffix, lowercase, lowercased, occurs_in, same_chars};
use vstd::prelude::*;

verus! {

/// How long the guard waits between two looks at the foreground, in
/// milliseconds.
pub const GUARD_POLL_MS: u64 = 300;

/// Whether the whitelist entry `entry` admits the executable `exe`, both in
/// lower case: the path ends with the entry, or holds it right after a path
/// separator, or is the entry.
pub open spec fn admits(entry: Seq<char>, exe: Seq<char>) -> bool {
    ||| entry.is_suffix_of(exe)
    ||| occurs_in(seq!['\\'] + entry, exe)
    ||| exe == entry
}

/// Whether the whitelist admits the executable `exe`. An empty whitelist
/// admits none.
pub open spec fn app_permitted(exe: Seq<char>, whitelist: Seq<Seq<char>>) -> bool {
    exists|i: int|
        0 <= i < whitelist.len() && admits(lowercased(#[trigger] whitelist[i]), lowercased(exe))
}

/// Whether the entry admits the executable, both given in lower case.
pub fn entry_admits(entry: &[char], exe: &[char]) -> (r: bool)
    ensures
        r == admits(entry@, exe@),
{
    if has_suffix(exe, entry) || same_chars(exe, entry) {
        return true;
    }
    let mut part: Vec<char> = Vec::new();
    part.push('\\');
    let mut i: usize = 0;
    while i < entry.len()
        invariant
            i <= entry.len(),
            part@ == seq!['\\'] + entry@.take(i as int),
        decreases entry.len() - i,
    {
        part.push(entry[i]);
        assert(entry@.take(i + 1) =~= entry@.take(i as int).push(entry@[i as int]));
        i += 1;
    }
    assert(entry@.take(i as int) =~= entry@);
    has_part(exe, part.as_slice())
}

/// Whether the application whose executable is `exe_path` may hold the
/// foreground under the whitelist `whitelist`.
pub fn app_allowed(exe_path: &str, whitelist: &[String]) -> (r: bool)
    ensures
        r == app_permitted(exe_path@, whitelist.deep_view()),
{
    let exe_lower: String = lowercase(exe_path);
    let exe: Vec<char> = chars_of(exe_lower.as_str());
    let ghost list = whitelist.deep_view();
    let mut i: usize = 0;
    while i < whitelist.len()
        invariant
            i <= whitelist.len(),
            list == whitelist.deep_view(),
            exe@ == lowercased(exe_path@),
            forall|j: int| 0 <= j < i ==> !admits(lowercased(#[trigger] list[j]), exe@),
        decreases whitelist.len() - i,
    {
        let entry_lower: String = lowercase(whitelist[i].as_str());
        let entry: Vec<char> = chars_of(entry_lower.as_str());
        assert(entry@ == lowercased(list[i as int]));
        if entry_admits(entry.as_slice(), exe.as_slice()) {
            return true;
        }
        i += 1;
    }
    false
}

/// What the guard does after one look at the lock and the foreground.
#[derive(Clone, Copy, Debug, PartialEq, Eq, Structural)]
pub enum GuardAction {
    /// End the guard: the lock is no longer active.
    Stop,
    /// Leave the foreground as it is.
    Skip,
    /// Minimize the foreground window and give the focus back to the host
    /// application.
    Minimize,
}

/// Whether the guard looks into the foreground process at all: the lock is
/// active, the host window exists, and the foreground belongs to a process
/// that is known and is not the host application. `foreground_pid` is 0
/// where there is no foreground window or its process is unknown.
pub open spec fn inspects(
    lock_active: bool,
    host_window: bool,
    foreground_pid: u32,
    own_pid: u32,
) -> bool {
    lock_active && host_window && foreground_pid != 0 && foreground_pid != own_pid
}

/// Whether the guard looks into the foreground process.
pub fn should_inspect(lock_active: bool, host_window: bool, foreground_pid: u32, own_pid: u32) -> (r:
    bool)
    ensures
        r == inspects(lock_active, host_window, foreground_pid, own_pid),
{
    lock_active && host_window && foreground_pid != 0 && foreground_pid != own_pid
}

/// What one look has found.
pub struct Foreground {
    /// Whether the lock is active.
    pub lock_active: bool,
    /// Whether the host application's window exists.
    pub host_window: bool,
    /// The process that owns the foreground window; 0 where unknown.
    pub pid: u32,
    /// The executable of that process, where it could be resolved.
    pub exe_path: Option<String>,
}

/// What one look has found, with the executable's path as characters.
pub struct ForegroundView {
    pub lock_active: bool,
    pub host_window: bool,
    pub pid: u32,
    pub exe_path: Option<Seq<char>>,
}

impl View for Foreground {
    type V = ForegroundView;

    open spec fn view(&self) -> ForegroundView {
        ForegroundView {
            lock_active: self.lock_active,
            host_window: self.host_window,
            pid: self.pid,
            exe_path: match self.exe_path {
                Some(path) => Some(path@),
                None => None,
            },
        }
    }
}

/// Whether the guard forces the foreground application out: it looks into
/// the process, knows its executable, and the whitelist does not admit it.
pub open spec fn forces_out(seen: ForegroundView, own_pid: u32, whitelist: Seq<Seq<char>>) -> bool {
    &&& inspects(seen.lock_active, seen.host_window, seen.pid, own_pid)
    &&& seen.exe_path matches Some(path)
    &&& !app_permitted(path, whitelist)
}

/// What the guard does about what it has seen.
pub open spec fn guard_action(
    seen: ForegroundView,
    own_pid: u32,
    whitelist: Seq<Seq<char>>,
) -> GuardAction {
    if !seen.lock_active {
        GuardAction::Stop
    } else if forces_out(seen, own_pid, whitelist) {
        GuardAction::Minimize
    } else {
        GuardAction::Skip
    }
}

/// Decides what to do after one look at the lock and the foreground.
pub fn guard_decision(seen: &Foreground, own_pid: u32, whitelist: &[String]) -> (r: GuardAction)
    ensures
        r == guard_action(seen@, own_pid, whitelist.deep_view()),
{
    if !seen.lock_active {
        return GuardAction::Stop;
    }
    if !should_inspect(seen.lock_active, seen.host_window, seen.pid, own_pid) {
        return GuardAction::Skip;
    }
    match &seen.exe_path {
        None => GuardAction::Skip,
        Some(path) => if app_allowed(path.as_str(), whitelist) {
            GuardAction::Skip
        } else {
            GuardAction::Minimize
        },
    }
}

/// The text that UTF-16 code units denote, as `String::from_utf16_lossy` reads
/// them.
pub uninterp spec fn utf16_text(units: Seq<u16>) -> Seq<char>;

/// Calls `String::from_utf16_lossy`, which decodes UTF-16 code units and puts
/// the replacement character in place of what is no valid UTF-16. The text is
/// a function of the code units alone; the contract gives it a name.
#[verifier::external_body]
fn decode_utf16(units: &[u16]) -> (r: String)
    ensures
        r@ == utf16_text(units@),
{
    String::from_utf16_lossy(units)
}

/// The first index at or after `from` that holds 0, or the length of
/// `buffer` where there is none.
pub open spec fn name_end(buffer: Seq<u16>, from: int) -> int
    decreases buffer.len() - from,
{
    if from >= buffer.len() {
        buffer.len() as int
    } else if buffer[from] == 0 {
        from
    } else {
        name_end(buffer, from + 1)
    }
}

/// The code units of the name that a zero-terminated buffer holds.
pub open spec fn name_units(buffer: Seq<u16>) -> Seq<u16> {
    buffer.take(name_end(buffer, 0))
}

/// The name that a zero-terminated buffer of UTF-16 code units holds.
pub fn buffer_name(buffer: &[u16]) -> (r: String)
    ensures
        r@ == utf16_text(name_units(buffer@)),
{
    let mut end: usize = 0;
    while end < buffer.len() && buffer[end] != 0
        invariant
            end <= buffer.len(),
            name_end(buffer@, 0) == name_end(buffer@, end as int),
        decreases buffer.len() - end,
    {
        end += 1;
    }
    decode_utf16(vstd::slice::slice_subrange(buffer, 0, end))
}

/// One process of a snapshot of the system's processes.
pub struct ProcessEntry {
    pub pid: u32,
    /// The name of the executable, zero-terminated.
    pub exe_file: Vec<u16>,
}

/// The index of the first process at or after `from` whose id is `pid`, or
/// the length of `entries` where there is none.
pub open spec fn process_index(entries: Seq<ProcessEntry>, pid: u32, from: int) -> int
    decreases entries.len() - from,
{
    if from >= entries.len() {
        entries.len() as int
    } else if entries[from].pid == pid {
        from
    } else {
        process_index(entries, pid, from + 1)
    }
}

/// The executable of the first process of the snapshot whose id is `pid`;
/// `None` where the snapshot holds no such process.
pub fn process_name(entries: &[ProcessEntry], pid: u32) -> (r: Option<String>)
    ensures
        match r {
            Some(name) => process_index(entries@, pid, 0) < entries@.len() && name@ == utf16_text(
                name_units(entries@[process_index(entries@, pid, 0)].exe_file@),
            ),
            None => process_index(entries@, pid, 0) == entries@.len(),
        },
{
    let mut i: usize = 0;
    while i < entries.len()
        invariant
            i <= entries.len(),
            process_index(entries@, pid, 0) == process_index(entries@, pid, i as int),
        decreases entries.len() - i,
    {
        if entries[i].pid == pid {
            return Some(buffer_name(entries[i].exe_file.as_slice()));
        }
        i += 1;
    }
    None
}

/// The empty whitelist admits no application.
pub proof fn lemma_empty_whitelist_admits_none(exe: Seq<char>)
    ensures
        !app_permitted(exe, Seq::<Seq<char>>::empty()),
{
}

/// Under the empty whitelist every foreground application that the guard
/// looks into and can name is forced out; the host application never is.
pub proof fn lemma_empty_whitelist_forces_out(seen: ForegroundView, own_pid: u32)
    requires
        seen.lock_active,
        seen.host_window,
        seen.exe_path is Some,
    ensures
        forces_out(seen, own_pid, Seq::<Seq<char>>::empty()) <==> seen.pid != 0 && seen.pid
            != own_pid,
        seen.pid == own_pid ==> guard_action(seen, own_pid, Seq::<Seq<char>>::empty())
            == GuardAction::Skip,
{
}

/// An application that cannot be named, a process that is unknown, and a
/// look without the host window force nothing out.
pub proof fn lemma_unresolved_is_left_alone(
    seen: ForegroundView,
    own_pid: u32,
    whitelist: Seq<Seq<char>>,
)
    requires
        seen.exe_path is None || seen.pid == 0 || !seen.host_window,
    ensures
        !forces_out(seen, own_pid, whitelist),
{
}

/// Once the lock is not active the guard forces nothing out, and ends.
pub proof fn lemma_no_lock_no_guard(seen: ForegroundView, own_pid: u32, whitelist: Seq<Seq<char>>)
    requires
        !seen.lock_active,
    ensures
        !forces_out(seen, own_pid, whitelist),
        guard_action(seen, own_pid, whitelist) == GuardAction::Stop,
{
}

/// An entry admits every path that ends with a separator and the entry, as
/// well as the entry itself.
pub proof fn lemma_admits_file_name(entry: Seq<char>, directory: Seq<char>)
    ensures
        admits(entry, entry),
        admits(entry, directory + seq!['\\'] + entry),
{
    let exe = directory + seq!['\\'] + entry;
    assert(exe.subrange(exe.len() - entry.len(), exe.len() as int) =~= entry);
    assert(entry.subrange(0, entry.len() as int) =~= entry);
}

} // verus!
