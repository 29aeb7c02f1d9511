//! The decisions of the directory scanner: which directories are skipped,
//! which files are read, how commands change a running scan, and when
//! progress is reported. The walk itself, the threads and the channels are
//! the caller's.

use vstd::prelude::*;
use crate::broker::loader::{extension_of, file_extension};
use crate::discovery::filesystem::last_component;
use crate::discovery::types::{ScanCommand, MAX_FILE_SIZE};
use crate::text::{lowercase, str_eq, to_chars, to_lowercase};

verus! {

/// The directory names that are never entered.
pub open spec fn excluded_dirs() -> Seq<Seq<char>> {
    seq![
        "AppData"@, ".cache"@, "node_modules"@, ".git"@, "target"@, "build"@, "Windows"@,
        "Program Files"@, "ProgramData"@, "$Recycle.Bin"@, ".npm"@, ".cargo"@, ".rustup"@,
        "Temp"@, "tmp"@, "venv"@, ".venv"@, ".vscode"@, ".idea"@, "Steam"@, "Games"@,
        "Videos"@, ".docker"@,
    ]
}

/// The extensions of the files that are read, in lowercase.
pub open spec fn scannable_extensions() -> Seq<Seq<char>> {
    seq![
        "txt"@, "csv"@, "json"@, "md"@, "log"@, "xml"@, "yaml"@, "yml"@, "ini"@, "cfg"@,
        "conf"@, "properties"@, "toml"@, "html"@, "htm"@, "js"@, "ts"@, "jsx"@, "tsx"@, "py"@,
        "rb"@, "php"@, "java"@, "c"@, "cpp"@, "h"@, "rs"@, "go"@, "swift"@, "sql"@, "sh"@,
        "bash"@, "ps1"@,
    ]
}

/// A character's code with ASCII uppercase letters mapped to lowercase.
pub open spec fn ascii_lower_code(c: char) -> u32 {
    if 65 <= (c as u32) <= 90 {
        (c as u32 + 32) as u32
    } else {
        c as u32
    }
}

/// Equality up to ASCII case (std's `str::eq_ignore_ascii_case`).
pub open spec fn eq_ignore_ascii_case_spec(a: Seq<char>, b: Seq<char>) -> bool {
    a.len() == b.len() && forall|i: int| 0 <= i < a.len() ==> ascii_lower_code(#[trigger] a[i])
        == ascii_lower_code(b[i])
}

/// Whether a directory of this name is skipped: it equals an excluded name
/// up to ASCII case.
pub open spec fn is_excluded_dir_spec(name: Seq<char>) -> bool {
    exists|i: int| 0 <= i < excluded_dirs().len() && eq_ignore_ascii_case_spec(
        #[trigger] excluded_dirs()[i],
        name,
    )
}

/// Whether a path names a file of a scannable kind: the extension of its
/// last component, lowercased, is one of the scannable extensions.
pub open spec fn has_scannable_extension_spec(path: Seq<char>) -> bool {
    match file_extension(last_component(path)) {
        Some(e) => scannable_extensions().contains(lowercase(e)),
        None => false,
    }
}

/// A character's code with ASCII uppercase letters mapped to lowercase.
fn ascii_lower(c: char) -> (r: u32)
    ensures
        r == ascii_lower_code(c),
{
    let v = c as u32;
    if 65 <= v && v <= 90 {
        v + 32
    } else {
        v
    }
}

/// Whether two strings are equal up to ASCII case.
pub fn eq_ignore_ascii_case(a: &str, b: &str) -> (r: bool)
    ensures
        r == eq_ignore_ascii_case_spec(a@, b@),
{
    let va = to_chars(a);
    let vb = to_chars(b);
    if va.len() != vb.len() {
        return false;
    }
    let mut i: usize = 0;
    while i < va.len()
        invariant
            va@ == a@,
            vb@ == b@,
            va.len() == vb.len(),
            i <= va.len(),
            forall|j: int| 0 <= j < i ==> ascii_lower_code(#[trigger] a@[j]) == ascii_lower_code(
                b@[j],
            ),
        decreases va.len() - i,
    {
        if ascii_lower(va[i]) != ascii_lower(vb[i]) {
            return false;
        }
        i += 1;
    }
    true
}

/// The excluded directory names, in order.
fn excluded_dir_names() -> (r: Vec<&'static str>)
    ensures
        r@.len() == excluded_dirs().len(),
        forall|i: int| 0 <= i < r@.len() ==> (#[trigger] r@[i])@ == excluded_dirs()[i],
{
    let r = vec![
        "AppData", ".cache", "node_modules", ".git", "target", "build", "Windows",
        "Program Files", "ProgramData", "$Recycle.Bin", ".npm", ".cargo", ".rustup", "Temp",
        "tmp", "venv", ".venv", ".vscode", ".idea", "Steam", "Games", "Videos", ".docker",
    ];
    r
}

/// The scannable extensions, in order.
fn scannable_extension_names() -> (r: Vec<&'static str>)
    ensures
        r@.len() == scannable_extensions().len(),
        forall|i: int| 0 <= i < r@.len() ==> (#[trigger] r@[i])@ == scannable_extensions()[i],
{
    let r = vec![
        "txt", "csv", "json", "md", "log", "xml", "yaml", "yml", "ini", "cfg", "conf",
        "properties", "toml", "html", "htm", "js", "ts", "jsx", "tsx", "py", "rb", "php",
        "java", "c", "cpp", "h", "rs", "go", "swift", "sql", "sh", "bash", "ps1",
    ];
    r
}

/// Whether a directory of this name is skipped by the walk.
pub fn is_excluded_dir(name: &str) -> (r: bool)
    ensures
        r == is_excluded_dir_spec(name@),
{
    let dirs = excluded_dir_names();
    let mut i: usize = 0;
    while i < dirs.len()
        invariant
            dirs@.len() == excluded_dirs().len(),
            forall|j: int| 0 <= j < dirs@.len() ==> (#[trigger] dirs@[j])@ == excluded_dirs()[j],
            i <= dirs.len(),
            forall|j: int| 0 <= j < i ==> !eq_ignore_ascii_case_spec(
                #[trigger] excluded_dirs()[j],
                name@,
            ),
        decreases dirs.len() - i,
    {
        if eq_ignore_ascii_case(dirs[i], name) {
            assert(eq_ignore_ascii_case_spec(excluded_dirs()[i as int], name@));
            return true;
        }
        i += 1;
    }
    false
}

/// Whether the walk skips an entry, by its file name (`None` when the path
/// has no name that is valid UTF-8, which is never skipped).
pub fn should_skip(name: Option<&str>) -> (r: bool)
    ensures
        r == (name matches Some(n) && is_excluded_dir_spec(n@)),
{
    match name {
        Some(n) => is_excluded_dir(n),
        None => false,
    }
}

/// Whether a lowercase extension is one of the scannable extensions.
fn is_scannable_extension(e: &str) -> (r: bool)
    ensures
        r == scannable_extensions().contains(e@),
{
    let exts = scannable_extension_names();
    let mut i: usize = 0;
    while i < exts.len()
        invariant
            exts@.len() == scannable_extensions().len(),
            forall|j: int| 0 <= j < exts@.len() ==> (#[trigger] exts@[j])@
                == scannable_extensions()[j],
            i <= exts.len(),
            forall|j: int| 0 <= j < i ==> scannable_extensions()[j] != e@,
        decreases exts.len() - i,
    {
        if str_eq(exts[i], e) {
            assert(scannable_extensions()[i as int] == e@);
            return true;
        }
        i += 1;
    }
    false
}

/// Whether a path has a scannable extension.
pub fn has_scannable_extension(path: &str) -> (r: bool)
    ensures
        r == has_scannable_extension_spec(path@),
{
    let name = crate::discovery::filesystem::last_component_of(path);
    match extension_of(name.as_str()) {
        Some(ext) => {
            let l = to_lowercase(ext.as_str());
            is_scannable_extension(l.as_str())
        },
        None => false,
    }
}

/// Whether a file is read: its extension is scannable and its size, when
/// it could be read (`None` otherwise), is at most the size limit.
pub fn accepts_file(path: &str, size: Option<u64>) -> (r: bool)
    ensures
        r == (has_scannable_extension_spec(path@) && (size matches Some(s) && s
            <= MAX_FILE_SIZE)),
{
    if !has_scannable_extension(path) {
        return false;
    }
    match size {
        Some(s) => s <= MAX_FILE_SIZE,
        None => false,
    }
}

/// Whether a path is one of the paths the user asked to ignore.
pub fn is_ignored(ignored_paths: &Vec<String>, path: &str) -> (r: bool)
    ensures
        r == exists|i: int| 0 <= i < ignored_paths@.len() && (#[trigger] ignored_paths@[i])@
            == path@,
{
    let mut i: usize = 0;
    while i < ignored_paths.len()
        invariant
            i <= ignored_paths.len(),
            forall|j: int| 0 <= j < i ==> (#[trigger] ignored_paths@[j])@ != path@,
        decreases ignored_paths.len() - i,
    {
        if str_eq(ignored_paths[i].as_str(), path) {
            return true;
        }
        i += 1;
    }
    false
}

/// Whether a running scan was asked to stop, and whether it is paused.
#[derive(Debug, Clone, Copy, PartialEq, Eq, Structural)]
pub struct ScanFlags {
    /// A stop was asked for
    pub stopped: bool,
    /// The scan is paused
    pub paused: bool,
}

/// The flags after one command: `Stop` sets the stop flag, `Pause` the
/// pause flag, `Continue` clears the pause flag.
pub open spec fn after_command(f: ScanFlags, cmd: ScanCommand) -> ScanFlags {
    match cmd {
        ScanCommand::Stop => ScanFlags { stopped: true, paused: f.paused },
        ScanCommand::Pause => ScanFlags { stopped: f.stopped, paused: true },
        ScanCommand::Continue => ScanFlags { stopped: f.stopped, paused: false },
    }
}

/// The flags after the commands, taken in order.
pub open spec fn after_commands(f: ScanFlags, cmds: Seq<ScanCommand>) -> ScanFlags
    decreases cmds.len(),
{
    if cmds.len() == 0 {
        f
    } else {
        after_command(after_commands(f, cmds.drop_last()), cmds.last())
    }
}

impl ScanFlags {
    /// A scan that is neither stopped nor paused.
    pub fn new() -> (r: Self)
        ensures
            !r.stopped && !r.paused,
    {
        ScanFlags { stopped: false, paused: false }
    }

    /// Applies one command.
    pub fn apply(self, cmd: ScanCommand) -> (r: Self)
        ensures
            r == after_command(self, cmd),
    {
        match cmd {
            ScanCommand::Stop => ScanFlags { stopped: true, paused: self.paused },
            ScanCommand::Pause => ScanFlags { stopped: self.stopped, paused: true },
            ScanCommand::Continue => ScanFlags { stopped: self.stopped, paused: false },
        }
    }

    /// Applies the commands that have arrived, in order.
    pub fn apply_all(self, cmds: &Vec<ScanCommand>) -> (r: Self)
        ensures
            r == after_commands(self, cmds@),
    {
        let mut f = self;
        let mut i: usize = 0;
        while i < cmds.len()
            invariant
                i <= cmds.len(),
                f == after_commands(self, cmds@.take(i as int)),
            decreases cmds.len() - i,
        {
            assert(cmds@.take(i as int + 1).drop_last() =~= cmds@.take(i as int));
            f = f.apply(cmds[i]);
            i += 1;
        }
        assert(cmds@.take(cmds.len() as int) =~= cmds@);
        f
    }

    /// Whether the scan waits before its next file: it is paused and not
    /// stopped.
    pub fn must_wait(&self) -> (r: bool)
        ensures
            r == (self.paused && !self.stopped),
    {
        self.paused && !self.stopped
    }
}

/// Whether progress is reported after this many files: every hundredth.
pub fn progress_due(files_scanned: usize) -> (r: bool)
    ensures
        r == (files_scanned % 100 == 0),
{
    files_scanned % 100 == 0
}

/// Once a stop is asked for, no later command undoes it.
pub proof fn law_stop_is_final(f: ScanFlags, cmds: Seq<ScanCommand>)
    requires
        f.stopped,
    ensures
        after_commands(f, cmds).stopped,
    decreases cmds.len(),
{
    if cmds.len() > 0 {
        law_stop_is_final(f, cmds.drop_last());
    }
}

/// A batch of commands that holds a stop leaves the scan stopped.
pub proof fn law_stop_in_batch_stops(f: ScanFlags, cmds: Seq<ScanCommand>, k: int)
    requires
        0 <= k < cmds.len(),
        cmds[k] == ScanCommand::Stop,
    ensures
        after_commands(f, cmds).stopped,
    decreases cmds.len(),
{
    if k < cmds.len() - 1 {
        law_stop_in_batch_stops(f, cmds.drop_last(), k);
    }
}

/// The pause flag is set by the last `Pause` or `Continue` of a batch: a
/// batch whose last such command is `Continue` leaves the scan running.
pub proof fn law_continue_resumes(f: ScanFlags, cmds: Seq<ScanCommand>)
    requires
        cmds.len() > 0,
        cmds.last() == ScanCommand::Continue,
    ensures
        !after_commands(f, cmds).paused,
        after_commands(f, cmds).stopped == after_commands(f, cmds.drop_last()).stopped,
{
}

} // verus!
