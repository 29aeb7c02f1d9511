//! The broker loader's decisions: which directory it accepts and which files
//! hold definitions. Reading directories and files is left to the caller.

use vstd::prelude::*;
use crate::shared::types::BrokerId;
use crate::broker::error::BrokerError;
use crate::text::{concat_strs, str_eq, to_chars};
use crate::probe::{path_exists, path_is_dir};

verus! {

/// Loader for broker definitions from TOML files under a directory.
#[derive(Debug)]
pub struct BrokerLoader {
    definitions_dir: String,
}

/// What the loader constructor yields for `dir` once it knows whether the
/// path exists and whether it is a directory.
pub open spec fn loader_outcome(dir: Seq<char>, exists: bool, is_dir: bool, r: Result<BrokerLoader, BrokerError>) -> bool {
    if exists && is_dir {
        r matches Ok(l) && l.dir() == dir
    } else {
        r matches Err(BrokerError::DirectoryNotFound { path }) && path@ == dir
    }
}

impl BrokerLoader {
    /// The definitions directory.
    pub closed spec fn dir(self) -> Seq<char> {
        self.definitions_dir@
    }

    /// Creates a loader for `definitions_dir`, which must be an existing
    /// directory.
    pub fn new(definitions_dir: &str) -> (r: Result<Self, BrokerError>)
        ensures
            r matches Ok(l) ==> l.dir() == definitions_dir@,
            r matches Err(e) ==> (e matches BrokerError::DirectoryNotFound { path } && path@
                == definitions_dir@),
    {
        let exists = path_exists(definitions_dir);
        let is_dir = if exists { path_is_dir(definitions_dir) } else { false };
        Self::from_probe(definitions_dir, exists, is_dir)
    }

    /// Creates a loader for `definitions_dir` given whether it exists and
    /// whether it is a directory.
    pub fn from_probe(definitions_dir: &str, exists: bool, is_dir: bool) -> (r: Result<Self, BrokerError>)
        ensures
            loader_outcome(definitions_dir@, exists, is_dir, r),
    {
        if !exists {
            return Err(BrokerError::DirectoryNotFound { path: definitions_dir.to_string() });
        }
        if !is_dir {
            return Err(BrokerError::DirectoryNotFound { path: definitions_dir.to_string() });
        }
        Ok(BrokerLoader { definitions_dir: definitions_dir.to_string() })
    }

    /// The definitions directory.
    pub fn definitions_dir(&self) -> (r: &str)
        ensures
            r@ == self.dir(),
    {
        self.definitions_dir.as_str()
    }
}

/// The extension of a file name as `Path::extension` reads it: what follows
/// the last `.`, unless that `.` opens the name or the name is `..`.
pub open spec fn file_extension(name: Seq<char>) -> Option<Seq<char>> {
    if name == ".."@ {
        None
    } else if exists|i: int| 0 < i < name.len() && name[i] == '.' {
        let i = choose|i: int|
            0 < i < name.len() && name[i] == '.' && forall|j: int| i < j < name.len() ==> name[j] != '.';
        Some(name.subrange(i + 1, name.len() as int))
    } else {
        None
    }
}

/// Whether a file with this name holds a broker definition: a `.toml` file
/// other than `README.toml`.
pub open spec fn is_definition_file_spec(name: Seq<char>) -> bool {
    file_extension(name) == Some("toml"@) && name != "README.toml"@
}

/// The extension of a file name (std's `Path::extension` on a file name).
pub fn extension_of(name: &str) -> (r: Option<String>)
    ensures
        match (r, file_extension(name@)) {
            (Some(a), Some(b)) => a@ == b,
            (None, None) => true,
            _ => false,
        },
{
    if str_eq(name, "..") {
        return None;
    }
    let c = to_chars(name);
    let n = c.len();
    let mut i: usize = n;
    while i > 0 && c[i - 1] != '.'
        invariant
            c@ == name@,
            n == c@.len(),
            i <= n,
            forall|j: int| i <= j < n ==> c@[j] != '.',
        decreases i,
    {
        i -= 1;
    }
    // Either no dot at all (i == 0), or the last dot is at i - 1.
    if i <= 1 {
        assert(!(exists|k: int| 0 < k < name@.len() && name@[k] == '.')) by {
            if exists|k: int| 0 < k < name@.len() && name@[k] == '.' {
                let k = choose|k: int| 0 < k < name@.len() && name@[k] == '.';
                assert(k >= i);
            }
        }
        return None;
    }
    let dot = i - 1;
    let ghost pick = choose|p: int|
        0 < p < name@.len() && name@[p] == '.' && forall|j: int| p < j < name@.len() ==> name@[j] != '.';
    proof {
        assert(0 < dot < name@.len() && name@[dot as int] == '.' && forall|j: int| dot < j < name@.len() ==> name@[j] != '.');
        assert(pick == dot) by {
            if pick < dot {
            } else if pick > dot {
            }
        }
    }
    let mut ext: Vec<char> = Vec::new();
    let mut k: usize = i;
    while k < n
        invariant
            c@ == name@,
            n == c@.len(),
            i <= k <= n,
            ext@ == c@.subrange(i as int, k as int),
        decreases n - k,
    {
        ext.push(c[k]);
        k += 1;
        assert(ext@ =~= c@.subrange(i as int, k as int));
    }
    Some(crate::text::string_from_chars(&ext))
}

/// Whether a file with this name holds a broker definition: a `.toml` file
/// other than `README.toml`.
pub fn is_definition_file(name: &str) -> (r: bool)
    ensures
        r == is_definition_file_spec(name@),
{
    if str_eq(name, "README.toml") {
        return false;
    }
    match extension_of(name) {
        Some(e) => str_eq(e.as_str(), "toml"),
        None => false,
    }
}

/// The file name that holds the definition of `broker_id`: `<id>.toml`.
pub fn definition_file_name(broker_id: &BrokerId) -> (r: String)
    ensures
        r@ == broker_id@ + ".toml"@,
{
    concat_strs(broker_id.as_str(), ".toml")
}

} // verus!
