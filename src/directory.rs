use vstd::prelude::*;
use vstd::string::StringExecFns;

use crate::order::names;
use crate::runner::ScriptKind;

verus! {

/// One entry of the migrations root, as the file system listed it.
#[derive(Debug, Clone)]
pub struct DirEntry {
    pub name: String,
    pub is_dir: bool,
}

/// The names of the directories among `entries`, in listing order.
pub open spec fn dir_names(entries: Seq<DirEntry>) -> Seq<Seq<char>>
    decreases entries.len(),
{
    if entries.len() == 0 {
        Seq::empty()
    } else {
        let rest = dir_names(entries.drop_last());
        if entries.last().is_dir {
            rest.push(entries.last().name@)
        } else {
            rest
        }
    }
}

/// `base` followed by the relative path `rest`, with one separator between them.
pub open spec fn join_path(base: Seq<char>, rest: Seq<char>) -> Seq<char> {
    if base.len() == 0 {
        rest
    } else if base.last() == '/' {
        base + rest
    } else {
        base + "/"@ + rest
    }
}

/// The migrations root: one subdirectory per migration, named by its identifier,
/// holding `up.sql` and `down.sql`.
pub struct MigrationDir {
    path: String,
}

impl MigrationDir {
    pub closed spec fn root(&self) -> Seq<char> {
        self.path@
    }

    pub fn new(path: &str) -> (r: MigrationDir)
        ensures
            r.root() == path@,
    {
        MigrationDir { path: path.to_owned() }
    }

    pub fn path(&self) -> (r: &str)
        ensures
            r@ == self.root(),
    {
        self.path.as_str()
    }

    /// The migration identifiers under the root: the names of the entries that
    /// are directories, in the order listed. Other entries are ignored.
    pub fn get_migration_dir_names(&self, entries: &Vec<DirEntry>) -> (r: Vec<String>)
        ensures
            names(r@) == dir_names(entries@),
    {
        let mut r: Vec<String> = Vec::new();
        let mut k: usize = 0;
        proof {
            assert(entries@.take(0) =~= Seq::<DirEntry>::empty());
            assert(names(r@) =~= Seq::<Seq<char>>::empty());
        }
        while k < entries.len()
            invariant
                k <= entries@.len(),
                names(r@) == dir_names(entries@.take(k as int)),
            decreases entries@.len() - k,
        {
            proof {
                assert(entries@.take(k + 1).drop_last() =~= entries@.take(k as int));
                assert(entries@.take(k + 1).last() == entries@[k as int]);
            }
            if entries[k].is_dir {
                let ghost before = names(r@);
                r.push(entries[k].name.clone());
                proof {
                    assert(names(r@) =~= before.push(entries@[k as int].name@));
                }
            }
            k = k + 1;
        }
        proof {
            assert(entries@.take(entries@.len() as int) =~= entries@);
        }
        r
    }

    /// The directory of a migration: `<root>/<migration>`.
    pub fn migration_path(&self, migration: &str) -> (r: String)
        ensures
            r@ == join_path(self.root(), migration@),
    {
        join(self.path.as_str(), migration)
    }

    /// Where a migration's script lies: `<root>/<migration>/<file>`.
    pub fn script_path(&self, migration: &str, kind: ScriptKind) -> (r: String)
        ensures
            r@ == join_path(join_path(self.root(), migration@), kind.file_name_spec()),
    {
        let dir = join(self.path.as_str(), migration);
        join(dir.as_str(), kind.file_name())
    }
}

fn join(base: &str, rest: &str) -> (r: String)
    ensures
        r@ == join_path(base@, rest@),
{
    let chars = crate::order::chars_of(base);
    if chars.len() == 0 {
        rest.to_owned()
    } else if chars[chars.len() - 1] == '/' {
        base.to_owned().concat(rest)
    } else {
        base.to_owned().concat("/").concat(rest)
    }
}

} // verus!
