//! Resolving a bare command name against a search path.
//!
//! The search path is handed in as plain data: one listing per directory, in
//! search order, each holding the directory's path and the entries the driver
//! could enumerate (or nothing, for a directory that is missing or could not
//! be read — such a directory is skipped, never fatal). The first directory
//! holding a regular file of the wanted name with any execute permission bit
//! set wins; order within one directory is immaterial, since every match in a
//! directory yields the same joined path.

use crate::tokenize::push_char;
use vstd::prelude::*;

verus! {

/// One run of the splitter over the remaining input `s`, with `cur` the
/// segment collected so far and `acc` the segments already finished.
pub open spec fn split_run(s: Seq<char>, cur: Seq<char>, acc: Seq<Seq<char>>) -> Seq<Seq<char>>
    decreases s.len(),
{
    if s.len() == 0 {
        acc.push(cur)
    } else if s[0] == ':' {
        split_run(s.skip(1), Seq::empty(), acc.push(cur))
    } else {
        split_run(s.skip(1), cur.push(s[0]), acc)
    }
}

/// The directories a colon-delimited search-path string names, in order;
/// an empty string names none.
pub open spec fn search_path_spec(s: Seq<char>) -> Seq<Seq<char>> {
    if s.len() == 0 {
        Seq::empty()
    } else {
        split_run(s, Seq::empty(), Seq::empty())
    }
}

/// Splits a colon-delimited search-path string into its directory paths, in
/// order; empty segments are kept, as a later existence check skips them.
pub fn split_search_path(paths: &str) -> (r: Vec<String>)
    ensures
        r.deep_view() == search_path_spec(paths@),
{
    let n = paths.unicode_len();
    let mut cur = String::new();
    let mut acc: Vec<String> = Vec::new();
    if n == 0 {
        proof {
            assert(acc.deep_view() =~= Seq::<Seq<char>>::empty());
        }
        return acc;
    }
    let mut i: usize = 0;
    proof {
        assert(paths@.skip(0) =~= paths@);
        assert(acc.deep_view() =~= Seq::<Seq<char>>::empty());
    }
    while i < n
        invariant
            n == paths@.len(),
            i <= n,
            split_run(paths@.skip(i as int), cur@, acc.deep_view()) == search_path_spec(paths@),
        decreases n - i,
    {
        let c = paths.get_char(i);
        proof {
            assert(paths@.skip(i as int)[0] == paths@[i as int]);
            assert(paths@.skip(i as int).skip(1) =~= paths@.skip(i as int + 1));
        }
        if c == ':' {
            let ghost acc0 = acc.deep_view();
            acc.push(cur);
            cur = String::new();
            proof {
                assert(acc.deep_view() =~= acc0.push(acc@[acc@.len() - 1]@));
            }
        } else {
            push_char(&mut cur, c);
        }
        i = i + 1;
    }
    proof {
        assert(paths@.skip(n as int) =~= Seq::<char>::empty());
    }
    let ghost acc0 = acc.deep_view();
    acc.push(cur);
    proof {
        assert(acc.deep_view() =~= acc0.push(acc@[acc@.len() - 1]@));
    }
    acc
}

/// One entry of a directory: its file name, whether it is a regular file,
/// and its permission bits.
pub struct FileEntry {
    pub name: String,
    pub is_regular: bool,
    pub mode: u32,
}

/// One directory of the search path: its path and its entries; `None` when
/// the directory does not exist or could not be read.
pub struct DirListing {
    pub path: String,
    pub entries: Option<Vec<FileEntry>>,
}

/// An entry that resolves `name`: a regular file of that name with at least
/// one execute permission bit (owner, group or other) set.
pub open spec fn entry_matches(e: FileEntry, name: Seq<char>) -> bool {
    e.is_regular && e.name@ == name && (e.mode & 0o111) != 0
}

/// Whether a readable directory holds an entry that resolves `name`.
pub open spec fn listing_has_match(d: DirListing, name: Seq<char>) -> bool {
    match d.entries {
        Some(es) => exists|i: int| 0 <= i < es.len() && entry_matches(#[trigger] es[i], name),
        None => false,
    }
}

/// The directory path and the file name joined by a path separator.
pub open spec fn joined_path(dir: Seq<char>, name: Seq<char>) -> Seq<char> {
    if dir.len() > 0 && dir[dir.len() - 1] == '/' {
        dir + name
    } else {
        dir + seq!['/'] + name
    }
}

/// The absolute path `name` resolves to: the join of the first directory, in
/// search order, holding a matching entry; `None` when no directory does.
pub open spec fn resolve_spec(dirs: Seq<DirListing>, name: Seq<char>) -> Option<Seq<char>>
    decreases dirs.len(),
{
    if dirs.len() == 0 {
        None
    } else if listing_has_match(dirs[0], name) {
        Some(joined_path(dirs[0].path@, name))
    } else {
        resolve_spec(dirs.skip(1), name)
    }
}

/// Whether a directory's readable entries all bear some other name.
pub open spec fn listing_lacks_name(d: DirListing, name: Seq<char>) -> bool {
    match d.entries {
        Some(es) => forall|j: int| 0 <= j < es.len() ==> (#[trigger] es[j]).name@ != name,
        None => true,
    }
}

/// Law: a name that no directory of the search path holds an entry for is
/// never resolved, whatever else the directories contain.
pub proof fn lemma_resolve_not_found(dirs: Seq<DirListing>, name: Seq<char>)
    requires
        forall|i: int| 0 <= i < dirs.len() ==> listing_lacks_name(#[trigger] dirs[i], name),
    ensures
        resolve_spec(dirs, name) is None,
    decreases dirs.len(),
{
    if dirs.len() > 0 {
        assert(!listing_has_match(dirs[0], name));
        assert(forall|i: int|
            0 <= i < dirs.skip(1).len() ==> listing_lacks_name(#[trigger] dirs.skip(1)[i], name));
        lemma_resolve_not_found(dirs.skip(1), name);
    }
}

fn join_path(dir: &String, name: &String) -> (r: String)
    ensures
        r@ == joined_path(dir@, name@),
{
    proof {
        reveal_strlit("/");
        assert("/"@ =~= seq!['/']);
    }
    let mut r = dir.clone();
    let n = dir.as_str().unicode_len();
    if n == 0 || dir.as_str().get_char(n - 1) != '/' {
        r.append("/");
    }
    r.append(name.as_str());
    r
}

#[verifier::loop_isolation(false)]
fn listing_find(d: &DirListing, name: &String) -> (r: bool)
    ensures
        r == listing_has_match(*d, name@),
{
    match &d.entries {
        None => false,
        Some(es) => {
            let mut j: usize = 0;
            while j < es.len()
                invariant
                    j <= es@.len(),
                    forall|k: int| 0 <= k < j ==> !entry_matches(#[trigger] es@[k], name@),
                decreases es@.len() - j,
            {
                let e = &es[j];
                if e.is_regular && (e.mode & 0o111) != 0 && e.name == *name {
                    proof {
                        assert(entry_matches(es@[j as int], name@));
                    }
                    return true;
                }
                j = j + 1;
            }
            false
        },
    }
}

/// Walks the search path in order and returns the absolute path of the first
/// directory's matching executable, or `None` when no directory holds one.
pub fn resolve(name: &String, dirs: &Vec<DirListing>) -> (r: Option<String>)
    ensures
        match r {
            Some(p) => resolve_spec(dirs@, name@) == Some(p@),
            None => resolve_spec(dirs@, name@) is None,
        },
{
    let mut i: usize = 0;
    proof {
        assert(dirs@.skip(0) =~= dirs@);
    }
    while i < dirs.len()
        invariant
            i <= dirs@.len(),
            resolve_spec(dirs@.skip(i as int), name@) == resolve_spec(dirs@, name@),
        decreases dirs@.len() - i,
    {
        proof {
            assert(dirs@.skip(i as int)[0] == dirs@[i as int]);
            assert(dirs@.skip(i as int).skip(1) =~= dirs@.skip(i as int + 1));
        }
        if listing_find(&dirs[i], name) {
            return Some(join_path(&dirs[i].path, name));
        }
        i = i + 1;
    }
    proof {
        assert(dirs@.skip(dirs@.len() as int) =~= Seq::<DirListing>::empty());
    }
    None
}

} // verus!
