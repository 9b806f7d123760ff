//! Discovery of `.crs` source files in a directory tree.
//!
//! The filesystem itself stays outside this crate: callers read a directory
//! tree into [`FsEntry`] values and hand them to the verified scanner, which
//! collects the paths of all regular files whose name ends in `.crs`. The
//! suffix test, the joining of path components, and the traversal are all
//! specified and proved here over that in-memory model.

use vstd::prelude::*;

verus! {

use vstd::string::StrSliceExecFns;
use vstd::string::StringExecFns;

/// A command-line argument recognised by the toolchain.
pub enum ArgType {
    DirPath(String),
}

/// Whether `s` ends with the source-file suffix `.crs`.
pub open spec fn ends_with_crs(s: Seq<char>) -> bool {
    &&& s.len() >= 4
    &&& s[s.len() - 4] == '.'
    &&& s[s.len() - 3] == 'c'
    &&& s[s.len() - 2] == 'r'
    &&& s[s.len() - 1] == 's'
}

/// Tests whether a file name carries the `.crs` suffix.
pub fn is_crs_name(name: &str) -> (r: bool)
    ensures
        r == ends_with_crs(name@),
{
    let n = name.unicode_len();
    if n < 4 {
        return false;
    }
    name.get_char(n - 4) == '.' && name.get_char(n - 3) == 'c' && name.get_char(n - 2) == 'r'
        && name.get_char(n - 1) == 's'
}

/// The path of an entry named `name` inside the directory at `prefix`.
pub open spec fn path_join(prefix: Seq<char>, name: Seq<char>) -> Seq<char> {
    prefix + seq!['/'] + name
}

/// Joins a directory path and an entry name with a `/` separator.
pub fn join_path(prefix: &str, name: &str) -> (r: String)
    ensures
        r@ == path_join(prefix@, name@),
{
    let mut r: String = prefix.to_owned();
    r.append("/");
    r.append(name);
    proof {
        reveal_strlit("/");
        assert(r@ =~= path_join(prefix@, name@));
    }
    r
}

/// One entry of a directory tree, read into memory: either a regular file
/// or a directory with its own entries. `name` is the entry's own name, not
/// its full path.
pub enum FsEntry {
    File { name: String },
    Dir { name: String, entries: Vec<FsEntry> },
}

/// The paths of all `.crs` files under the single entry `e`, whose parent
/// directory has path `prefix`, in depth-first order.
pub open spec fn crs_paths(prefix: Seq<char>, e: FsEntry) -> Seq<Seq<char>>
    decreases e,
{
    match e {
        FsEntry::File { name } => if ends_with_crs(name@) {
            seq![path_join(prefix, name@)]
        } else {
            Seq::empty()
        },
        FsEntry::Dir { name, entries } => crs_paths_in(path_join(prefix, name@), entries@),
    }
}

/// The paths of all `.crs` files under the entries `es` of the directory at
/// `prefix`, in depth-first order.
pub open spec fn crs_paths_in(prefix: Seq<char>, es: Seq<FsEntry>) -> Seq<Seq<char>>
    decreases es,
{
    if es.len() == 0 {
        Seq::empty()
    } else {
        crs_paths(prefix, es[0]) + crs_paths_in(prefix, es.drop_first())
    }
}

/// Collecting over `es.push(e)` collects over `es`, then over `e`.
proof fn lemma_crs_paths_in_push(prefix: Seq<char>, es: Seq<FsEntry>, e: FsEntry)
    ensures
        crs_paths_in(prefix, es.push(e)) == crs_paths_in(prefix, es) + crs_paths(prefix, e),
    decreases es,
{
    if es.len() == 0 {
        assert(es.push(e)[0] == e);
        assert(es.push(e).drop_first() =~= Seq::<FsEntry>::empty());
        assert(crs_paths_in(prefix, Seq::<FsEntry>::empty()) == Seq::<Seq<char>>::empty());
        assert(crs_paths_in(prefix, es.push(e)) =~= crs_paths_in(prefix, es) + crs_paths(
            prefix,
            e,
        ));
    } else {
        assert(es.push(e).drop_first() =~= es.drop_first().push(e));
        lemma_crs_paths_in_push(prefix, es.drop_first(), e);
        assert(crs_paths_in(prefix, es.push(e)) =~= crs_paths_in(prefix, es) + crs_paths(
            prefix,
            e,
        ));
    }
}

/// Scans the single entry `e`, whose parent directory has path `prefix`,
/// and returns the paths of all `.crs` files under it in depth-first order.
pub fn scan_entry(prefix: &str, e: &FsEntry) -> (r: Vec<String>)
    ensures
        r.deep_view() == crs_paths(prefix@, *e),
    decreases *e,
{
    match e {
        FsEntry::File { name } => {
            let mut r: Vec<String> = Vec::new();
            if is_crs_name(name.as_str()) {
                r.push(join_path(prefix, name.as_str()));
            }
            proof {
                assert(r.deep_view() =~= crs_paths(prefix@, *e));
            }
            r
        },
        FsEntry::Dir { name, entries } => {
            let sub_prefix = join_path(prefix, name.as_str());
            scan_dir(sub_prefix.as_str(), entries)
        },
    }
}

/// Scans the entries `es` of the directory at `prefix` and returns the paths
/// of all `.crs` files under them in depth-first order.
pub fn scan_dir(prefix: &str, es: &Vec<FsEntry>) -> (r: Vec<String>)
    ensures
        r.deep_view() == crs_paths_in(prefix@, es@),
    decreases es@,
{
    let mut r: Vec<String> = Vec::new();
    let mut i: usize = 0;
    proof {
        assert(r.deep_view() =~= crs_paths_in(prefix@, es@.take(0)));
    }
    while i < es.len()
        invariant
            i <= es.len(),
            r.deep_view() == crs_paths_in(prefix@, es@.take(i as int)),
        decreases es.len() - i,
    {
        let ghost r_old = r.deep_view();
        let mut sub = scan_entry(prefix, &es[i]);
        let ghost sub_view = sub.deep_view();
        r.append(&mut sub);
        proof {
            assert(r.deep_view() =~= r_old + sub_view);
            assert(es@.take(i + 1) =~= es@.take(i as int).push(es@[i as int]));
            lemma_crs_paths_in_push(prefix@, es@.take(i as int), es@[i as int]);
        }
        i += 1;
    }
    proof {
        assert(es@.take(es@.len() as int) =~= es@);
    }
    r
}

/// The paths of all regular files under the single entry `e`, whatever their
/// name, in depth-first order. Directory paths themselves are never listed.
pub open spec fn file_paths(prefix: Seq<char>, e: FsEntry) -> Seq<Seq<char>>
    decreases e,
{
    match e {
        FsEntry::File { name } => seq![path_join(prefix, name@)],
        FsEntry::Dir { name, entries } => file_paths_in(path_join(prefix, name@), entries@),
    }
}

/// The paths of all regular files under the entries `es` of the directory at
/// `prefix`, in depth-first order.
pub open spec fn file_paths_in(prefix: Seq<char>, es: Seq<FsEntry>) -> Seq<Seq<char>>
    decreases es,
{
    if es.len() == 0 {
        Seq::empty()
    } else {
        file_paths(prefix, es[0]) + file_paths_in(prefix, es.drop_first())
    }
}

/// Joining a name onto a directory path does not disturb the suffix test:
/// the joined path ends in `.crs` exactly when the name alone does. The
/// separator `/` never occurs in the suffix, so a short name cannot borrow
/// characters from the directory part.
pub proof fn lemma_crs_suffix_join(prefix: Seq<char>, name: Seq<char>)
    ensures
        ends_with_crs(path_join(prefix, name)) == ends_with_crs(name),
{
    let j = path_join(prefix, name);
    assert(j.len() == prefix.len() + 1 + name.len());
    if name.len() >= 4 {
        assert(j[j.len() - 4] == name[name.len() - 4]);
        assert(j[j.len() - 3] == name[name.len() - 3]);
        assert(j[j.len() - 2] == name[name.len() - 2]);
        assert(j[j.len() - 1] == name[name.len() - 1]);
    } else {
        assert(!ends_with_crs(name));
        if j.len() >= 4 {
            // The separator lands on one of the last four positions, and it
            // matches none of the characters of `.crs`.
            assert(j[prefix.len() as int] == '/');
            assert(j.len() - 4 <= prefix.len() < j.len());
            assert(!ends_with_crs(j));
        }
    }
}

/// The scan of a single entry returns exactly the file paths under it whose
/// name ends in `.crs`: every matching file appears, every non-matching file
/// is excluded, and no directory path is ever returned.
pub proof fn lemma_scan_is_filter(prefix: Seq<char>, e: FsEntry)
    ensures
        crs_paths(prefix, e) == file_paths(prefix, e).filter(|p: Seq<char>| ends_with_crs(p)),
    decreases e,
{
    reveal(Seq::filter);
    let pred = |p: Seq<char>| ends_with_crs(p);
    match e {
        FsEntry::File { name } => {
            let j = path_join(prefix, name@);
            lemma_crs_suffix_join(prefix, name@);
            assert(seq![j].drop_last() =~= Seq::<Seq<char>>::empty());
            assert(Seq::<Seq<char>>::empty().filter(pred) == Seq::<Seq<char>>::empty());
            if ends_with_crs(name@) {
                assert(seq![j].filter(pred) =~= seq![j]);
            } else {
                assert(seq![j].filter(pred) =~= Seq::<Seq<char>>::empty());
            }
        },
        FsEntry::Dir { name, entries } => {
            lemma_scan_is_filter_in(path_join(prefix, name@), entries@);
        },
    }
}

/// The scan of a directory's entries returns exactly the file paths under
/// them whose name ends in `.crs`.
pub proof fn lemma_scan_is_filter_in(prefix: Seq<char>, es: Seq<FsEntry>)
    ensures
        crs_paths_in(prefix, es) == file_paths_in(prefix, es).filter(|p: Seq<char>| ends_with_crs(p)),
    decreases es,
{
    reveal(Seq::filter);
    let pred = |p: Seq<char>| ends_with_crs(p);
    if es.len() == 0 {
        assert(Seq::<Seq<char>>::empty().filter(pred) == Seq::<Seq<char>>::empty());
    } else {
        lemma_scan_is_filter(prefix, es[0]);
        lemma_scan_is_filter_in(prefix, es.drop_first());
        Seq::filter_distributes_over_add(
            file_paths(prefix, es[0]),
            file_paths_in(prefix, es.drop_first()),
            pred,
        );
    }
}

/// Scanning a directory with no entries yields no paths at all.
pub proof fn lemma_scan_empty_dir(prefix: Seq<char>)
    ensures
        crs_paths_in(prefix, Seq::<FsEntry>::empty()) == Seq::<Seq<char>>::empty(),
{
}

/// Whether any regular file under the single entry `e`, at any depth, has a
/// name ending in `.crs`.
pub open spec fn has_crs_file(e: FsEntry) -> bool
    decreases e,
{
    match e {
        FsEntry::File { name } => ends_with_crs(name@),
        FsEntry::Dir { name: _, entries } => has_crs_file_in(entries@),
    }
}

/// Whether any regular file under the entries `es`, at any depth, has a name
/// ending in `.crs`.
pub open spec fn has_crs_file_in(es: Seq<FsEntry>) -> bool
    decreases es,
{
    if es.len() == 0 {
        false
    } else {
        has_crs_file(es[0]) || has_crs_file_in(es.drop_first())
    }
}

/// The scan of a single entry comes back empty exactly when no file under it
/// matches the suffix.
pub proof fn lemma_scan_empty_iff_no_match(prefix: Seq<char>, e: FsEntry)
    ensures
        crs_paths(prefix, e).len() == 0 <==> !has_crs_file(e),
    decreases e,
{
    match e {
        FsEntry::File { name: _ } => {
        },
        FsEntry::Dir { name, entries } => {
            lemma_scan_empty_iff_no_match_in(path_join(prefix, name@), entries@);
        },
    }
}

/// The scan of a directory's entries comes back empty exactly when no file
/// under them matches the suffix.
pub proof fn lemma_scan_empty_iff_no_match_in(prefix: Seq<char>, es: Seq<FsEntry>)
    ensures
        crs_paths_in(prefix, es).len() == 0 <==> !has_crs_file_in(es),
    decreases es,
{
    if es.len() > 0 {
        lemma_scan_empty_iff_no_match(prefix, es[0]);
        lemma_scan_empty_iff_no_match_in(prefix, es.drop_first());
    }
}

} // verus!
