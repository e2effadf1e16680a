//! The archiver: turns the files found under the output directory into one
//! in-memory archive. Each file's path, given relative to the project root,
//! is normalized to forward slashes and loses the output directory's name as
//! a prefix, so the archive's paths are relative to the output directory
//! itself.

use vstd::prelude::*;
use vstd::string::StrSliceExecFns;
use vstd::string::StringExecFns;

use crate::text::is_prefix_of;
use crate::text::str_starts_with;
use crate::zipio::append_archive_entry;
use crate::zipio::archive_names;
use crate::zipio::data_fits;
use crate::zipio::decoded_entries;
use crate::zipio::name_fits;
use crate::zipio::finish_archive;
use crate::zipio::new_archive_writer;
use crate::zipio::archive_contents;
use crate::zipio::ArchiveWriter;

verus! {

/// One regular file found under the output directory: its path relative to
/// the project root, and its full contents.
pub struct FileEntry {
    pub path: String,
    pub contents: Vec<u8>,
}

/// Why the archive could not be produced.
#[derive(Clone, Copy, Debug, PartialEq, Eq, Structural)]
pub enum ArchiveError {
    /// An entry could not be written: two files mapped to the same archive
    /// path, a path too long for the format's name field, or contents past
    /// its plain 32-bit size limit.
    EntryFailed,
}

/// `s` with every backslash separator turned into a forward slash.
pub open spec fn normalize_seps_spec(s: Seq<char>) -> Seq<char> {
    s.map_values(|c: char| if c == '\\' { '/' } else { c })
}

/// The output directory's name as a path prefix.
pub open spec fn dir_prefix(d: Seq<char>) -> Seq<char> {
    d + "/"@
}

/// The path an archive entry gets: separators normalized, and the output
/// directory's prefix removed once where it is present.
pub open spec fn entry_name_spec(path: Seq<char>, d: Seq<char>) -> Seq<char> {
    let n = normalize_seps_spec(path);
    if is_prefix_of(dir_prefix(d), n) {
        n.skip(dir_prefix(d).len() as int)
    } else {
        n
    }
}

/// The (name, bytes) entries the archive will hold for these files, in order.
pub open spec fn planned_entries(d: Seq<char>, files: Seq<FileEntry>) -> Seq<
    (Seq<char>, Seq<u8>),
> {
    files.map_values(|f: FileEntry| (entry_name_spec(f.path@, d), f.contents@))
}

/// A plan the archive format can hold: the planned entry paths are pairwise
/// distinct, each fits the format's name field, and each file's contents
/// stay within the format's plain size limit.
pub open spec fn plan_admissible(d: Seq<char>, files: Seq<FileEntry>) -> bool {
    let plan = planned_entries(d, files);
    &&& forall|i: int, j: int|
        0 <= i < j < plan.len() ==> (#[trigger] plan[i]).0 != (#[trigger] plan[j]).0
    &&& forall|i: int| 0 <= i < plan.len() ==> name_fits((#[trigger] plan[i]).0)
    &&& forall|i: int| 0 <= i < plan.len() ==> data_fits((#[trigger] plan[i]).1)
}

/// Every file appears exactly once in the archive's plan, in input order:
/// the i-th entry carries the i-th file's relativized path and exactly that
/// file's bytes.
pub proof fn lemma_planned_entries_pointwise(d: Seq<char>, files: Seq<FileEntry>)
    ensures
        planned_entries(d, files).len() == files.len(),
        forall|i: int|
            0 <= i < files.len() ==> #[trigger] planned_entries(d, files)[i] == (
                entry_name_spec(files[i].path@, d),
                files[i].contents@,
            ),
{
}

/// `s` with every backslash turned into a forward slash.
pub fn normalize_separators(s: &str) -> (r: String)
    ensures
        r@ == normalize_seps_spec(s@),
{
    let n = s.unicode_len();
    let mut r = String::new();
    proof {
        reveal_strlit("/");
    }
    let mut i: usize = 0;
    while i < n
        invariant
            0 <= i <= n,
            n == s@.len(),
            "/"@ =~= seq!['/'],
            r@ =~= normalize_seps_spec(s@.take(i as int)),
        decreases n - i,
    {
        if s.get_char(i) == '\\' {
            r.append("/");
        } else {
            r.append(s.substring_char(i, i + 1));
        }
        proof {
            assert(s@.subrange(i as int, i + 1) =~= seq![s@[i as int]]);
            assert(r@ =~= normalize_seps_spec(s@.take(i + 1)));
        }
        i += 1;
    }
    proof {
        assert(s@.take(n as int) =~= s@);
    }
    r
}

/// The archive path for one file: separators normalized, and the output
/// directory's name stripped once as a prefix.
pub fn archive_entry_name(path: &str, dir: &str) -> (r: String)
    ensures
        r@ == entry_name_spec(path@, dir@),
{
    let n = normalize_separators(path);
    let mut p = dir.to_owned();
    p.append("/");
    proof {
        reveal_strlit("/");
    }
    if str_starts_with(n.as_str(), p.as_str()) {
        let plen = p.as_str().unicode_len();
        let nlen = n.as_str().unicode_len();
        let r = n.as_str().substring_char(plen, nlen).to_owned();
        proof {
            assert(r@ =~= normalize_seps_spec(path@).skip(dir_prefix(dir@).len() as int));
        }
        r
    } else {
        n
    }
}

/// An entry path never keeps the output directory's prefix, as long as the
/// path was not nested a second time under a directory of the same name.
pub proof fn lemma_entry_name_avoids_dir_prefix(path: Seq<char>, d: Seq<char>)
    requires
        !is_prefix_of(dir_prefix(d) + dir_prefix(d), normalize_seps_spec(path)),
    ensures
        !is_prefix_of(dir_prefix(d), entry_name_spec(path, d)),
{
    let n = normalize_seps_spec(path);
    let p = dir_prefix(d);
    if is_prefix_of(p, n) {
        let e = n.skip(p.len() as int);
        if is_prefix_of(p, e) {
            assert(n.subrange(0, (p + p).len() as int) =~= p + p);
            assert(false);
        }
    }
}

/// Builds the archive for the given files: each file becomes one entry, in
/// the given order, under its normalized and relativized path, with its
/// bytes unchanged. On every admissible plan the archive is produced; an
/// error comes only where the plan itself cannot be recorded.
pub fn build_archive(dir: &str, files: &Vec<FileEntry>) -> (r: Result<Vec<u8>, ArchiveError>)
    ensures
        r matches Ok(bytes) ==> decoded_entries(bytes@) == planned_entries(dir@, files@),
        plan_admissible(dir@, files@) ==> r is Ok,
{
    let ghost plan = planned_entries(dir@, files@);
    let mut w = new_archive_writer();
    let mut i: usize = 0;
    proof {
        assert(plan.take(0) =~= Seq::<(Seq<char>, Seq<u8>)>::empty());
    }
    while i < files.len()
        invariant
            0 <= i <= files@.len(),
            plan == planned_entries(dir@, files@),
            archive_contents(w) == plan.take(i as int),
        decreases files@.len() - i,
    {
        let name = archive_entry_name(files[i].path.as_str(), dir);
        proof {
            assert(plan[i as int] == (
                entry_name_spec(files@[i as int].path@, dir@),
                files@[i as int].contents@,
            ));
        }
        let ghost pre = archive_contents(w);
        let added = append_archive_entry(&mut w, name.as_str(), files[i].contents.as_slice());
        match added {
            Ok(()) => {},
            Err(_) => {
                proof {
                    if plan_admissible(dir@, files@) {
                        assert(name_fits(name@));
                        assert(data_fits(files@[i as int].contents@));
                        assert(!archive_names(pre).contains(name@)) by {
                            if archive_names(pre).contains(name@) {
                                let j = choose|j: int|
                                    0 <= j < archive_names(pre).len() && archive_names(pre)[j]
                                        == name@;
                                assert(archive_names(pre)[j] == pre[j].0);
                                assert(pre[j] == plan[j]);
                                assert(plan[j].0 == plan[i as int].0);
                            }
                        }
                        assert(false);
                    }
                }
                return Err(ArchiveError::EntryFailed);
            },
        }
        proof {
            assert(plan.take(i + 1) =~= plan.take(i as int).push(plan[i as int]));
        }
        i += 1;
    }
    proof {
        assert(plan.take(files@.len() as int) =~= plan);
    }
    match finish_archive(w) {
        Ok(bytes) => Ok(bytes),
        // Unreachable: finishing an in-memory archive cannot fail.
        Err(_) => Err(ArchiveError::EntryFailed),
    }
}

} // verus!
