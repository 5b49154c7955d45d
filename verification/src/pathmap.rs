//! Path arithmetic for mirroring a remote tree onto local disk.
//!
//! Remote paths are `/`-separated strings. Whether a remote root names a
//! single file or a directory is inferred from its last segment: a segment
//! with a dot after its first character is treated as a file name. That
//! heuristic is deliberate — the listing endpoint reports no type flag —
//! and it is kept behind one predicate so a later protocol revision can
//! replace it without touching the download planning.

use crate::errors::RetrievalError;
use crate::json::{chars_of, push_char, string_of_range};
use vstd::prelude::*;

verus! {

/// The last `/`-separated segment of a path; empty when the path is empty
/// or ends in a separator.
pub open spec fn spec_file_name(p: Seq<char>) -> Seq<char>
    decreases p.len(),
{
    if p.len() == 0 {
        Seq::empty()
    } else if p.last() == '/' {
        Seq::empty()
    } else {
        spec_file_name(p.drop_last()) + seq![p.last()]
    }
}

/// The extension heuristic: the path's last segment holds a dot after its
/// first character.
pub open spec fn spec_has_extension(p: Seq<char>) -> bool {
    exists|k: int| 1 <= k < spec_file_name(p).len() && spec_file_name(p)[k] == '.'
}

/// A root without a trailing separator.
pub open spec fn spec_norm_root(root: Seq<char>) -> Seq<char> {
    if root.len() > 0 && root.last() == '/' {
        root.drop_last()
    } else {
        root
    }
}

/// The path of `file` relative to `root`, when `file` lies under `root` at
/// a segment boundary; the root itself maps to the empty relative path.
pub open spec fn spec_strip_root(file: Seq<char>, root: Seq<char>) -> Option<Seq<char>> {
    let r = spec_norm_root(root);
    if file == r {
        Some(Seq::empty())
    } else if file.len() > r.len() && file.subrange(0, r.len() as int) == r && file[r.len() as int]
        == '/' {
        Some(file.subrange(r.len() as int + 1, file.len() as int))
    } else {
        None
    }
}

/// A directory and a relative path joined with one separator; joining the
/// empty relative path is the directory itself.
pub open spec fn spec_join(dir: Seq<char>, rel: Seq<char>) -> Seq<char> {
    if rel.len() == 0 {
        dir
    } else {
        dir + seq!['/'] + rel
    }
}

/// Where one listed remote file lands locally: under a directory-like root
/// the file's path relative to the root is kept; under a file-like root
/// only the file's base name is, discarding its remote directories. `None`
/// is a mapping failure: the file does not lie under the root, or it has
/// no base name.
pub open spec fn spec_local_path(root: Seq<char>, dest: Seq<char>, file: Seq<char>) -> Option<
    Seq<char>,
> {
    if !spec_has_extension(root) {
        match spec_strip_root(file, root) {
            None => None,
            Some(rel) => Some(spec_join(dest, rel)),
        }
    } else {
        let name = spec_file_name(file);
        if name.len() == 0 {
            None
        } else {
            Some(spec_join(dest, name))
        }
    }
}

/// A suffix holding no separator, starting at a segment boundary, is the
/// file name.
proof fn lemma_file_name_suffix(p: Seq<char>, i: int)
    requires
        0 <= i <= p.len(),
        forall|k: int| i <= k < p.len() ==> p[k] != '/',
        i == 0 || p[i - 1] == '/',
    ensures
        spec_file_name(p) == p.subrange(i, p.len() as int),
    decreases p.len(),
{
    if p.len() == 0 {
        assert(spec_file_name(p) =~= p.subrange(0, 0));
    } else if p.last() == '/' {
        assert(i == p.len());
        assert(spec_file_name(p) =~= p.subrange(i, p.len() as int));
    } else {
        assert(i < p.len());
        let q = p.drop_last();
        assert(forall|k: int| i <= k < q.len() ==> q[k] == p[k]);
        lemma_file_name_suffix(q, if i <= q.len() {
            i
        } else {
            q.len() as int
        });
        assert(spec_file_name(p) =~= p.subrange(i, p.len() as int));
    }
}

/// The position of the last segment's first character.
fn name_start(cs: &Vec<char>) -> (r: usize)
    ensures
        r <= cs@.len(),
        forall|k: int| r <= k < cs@.len() ==> cs@[k] != '/',
        r == 0 || cs@[r - 1] == '/',
{
    let mut i = cs.len();
    while i > 0 && cs[i - 1] != '/'
        invariant
            i <= cs@.len(),
            forall|k: int| i <= k < cs@.len() ==> cs@[k] != '/',
        decreases i,
    {
        i -= 1;
    }
    i
}

/// The last `/`-separated segment of `p`.
pub fn file_name(p: &str) -> (r: String)
    ensures
        r@ == spec_file_name(p@),
{
    let cs = chars_of(p);
    let i = name_start(&cs);
    proof {
        lemma_file_name_suffix(p@, i as int);
    }
    string_of_range(&cs, i, cs.len())
}

/// The extension heuristic on a path: does its last segment hold a dot
/// after its first character?
pub fn has_extension(p: &str) -> (r: bool)
    ensures
        r == spec_has_extension(p@),
{
    let cs = chars_of(p);
    let i = name_start(&cs);
    proof {
        lemma_file_name_suffix(p@, i as int);
    }
    let ghost name = spec_file_name(p@);
    let n = cs.len();
    if i >= n {
        assert(name.len() == 0);
        return false;
    }
    let mut k = i + 1;
    while k < n
        invariant
            i + 1 <= k <= n,
            i < n,
            n == cs@.len(),
            cs@ == p@,
            name == spec_file_name(p@),
            name == p@.subrange(i as int, n as int),
            forall|j: int| i + 1 <= j < k ==> cs@[j] != '.',
        decreases n - k,
    {
        if cs[k] == '.' {
            assert(name[k - i] == cs@[k as int]);
            assert(spec_file_name(p@)[k - i] == '.');
            assert(1 <= k - i < spec_file_name(p@).len());
            assert(spec_has_extension(p@));
            return true;
        }
        k += 1;
    }
    proof {
        if spec_has_extension(p@) {
            let w = choose|w: int| 1 <= w < name.len() && name[w] == '.';
            assert(name[w] == cs@[i + w]);
        }
    }
    false
}

/// The path of `file` relative to `root`, when `file` lies under `root` at
/// a segment boundary.
pub fn strip_root(file: &str, root: &str) -> (r: Option<String>)
    ensures
        r matches Some(rel) ==> spec_strip_root(file@, root@) == Some(rel@),
        r is None ==> spec_strip_root(file@, root@) is None,
{
    let f = chars_of(file);
    let mut rv = chars_of(root);
    if rv.len() > 0 && rv[rv.len() - 1] == '/' {
        rv.truncate(rv.len() - 1);
        assert(rv@ =~= spec_norm_root(root@));
    }
    let rn = rv.len();
    if f.len() < rn {
        proof {
            if spec_strip_root(file@, root@) is Some {
                assert(file@.len() >= rv@.len());
            }
        }
        return None;
    }
    let mut k: usize = 0;
    while k < rn
        invariant
            k <= rn,
            rn == rv@.len() <= f@.len(),
            f@ == file@,
            rv@ == spec_norm_root(root@),
            forall|j: int| 0 <= j < k ==> f@[j] == rv@[j],
        decreases rn - k,
    {
        if f[k] != rv[k] {
            proof {
                if spec_strip_root(file@, root@) is Some {
                    if file@ == rv@ {
                        assert(file@[k as int] == rv@[k as int]);
                    } else {
                        assert(file@.subrange(0, rn as int)[k as int] == rv@[k as int]);
                    }
                }
            }
            return None;
        }
        k += 1;
    }
    assert(f@.subrange(0, rn as int) =~= rv@);
    if f.len() == rn {
        assert(file@ =~= rv@);
        let out = String::new();
        assert(spec_strip_root(file@, root@) == Some(out@));
        return Some(out);
    }
    if f[rn] == '/' {
        let rel = string_of_range(&f, rn + 1, f.len());
        assert(file@ != rv@) by {
            assert(file@.len() != rv@.len());
        }
        return Some(rel);
    }
    proof {
        if spec_strip_root(file@, root@) is Some {
            if file@ == rv@ {
                assert(file@.len() == rv@.len());
            }
        }
    }
    None
}

/// `dir` and `rel` joined with one separator; joining the empty relative
/// path gives `dir` itself.
pub fn join_path(dir: &str, rel: &str) -> (r: String)
    ensures
        r@ == spec_join(dir@, rel@),
{
    if rel.unicode_len() == 0 {
        dir.to_owned()
    } else {
        let mut s = dir.to_owned();
        push_char(&mut s, '/');
        s.append(rel);
        assert(s@ =~= spec_join(dir@, rel@));
        s
    }
}

/// The directory part of a path: what stands before the last separator.
/// `None` when the path has no separator.
pub fn parent_dir(p: &str) -> (r: Option<String>)
    ensures
        r matches Some(d) ==> p@.len() > 0 && exists|k: int|
            0 <= k < p@.len() && p@[k] == '/' && d@ == p@.subrange(0, k) && (forall|j: int|
                k < j < p@.len() ==> p@[j] != '/'),
        r is None ==> forall|k: int| 0 <= k < p@.len() ==> p@[k] != '/',
{
    let cs = chars_of(p);
    let i = name_start(&cs);
    if i == 0 {
        return None;
    }
    let d = string_of_range(&cs, 0, i - 1);
    assert(cs@[i - 1] == '/');
    Some(d)
}

/// One planned transfer: a remote file and the local path it lands on.
pub struct FileTransfer {
    pub remote: String,
    pub local: String,
}

/// Plans the mirroring of a listed remote tree: one transfer per listed
/// file, in listing order, each landing where `spec_local_path` says. The
/// whole plan fails with a path-mapping failure as soon as any listed file
/// cannot be placed.
pub fn plan_downloads(remote_root: &str, dest_dir: &str, files: &Vec<String>) -> (r: Result<
    Vec<FileTransfer>,
    RetrievalError,
>)
    ensures
        r matches Ok(plan) ==> plan@.len() == files@.len() && (forall|i: int|
            0 <= i < files@.len() ==> plan@[i].remote@ == files@[i]@ && Some(plan@[i].local@)
                == spec_local_path(remote_root@, dest_dir@, files@[i]@)),
        r is Err <==> exists|i: int|
            0 <= i < files@.len() && spec_local_path(remote_root@, dest_dir@, files@[i]@) is None,
        r matches Err(e) ==> e is PathMapping,
{
    let root_is_dir = !has_extension(remote_root);
    let mut plan: Vec<FileTransfer> = Vec::new();
    let mut i: usize = 0;
    while i < files.len()
        invariant
            i <= files@.len(),
            plan@.len() == i,
            forall|j: int|
                0 <= j < i ==> plan@[j].remote@ == files@[j]@ && Some(plan@[j].local@)
                    == spec_local_path(remote_root@, dest_dir@, files@[j]@),
            root_is_dir == !spec_has_extension(remote_root@),
        decreases files@.len() - i,
    {
        let file = &files[i];
        let local: String;
        if root_is_dir {
            match strip_root(file.as_str(), remote_root) {
                Some(rel) => {
                    local = join_path(dest_dir, rel.as_str());
                },
                None => {
                    return Err(
                        RetrievalError::PathMapping(
                            "a listed file does not lie under the remote root".to_owned(),
                        ),
                    );
                },
            }
        } else {
            let name = file_name(file.as_str());
            if name.unicode_len() == 0 {
                return Err(
                    RetrievalError::PathMapping("a listed file has no base name".to_owned()),
                );
            }
            local = join_path(dest_dir, name.as_str());
        }
        assert(Some(local@) == spec_local_path(remote_root@, dest_dir@, files@[i as int]@));
        let remote = file.clone();
        plan.push(FileTransfer { remote, local });
        i += 1;
    }
    Ok(plan)
}

} // verus!
