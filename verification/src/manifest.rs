//! The manifest builder: resolves the two mandatory inputs and the declared
//! source/destination pairs into an ordered list of archive entries,
//! expanding directories into their recursive file listing.

use vstd::prelude::*;
use crate::errors::{PackError, PathKind};
use crate::paths::{joined, join_path, normalize_seps, normalized};

verus! {

/// One resolved archive entry: a source file on disk and its slash-separated
/// destination inside the container.
#[derive(Debug)]
pub struct Entry {
    /// Filesystem path of the source file.
    pub src: String,
    /// Relative, slash-separated destination inside the container.
    pub dst: String,
}

/// The fixed destination of the mandatory metadata file.
pub open spec fn sfo_dst() -> Seq<char> {
    "sce_sys/param.sfo"@
}

/// The fixed destination of the mandatory binary.
pub open spec fn eboot_dst() -> Seq<char> {
    "eboot.bin"@
}

/// Relies on std::path::Path::is_file: whether the path names an existing
/// regular file on this machine's disk right now.
#[verifier::external_body]
fn path_is_file(p: &str) -> bool {
    std::path::Path::new(p).is_file()
}

/// Relies on std::path::Path::is_dir: whether the path names an existing
/// directory on this machine's disk right now.
#[verifier::external_body]
fn path_is_dir(p: &str) -> bool {
    std::path::Path::new(p).is_dir()
}

/// Relies on std::path::Path::exists: whether anything exists at the path on
/// this machine's disk right now.
#[verifier::external_body]
fn path_exists(p: &str) -> bool {
    std::path::Path::new(p).exists()
}

/// The kind a path is sorted into, given the three probe answers.
pub open spec fn classified(is_file: bool, is_dir: bool, exists: bool) -> PathKind {
    if is_file {
        PathKind::File
    } else if is_dir {
        PathKind::Dir
    } else if exists {
        PathKind::Other
    } else {
        PathKind::Missing
    }
}

/// Sorts the three probe answers for a path into its kind.
pub fn classify(is_file: bool, is_dir: bool, exists: bool) -> (k: PathKind)
    ensures
        k == classified(is_file, is_dir, exists),
{
    if is_file {
        PathKind::File
    } else if is_dir {
        PathKind::Dir
    } else if exists {
        PathKind::Other
    } else {
        PathKind::Missing
    }
}

/// Probes a path on the filesystem and sorts it into its kind. What comes
/// back depends on what is on disk at the moment of the call.
pub fn probe_path(p: &str) -> PathKind {
    classify(path_is_file(p), path_is_dir(p), path_exists(p))
}

/// The check's verdict for each path kind, exactly: only an existing regular
/// file passes.
pub fn check_file_kind(k: PathKind) -> (r: Result<(), String>)
    ensures
        r is Ok <==> k == PathKind::File,
        k == PathKind::Missing ==> (r matches Err(m) && m@ == "File doesn't exist!"@),
        k == PathKind::Dir || k == PathKind::Other ==> (r matches Err(m) && m@ == "Given path is not a valid file!"@),
{
    match k {
        PathKind::File => Ok(()),
        PathKind::Missing => Err(String::from_str("File doesn't exist!")),
        _ => Err(String::from_str("Given path is not a valid file!")),
    }
}

/// Checks that a path names an existing regular file. The verdict depends on
/// the disk; any refusal carries one of the two fixed messages.
pub fn check_file(file: &str) -> (r: Result<(), String>)
    ensures
        r matches Err(m) ==> m@ == "File doesn't exist!"@ || m@ == "Given path is not a valid file!"@,
{
    check_file_kind(probe_path(file))
}

/// Decides the resolution of one declared source from its probed kind: a
/// missing path is refused with NotFound, and any present path becomes the
/// entry mapping the source to its declared destination.
pub fn resolve_single(kind: PathKind, src: &str, dst: &str) -> (r: Result<Entry, PackError>)
    ensures
        kind == PathKind::Missing <==> (r matches Err(e) && e == PackError::NotFound),
        kind != PathKind::Missing ==> (r matches Ok(en) && en.src@ == src@ && en.dst@ == dst@),
{
    match kind {
        PathKind::Missing => Err(PackError::NotFound),
        _ => Ok(Entry { src: String::from_str(src), dst: String::from_str(dst) }),
    }
}

/// Resolves one declared source path against the disk: NotFound when nothing
/// exists there, else the entry mapping it to the declared destination.
pub fn make_add_list(src_path: &str, dst_path: &str) -> (r: Result<Entry, PackError>)
    ensures
        r matches Ok(en) ==> en.src@ == src_path@ && en.dst@ == dst_path@,
        r matches Err(e) ==> e == PackError::NotFound,
{
    resolve_single(probe_path(src_path), src_path, dst_path)
}

#[verifier::external_type_specification]
#[verifier::external_body]
pub struct ExWalkdirDirEntry(walkdir::DirEntry);

#[verifier::external_type_specification]
#[verifier::external_body]
pub struct ExWalkdirError(walkdir::Error);

/// Relies on walkdir::WalkDir: every entry under `root`, recursively, the
/// root itself included, or the walk's first error (a missing or unreadable
/// directory). What comes back depends on the disk.
#[verifier::external_body]
fn walk_collect(root: &str) -> Result<Vec<walkdir::DirEntry>, walkdir::Error> {
    walkdir::WalkDir::new(root).into_iter().collect()
}

/// Relies on walkdir::DirEntry::file_type and std's FileType::is_file:
/// whether the walked entry is a regular file.
#[verifier::external_body]
fn entry_is_file(e: &walkdir::DirEntry) -> bool {
    e.file_type().is_file()
}

/// Relies on walkdir::DirEntry::path and std's Path::strip_prefix and
/// Path::to_str: the entry's path with `root` cut off its front, as a
/// string, or None when the prefix does not match or the path is not
/// valid text.
#[verifier::external_body]
fn entry_rel_path(e: &walkdir::DirEntry, root: &str) -> Option<String> {
    match e.path().strip_prefix(root) {
        Ok(p) => p.to_str().map(|s| s.to_string()),
        Err(_) => None,
    }
}

/// The pair of paths an entry stands for: its source and its destination.
pub open spec fn entries_view(es: Seq<Entry>) -> Seq<(Seq<char>, Seq<char>)> {
    es.map_values(|e: Entry| (e.src@, e.dst@))
}

/// The entries a directory declaration expands to, given the relative paths
/// of the files found beneath it: for each, the source is the source root
/// joined with the relative path as the filesystem has it, and the
/// destination is the destination root joined with the same path, its
/// separators normalized to forward slashes.
pub open spec fn tree_model(src_root: Seq<char>, dst_root: Seq<char>, rels: Seq<Seq<char>>) -> Seq<
    (Seq<char>, Seq<char>),
> {
    Seq::new(
        rels.len(),
        |i: int| (joined(src_root, rels[i]), joined(dst_root, normalized(rels[i]))),
    )
}

/// For every relative path, exactly one entry: its source is `src_root`
/// joined with the path as given, its destination `dst_root` joined with the
/// path normalized to forward slashes — the full tree model, nothing more
/// and nothing less.
pub fn tree_entries(src_root: &str, dst_root: &str, rels: &Vec<String>) -> (r: Vec<Entry>)
    ensures
        entries_view(r@) == tree_model(src_root@, dst_root@, rels@.map_values(|s: String| s@)),
{
    let mut out: Vec<Entry> = Vec::new();
    let mut i: usize = 0;
    while i < rels.len()
        invariant
            i <= rels@.len(),
            out@.len() == i,
            forall|k: int| 0 <= k < i ==> #[trigger] out@[k].src@ == joined(src_root@, rels@[k]@)
                && out@[k].dst@ == joined(dst_root@, normalized(rels@[k]@)),
        decreases rels@.len() - i,
    {
        let src = join_path(src_root, rels[i].as_str());
        let normal = normalize_seps(rels[i].as_str());
        let dst = join_path(dst_root, normal.as_str());
        proof {
            assert(dst@ == joined(dst_root@, normalized(rels@[i as int]@)));
        }
        out.push(Entry { src, dst });
        i += 1;
    }
    proof {
        assert(entries_view(out@) =~= tree_model(
            src_root@,
            dst_root@,
            rels@.map_values(|s: String| s@),
        ));
    }
    out
}

/// The entries one declaration expands to, by the declared source's kind: a
/// regular file gives the single declared pair, a directory its tree model.
pub open spec fn add_expansion(
    src: Seq<char>,
    dst: Seq<char>,
    kind: PathKind,
    rels: Seq<Seq<char>>,
) -> Seq<(Seq<char>, Seq<char>)> {
    if kind == PathKind::File {
        seq![(src, dst)]
    } else {
        tree_model(src, dst, rels)
    }
}

/// The declared pairs, as sequences of characters.
pub open spec fn adds_view(adds: Seq<(String, String)>) -> Seq<(Seq<char>, Seq<char>)> {
    adds.map_values(|p: (String, String)| (p.0@, p.1@))
}

/// The concatenated expansions of the first `n` declarations, each under its
/// kind and, for a directory, its relative file paths.
pub open spec fn expansions_upto(
    adds: Seq<(Seq<char>, Seq<char>)>,
    kinds: Seq<PathKind>,
    relss: Seq<Seq<Seq<char>>>,
    n: int,
) -> Seq<(Seq<char>, Seq<char>)>
    decreases n,
{
    if n <= 0 {
        Seq::empty()
    } else {
        expansions_upto(adds, kinds, relss, n - 1)
            + add_expansion(adds[n - 1].0, adds[n - 1].1, kinds[n - 1], relss[n - 1])
    }
}

/// The first `n` expansions read nothing past the first `n` positions of the
/// kind and relative-path sequences.
proof fn lemma_expansions_upto_agree(
    adds: Seq<(Seq<char>, Seq<char>)>,
    k1: Seq<PathKind>,
    r1: Seq<Seq<Seq<char>>>,
    k2: Seq<PathKind>,
    r2: Seq<Seq<Seq<char>>>,
    n: int,
)
    requires
        forall|t: int| 0 <= t < n ==> k1[t] == k2[t] && r1[t] == r2[t],
    ensures
        expansions_upto(adds, k1, r1, n) == expansions_upto(adds, k2, r2, n),
    decreases n,
{
    if n > 0 {
        lemma_expansions_upto_agree(adds, k1, r1, k2, r2, n - 1);
    }
}

/// Expands a directory declaration: walks every file beneath `src_dir` and
/// produces one entry per file, the destinations being `dst_root` joined
/// with each file's path relative to `src_dir`, separators normalized to
/// forward slashes. A missing or unreadable directory is refused with
/// NotFound, as is a walked path that cannot be rendered as text — no file
/// is ever silently dropped. Since the root is non-empty and does not start
/// with a separator, neither does any produced destination.
pub fn walk_list(src_dir: &str, dst_root: &str) -> (r: Result<Vec<Entry>, PackError>)
    requires
        dst_root@.len() > 0,
        dst_root@[0] != '/',
    ensures
        r matches Err(e) ==> e == PackError::NotFound,
        r matches Ok(es) ==> exists|rels: Seq<Seq<char>>|
            entries_view(es@) == tree_model(src_dir@, dst_root@, rels),
        r matches Ok(es) ==> forall|k: int| 0 <= k < es@.len()
            ==> (#[trigger] es@[k].dst@).len() > 0 && es@[k].dst@[0] != '/',
{
    match walk_collect(src_dir) {
        Err(_) => Err(PackError::NotFound),
        Ok(found) => {
            let mut rels: Vec<String> = Vec::new();
            let mut i: usize = 0;
            while i < found.len()
                invariant
                    i <= found@.len(),
                decreases found@.len() - i,
            {
                if entry_is_file(&found[i]) {
                    match entry_rel_path(&found[i], src_dir) {
                        Some(s) => rels.push(s),
                        None => {
                            return Err(PackError::NotFound);
                        },
                    }
                }
                i += 1;
            }
            let es = tree_entries(src_dir, dst_root, &rels);
            proof {
                let w = rels@.map_values(|s: String| s@);
                assert(entries_view(es@) == tree_model(src_dir@, dst_root@, w));
                assert forall|k: int| 0 <= k < es@.len()
                    implies (#[trigger] es@[k].dst@).len() > 0 && es@[k].dst@[0] != '/' by {
                    assert(entries_view(es@)[k] == tree_model(src_dir@, dst_root@, w)[k]);
                    assert(es@[k].dst@ == joined(dst_root@, normalized(w[k])));
                }
            }
            Ok(es)
        },
    }
}

/// Decides one declaration from its probed kind: an existing regular file
/// becomes the single declared pair, a directory its expanded tree, and
/// anything else — missing, or neither a regular file nor a directory —
/// is refused with InvalidSource.
pub fn dispatch_add(kind: PathKind, src: &str, dst: &str) -> (r: Result<Vec<Entry>, PackError>)
    requires
        dst@.len() > 0,
        dst@[0] != '/',
    ensures
        kind == PathKind::File ==> (r matches Ok(es) && entries_view(es@) == seq![(src@, dst@)]),
        kind == PathKind::Missing || kind == PathKind::Other ==> (r matches Err(e) && e
            == PackError::InvalidSource),
        kind == PathKind::Dir ==> (r matches Err(e) ==> e == PackError::NotFound),
        kind == PathKind::Dir ==> (r matches Ok(es) ==> exists|rels: Seq<Seq<char>>|
            entries_view(es@) == tree_model(src@, dst@, rels)),
        r matches Err(e) ==> e == PackError::InvalidSource || e == PackError::NotFound,
        r matches Ok(es) ==> forall|k: int| 0 <= k < es@.len()
            ==> (#[trigger] es@[k].dst@).len() > 0 && es@[k].dst@[0] != '/',
{
    match kind {
        PathKind::File => {
            match resolve_single(kind, src, dst) {
                Ok(en) => {
                    let mut es: Vec<Entry> = Vec::new();
                    es.push(en);
                    proof {
                        assert(entries_view(es@) =~= seq![(src@, dst@)]);
                    }
                    Ok(es)
                },
                Err(_) => Err(PackError::InvalidSource),
            }
        },
        PathKind::Dir => walk_list(src, dst),
        PathKind::Missing => Err(PackError::InvalidSource),
        PathKind::Other => Err(PackError::InvalidSource),
    }
}

/// Builds the full manifest: the metadata file first, the binary second,
/// then each declaration in order — a regular file as one entry, a
/// directory as its expanded tree, anything else refused with
/// InvalidSource, a missing mandatory input with NotFound. The builder
/// never touches the container, so those are the only errors it can
/// return. Declarations must have non-empty halves and a destination that
/// does not start with a separator; every destination in the result is then
/// non-empty and relative. On success the manifest is exactly the two fixed
/// entries followed by the declarations' expansions, in declaration order,
/// each under the kind its source was probed as.
pub fn build_list(sfo_path: &str, eboot_path: &str, adds: &Vec<(String, String)>) -> (r: Result<
    Vec<Entry>,
    PackError,
>)
    requires
        forall|t: int| 0 <= t < adds@.len() ==> (#[trigger] (adds@[t].0)@).len() > 0
            && (adds@[t].1)@.len() > 0 && (adds@[t].1)@[0] != '/',
    ensures
        r matches Err(e) ==> e == PackError::NotFound || e == PackError::InvalidSource,
        r matches Ok(es) ==> es@.len() >= 2
            && es@[0].src@ == sfo_path@ && es@[0].dst@ == sfo_dst()
            && es@[1].src@ == eboot_path@ && es@[1].dst@ == eboot_dst(),
        adds@.len() == 0 ==> (r matches Ok(es) ==> es@.len() == 2),
        r matches Ok(es) ==> forall|k: int| 0 <= k < es@.len()
            ==> (#[trigger] es@[k].dst@).len() > 0 && es@[k].dst@[0] != '/',
        r matches Ok(es) ==> exists|kinds: Seq<PathKind>, relss: Seq<Seq<Seq<char>>>|
            {
                &&& kinds.len() == adds@.len()
                &&& relss.len() == adds@.len()
                &&& forall|t: int| 0 <= t < adds@.len() ==> kinds[t] == PathKind::File
                    || kinds[t] == PathKind::Dir
                &&& entries_view(es@) == seq![(sfo_path@, sfo_dst()), (eboot_path@, eboot_dst())]
                    + expansions_upto(adds_view(adds@), kinds, relss, adds@.len() as int)
            },
{
    let mut out: Vec<Entry> = Vec::new();
    match make_add_list(sfo_path, "sce_sys/param.sfo") {
        Ok(en) => out.push(en),
        Err(e) => {
            return Err(e);
        },
    }
    match make_add_list(eboot_path, "eboot.bin") {
        Ok(en) => out.push(en),
        Err(e) => {
            return Err(e);
        },
    }
    let ghost mand = seq![(sfo_path@, sfo_dst()), (eboot_path@, eboot_dst())];
    let ghost av = adds_view(adds@);
    let ghost mut kinds: Seq<PathKind> = Seq::empty();
    let ghost mut relss: Seq<Seq<Seq<char>>> = Seq::empty();
    proof {
        reveal_strlit("sce_sys/param.sfo");
        reveal_strlit("eboot.bin");
        assert(sfo_dst().len() > 0 && sfo_dst()[0] != '/');
        assert(eboot_dst().len() > 0 && eboot_dst()[0] != '/');
        assert(entries_view(out@) =~= mand + expansions_upto(av, kinds, relss, 0));
    }
    let mut i: usize = 0;
    while i < adds.len()
        invariant
            i <= adds@.len(),
            out@.len() >= 2,
            out@[0].src@ == sfo_path@ && out@[0].dst@ == sfo_dst(),
            out@[1].src@ == eboot_path@ && out@[1].dst@ == eboot_dst(),
            adds@.len() == 0 ==> out@.len() == 2,
            forall|t: int| 0 <= t < adds@.len() ==> (#[trigger] (adds@[t].0)@).len() > 0
                && (adds@[t].1)@.len() > 0 && (adds@[t].1)@[0] != '/',
            forall|k: int| 0 <= k < out@.len() ==> (#[trigger] out@[k].dst@).len() > 0
                && out@[k].dst@[0] != '/',
            av == adds_view(adds@),
            mand == seq![(sfo_path@, sfo_dst()), (eboot_path@, eboot_dst())],
            kinds.len() == i as int,
            relss.len() == i as int,
            forall|t: int| 0 <= t < i ==> kinds[t] == PathKind::File || kinds[t] == PathKind::Dir,
            entries_view(out@) == mand + expansions_upto(av, kinds, relss, i as int),
        decreases adds@.len() - i,
    {
        let kind = probe_path(adds[i].0.as_str());
        match dispatch_add(kind, adds[i].0.as_str(), adds[i].1.as_str()) {
            Ok(mut es) => {
                proof {
                    let ki_rels: (PathKind, Seq<Seq<char>>) = if kind == PathKind::File {
                        (PathKind::File, Seq::<Seq<char>>::empty())
                    } else {
                        (
                            PathKind::Dir,
                            choose|rels: Seq<Seq<char>>|
                                entries_view(es@) == tree_model(
                                    (adds@[i as int].0)@,
                                    (adds@[i as int].1)@,
                                    rels,
                                ),
                        )
                    };
                    let k2 = kinds.push(ki_rels.0);
                    let r2 = relss.push(ki_rels.1);
                    lemma_expansions_upto_agree(av, kinds, relss, k2, r2, i as int);
                    assert(av[i as int] == ((adds@[i as int].0)@, (adds@[i as int].1)@));
                    assert(entries_view(es@) =~= add_expansion(
                        av[i as int].0,
                        av[i as int].1,
                        k2[i as int],
                        r2[i as int],
                    ));
                    assert(entries_view(out@ + es@) =~= entries_view(out@) + entries_view(es@));
                    assert(entries_view(out@ + es@) =~= mand + expansions_upto(
                        av,
                        k2,
                        r2,
                        i as int + 1,
                    ));
                    kinds = k2;
                    relss = r2;
                }
                out.append(&mut es);
            },
            Err(e) => {
                return Err(e);
            },
        }
        i += 1;
    }
    proof {
        assert(entries_view(out@) == mand + expansions_upto(av, kinds, relss, adds@.len() as int));
    }
    Ok(out)
}

} // verus!
