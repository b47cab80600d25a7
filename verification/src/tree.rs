//! Recursive discovery of grammar-source files over a directory-tree
//! snapshot.
//!
//! The host shell reads each directory's entries once, without following
//! directory symlinks' contents beyond noting the link, and hands the
//! result in as a `DirTree` value; discovery itself — which names count,
//! which branches are entered, in what order files come out — happens here.
//! Entries appear in the snapshot in the order the host listed them, so for
//! a fixed listing order the discovered sequence is fully determined.

use vstd::prelude::*;

use crate::paths::has_grammar_ext;
use crate::paths::DiscoveredFile;

verus! {

/// One subdirectory entry of a directory snapshot.
pub struct SubDir {
    /// The subdirectory's name.
    pub name: Vec<u8>,
    /// Whether the entry is a symbolic link to a directory; such a branch
    /// is never entered, so a cycle through links cannot recurse forever.
    pub via_symlink: bool,
    /// The subdirectory's own snapshot; ignored when `via_symlink` holds.
    pub tree: DirTree,
}

/// A snapshot of one directory: its regular files and its subdirectories,
/// each in the order the host listed them.
pub struct DirTree {
    /// Names of the regular files directly in this directory.
    pub files: Vec<Vec<u8>>,
    /// The subdirectory entries directly in this directory.
    pub subdirs: Vec<SubDir>,
}

/// A discovered file's mathematical shape: its directory components
/// relative to the searched root, and its name.
pub open spec fn file_model(f: DiscoveredFile) -> (Seq<Seq<u8>>, Seq<u8>) {
    (f.rel_dir.deep_view(), f.name@)
}

/// The shapes of a sequence of discovered files.
pub open spec fn file_models(s: Seq<DiscoveredFile>) -> Seq<(Seq<Seq<u8>>, Seq<u8>)> {
    s.map_values(|f: DiscoveredFile| file_model(f))
}

/// The grammar files among one directory's own file names, oldest entry
/// first, each placed at the given relative directory.
pub open spec fn grammar_files_at(files: Seq<Seq<u8>>, rel: Seq<Seq<u8>>) -> Seq<
    (Seq<Seq<u8>>, Seq<u8>),
>
    decreases files.len(),
{
    if files.len() == 0 {
        Seq::empty()
    } else {
        let rest = grammar_files_at(files.drop_last(), rel);
        if has_grammar_ext(files.last()) {
            rest.push((rel, files.last()))
        } else {
            rest
        }
    }
}

/// Everything discovery yields under one directory snapshot placed at the
/// given relative directory: the directory's own grammar files first, then
/// each non-symlink subdirectory's yield, in entry order.
pub open spec fn discovered_under(t: DirTree, rel: Seq<Seq<u8>>) -> Seq<(Seq<Seq<u8>>, Seq<u8>)>
    decreases t, 1int, 0int,
{
    grammar_files_at(t.files.deep_view(), rel) + discovered_in_subdirs(t.subdirs@, rel)
}

/// The concatenated yields of a list of subdirectory entries, first entry
/// first; a symlinked entry yields nothing.
pub open spec fn discovered_in_subdirs(subs: Seq<SubDir>, rel: Seq<Seq<u8>>) -> Seq<
    (Seq<Seq<u8>>, Seq<u8>),
>
    decreases subs, 0int, subs.len(),
{
    if subs.len() == 0 {
        Seq::empty()
    } else {
        let head = if subs.first().via_symlink {
            Seq::empty()
        } else {
            discovered_under(subs.first().tree, rel.push(subs.first().name@))
        };
        head + discovered_in_subdirs(subs.drop_first(), rel)
    }
}

/// Every file a directory's own listing yields carries the grammar
/// extension and sits at the given relative directory.
pub proof fn lemma_grammar_files_at_shape(files: Seq<Seq<u8>>, rel: Seq<Seq<u8>>)
    ensures
        forall|i: int|
            0 <= i < grammar_files_at(files, rel).len() ==> has_grammar_ext(
                (#[trigger] grammar_files_at(files, rel)[i]).1,
            ) && grammar_files_at(files, rel)[i].0 == rel,
    decreases files.len(),
{
    if files.len() > 0 {
        lemma_grammar_files_at_shape(files.drop_last(), rel);
        let rest = grammar_files_at(files.drop_last(), rel);
        let whole = grammar_files_at(files, rel);
        assert forall|i: int| 0 <= i < whole.len() implies has_grammar_ext(whole[i].1) && whole[i].0
            == rel by {
            if has_grammar_ext(files.last()) && i == rest.len() {
                assert(whole[i] == (rel, files.last()));
            } else {
                assert(whole[i] == rest[i]);
            }
        }
    }
}

/// Every file discovery yields carries the grammar extension.
pub proof fn lemma_discovered_grammar(t: DirTree, rel: Seq<Seq<u8>>)
    ensures
        forall|i: int|
            0 <= i < discovered_under(t, rel).len() ==> has_grammar_ext(
                (#[trigger] discovered_under(t, rel)[i]).1,
            ),
    decreases t, 1int, 0int,
{
    lemma_grammar_files_at_shape(t.files.deep_view(), rel);
    lemma_subdirs_grammar(t.subdirs@, rel);
    let own = grammar_files_at(t.files.deep_view(), rel);
    let below = discovered_in_subdirs(t.subdirs@, rel);
    let whole = discovered_under(t, rel);
    assert forall|i: int| 0 <= i < whole.len() implies has_grammar_ext(whole[i].1) by {
        if i < own.len() {
            assert(whole[i] == own[i]);
        } else {
            assert(whole[i] == below[i - own.len()]);
        }
    }
}

/// Every file discovery yields below a list of subdirectory entries
/// carries the grammar extension.
proof fn lemma_subdirs_grammar(subs: Seq<SubDir>, rel: Seq<Seq<u8>>)
    ensures
        forall|i: int|
            0 <= i < discovered_in_subdirs(subs, rel).len() ==> has_grammar_ext(
                (#[trigger] discovered_in_subdirs(subs, rel)[i]).1,
            ),
    decreases subs, 0int, subs.len(),
{
    if subs.len() > 0 {
        if !subs.first().via_symlink {
            lemma_discovered_grammar(subs.first().tree, rel.push(subs.first().name@));
        }
        lemma_subdirs_grammar(subs.drop_first(), rel);
        let head = if subs.first().via_symlink {
            Seq::<(Seq<Seq<u8>>, Seq<u8>)>::empty()
        } else {
            discovered_under(subs.first().tree, rel.push(subs.first().name@))
        };
        let rest = discovered_in_subdirs(subs.drop_first(), rel);
        let whole = discovered_in_subdirs(subs, rel);
        assert forall|i: int| 0 <= i < whole.len() implies has_grammar_ext(whole[i].1) by {
            if i < head.len() {
                assert(whole[i] == head[i]);
            } else {
                assert(whole[i] == rest[i - head.len()]);
            }
        }
    }
}

/// Copies a byte string.
pub fn copy_bytes(v: &Vec<u8>) -> (r: Vec<u8>)
    ensures
        r@ == v@,
{
    let mut r: Vec<u8> = Vec::new();
    let mut i: usize = 0;
    while i < v.len()
        invariant
            0 <= i <= v.len(),
            r@ == v@.subrange(0, i as int),
        decreases v.len() - i,
    {
        r.push(v[i]);
        proof {
            assert(v@.subrange(0, i + 1 as int) =~= v@.subrange(0, i as int).push(v@[i as int]));
        }
        i += 1;
    }
    proof {
        assert(v@.subrange(0, v@.len() as int) =~= v@);
    }
    r
}

/// Copies a list of byte strings.
pub fn copy_name_list(v: &Vec<Vec<u8>>) -> (r: Vec<Vec<u8>>)
    ensures
        r.deep_view() == v.deep_view(),
{
    let mut r: Vec<Vec<u8>> = Vec::new();
    let mut i: usize = 0;
    while i < v.len()
        invariant
            0 <= i <= v.len(),
            r@.len() == i,
            forall|j: int| 0 <= j < i ==> r.deep_view()[j] == v.deep_view()[j],
        decreases v.len() - i,
    {
        let ghost r_pre = r@;
        r.push(copy_bytes(&v[i]));
        proof {
            assert(r@[i as int]@ == v@[i as int]@);
            assert(forall|j: int| 0 <= j < i ==> r@[j] == r_pre[j]);
        }
        i += 1;
    }
    proof {
        assert(r.deep_view() =~= v.deep_view());
    }
    r
}

/// Appends this directory's own grammar files to the accumulator, in entry
/// order, each placed at the given relative directory.
fn collect_grammar_files(t: &DirTree, rel: &Vec<Vec<u8>>, out: &mut Vec<DiscoveredFile>)
    ensures
        file_models(final(out)@) == file_models(old(out)@) + grammar_files_at(
            t.files.deep_view(),
            rel.deep_view(),
        ),
{
    let mut i: usize = 0;
    while i < t.files.len()
        invariant
            0 <= i <= t.files.len(),
            file_models(out@) == file_models(old(out)@) + grammar_files_at(
                t.files.deep_view().take(i as int),
                rel.deep_view(),
            ),
        decreases t.files.len() - i,
    {
        let ghost pre = t.files.deep_view().take(i as int);
        let ghost post = t.files.deep_view().take(i + 1 as int);
        proof {
            assert(post.drop_last() =~= pre);
            assert(post.last() == t.files.deep_view()[i as int]);
            assert(t.files.deep_view()[i as int] =~= t.files@[i as int]@);
        }
        let is_grammar = crate::paths::is_grammar_file_name(&t.files[i]);
        if is_grammar {
            let ghost out_pre = out@;
            let f = DiscoveredFile { rel_dir: copy_name_list(rel), name: copy_bytes(&t.files[i]) };
            proof {
                assert(file_model(f) == (rel.deep_view(), t.files.deep_view()[i as int]));
            }
            out.push(f);
            proof {
                assert(file_models(out@) =~= file_models(out_pre).push(file_model(out@.last())));
            }
        }
        i += 1;
    }
    proof {
        assert(t.files.deep_view().take(t.files@.len() as int) =~= t.files.deep_view());
    }
}

/// Discovers every grammar file under a directory snapshot placed at the
/// given relative directory, appending to the accumulator: this
/// directory's grammar files in entry order, then each non-symlink
/// subdirectory's files, in entry order.
pub fn discover_into(t: &DirTree, rel: &Vec<Vec<u8>>, out: &mut Vec<DiscoveredFile>)
    ensures
        file_models(final(out)@) == file_models(old(out)@) + discovered_under(*t, rel.deep_view()),
    decreases *t, 1int, 0int,
{
    collect_grammar_files(t, rel, out);
    discover_subdirs_into(t, 0, rel, out);
    proof {
        assert(t.subdirs@.skip(0) =~= t.subdirs@);
    }
}

/// Discovers below the subdirectory entries from position `j` on.
fn discover_subdirs_into(t: &DirTree, j: usize, rel: &Vec<Vec<u8>>, out: &mut Vec<DiscoveredFile>)
    requires
        j <= t.subdirs.len(),
    ensures
        file_models(final(out)@) == file_models(old(out)@) + discovered_in_subdirs(
            t.subdirs@.skip(j as int),
            rel.deep_view(),
        ),
    decreases *t, 0int, t.subdirs.len() - j,
{
    let ghost tail = t.subdirs@.skip(j as int);
    if j == t.subdirs.len() {
        proof {
            assert(tail.len() == 0);
            assert(file_models(out@) =~= file_models(out@) + discovered_in_subdirs(
                tail,
                rel.deep_view(),
            ));
        }
        return ;
    }
    proof {
        assert(tail.first() == t.subdirs@[j as int]);
        assert(tail.drop_first() =~= t.subdirs@.skip(j + 1 as int));
    }
    let sd = &t.subdirs[j];
    if !sd.via_symlink {
        let mut rel2 = copy_name_list(rel);
        let ghost rel2_pre = rel2@;
        let nm = copy_bytes(&sd.name);
        let ghost nmv = nm@;
        rel2.push(nm);
        proof {
            assert forall|k: int| 0 <= k < rel2@.len() implies rel2.deep_view()[k] == rel
                .deep_view().push(sd.name@)[k] by {
                if k < rel2_pre.len() {
                    assert(rel2@[k] == rel2_pre[k]);
                    assert(rel2_pre[k]@ == rel.deep_view()[k]);
                } else {
                    assert(rel2@[k]@ == nmv);
                }
            }
            assert(rel2.deep_view() =~= rel.deep_view().push(sd.name@));
        }
        discover_into(&sd.tree, &rel2, out);
    }
    discover_subdirs_into(t, j + 1, rel, out);
    proof {
        assert(file_models(old(out)@) + discovered_in_subdirs(tail, rel.deep_view())
            =~= file_models(out@));
    }
}

/// Discovers every grammar file under a directory snapshot: the root's own
/// grammar files in entry order, then each non-symlink subdirectory's
/// files, recursively and in entry order.
pub fn discover(t: &DirTree) -> (r: Vec<DiscoveredFile>)
    ensures
        file_models(r@) == discovered_under(*t, Seq::empty()),
{
    let mut out: Vec<DiscoveredFile> = Vec::new();
    let rel: Vec<Vec<u8>> = Vec::new();
    proof {
        assert(rel.deep_view() =~= Seq::<Seq<u8>>::empty());
        assert(file_models(out@) =~= Seq::<(Seq<Seq<u8>>, Seq<u8>)>::empty());
    }
    discover_into(t, &rel, &mut out);
    proof {
        assert(Seq::<(Seq<Seq<u8>>, Seq<u8>)>::empty() + discovered_under(*t, Seq::empty())
            =~= discovered_under(*t, Seq::empty()));
    }
    out
}

/// Whether a grammar file named `name` sits at relative directory `d`
/// below this snapshot, reachable without crossing a symlinked entry.
pub open spec fn reaches_grammar_file(t: DirTree, d: Seq<Seq<u8>>, name: Seq<u8>) -> bool
    decreases t, 1int, 0int,
{
    if d.len() == 0 {
        t.files.deep_view().contains(name) && has_grammar_ext(name)
    } else {
        exists|i: int|
            0 <= i < t.subdirs@.len() && (#[trigger] t.subdirs@[i]).name@ == d.first()
                && !t.subdirs@[i].via_symlink && reaches_grammar_file(
                t.subdirs@[i].tree,
                d.drop_first(),
                name,
            )
    }
}

/// A directory's own listing yields a file exactly when that file is
/// listed and carries the grammar extension.
proof fn lemma_grammar_files_at_exact(files: Seq<Seq<u8>>, rel: Seq<Seq<u8>>, name: Seq<u8>)
    ensures
        grammar_files_at(files, rel).contains((rel, name)) <==> (files.contains(name)
            && has_grammar_ext(name)),
    decreases files.len(),
{
    if files.len() > 0 {
        lemma_grammar_files_at_exact(files.drop_last(), rel, name);
        let rest = grammar_files_at(files.drop_last(), rel);
        let whole = grammar_files_at(files, rel);
        if whole.contains((rel, name)) {
            let i = choose|i: int| 0 <= i < whole.len() && whole[i] == (rel, name);
            if has_grammar_ext(files.last()) && i == rest.len() {
                assert(files[files.len() - 1] == name);
            } else {
                assert(rest[i] == (rel, name));
                assert(rest.contains((rel, name)));
                let j = choose|j: int|
                    0 <= j < files.drop_last().len() && files.drop_last()[j] == name;
                assert(files[j] == name);
            }
            assert(files.contains(name) && has_grammar_ext(name));
        }
        if files.contains(name) && has_grammar_ext(name) {
            let i = choose|i: int| 0 <= i < files.len() && files[i] == name;
            if i < files.len() - 1 {
                assert(files.drop_last()[i] == name);
                assert(files.drop_last().contains(name));
                let j = choose|j: int| 0 <= j < rest.len() && rest[j] == (rel, name);
                assert(whole[j] == (rel, name));
                assert(whole.contains((rel, name)));
            } else {
                assert(files.last() == name);
                assert(whole.last() == (rel, name));
                assert(whole.contains((rel, name)));
            }
        }
    }
}

/// Whatever a directory's own listing yields sits directly at `rel`, is
/// listed, and carries the grammar extension.
proof fn lemma_grammar_files_at_member(files: Seq<Seq<u8>>, rel: Seq<Seq<u8>>, i: int)
    requires
        0 <= i < grammar_files_at(files, rel).len(),
    ensures
        grammar_files_at(files, rel)[i].0 == rel,
        files.contains(grammar_files_at(files, rel)[i].1),
        has_grammar_ext(grammar_files_at(files, rel)[i].1),
    decreases files.len(),
{
    let whole = grammar_files_at(files, rel);
    let rest = grammar_files_at(files.drop_last(), rel);
    if has_grammar_ext(files.last()) && i == rest.len() {
        assert(whole[i] == (rel, files.last()));
        assert(files[files.len() - 1] == files.last());
    } else {
        lemma_grammar_files_at_member(files.drop_last(), rel, i);
        assert(whole[i] == rest[i]);
        let n = rest[i].1;
        let j = choose|j: int| 0 <= j < files.drop_last().len() && files.drop_last()[j] == n;
        assert(files[j] == n);
    }
}

/// Every discovered entry's directory extends the relative directory the
/// snapshot was placed at, and the extension is a relative directory at
/// which the entry's file is indeed reachable.
pub proof fn lemma_discovered_sound(t: DirTree, rel: Seq<Seq<u8>>, i: int)
    requires
        0 <= i < discovered_under(t, rel).len(),
    ensures
        exists|d: Seq<Seq<u8>>|
            (#[trigger] (rel + d)) == discovered_under(t, rel)[i].0 && reaches_grammar_file(
                t,
                d,
                discovered_under(t, rel)[i].1,
            ),
    decreases t, 1int, 0int,
{
    let own = grammar_files_at(t.files.deep_view(), rel);
    let whole = discovered_under(t, rel);
    if i < own.len() {
        lemma_grammar_files_at_member(t.files.deep_view(), rel, i);
        assert(whole[i] == own[i]);
        let d = Seq::<Seq<u8>>::empty();
        assert(rel + d =~= rel);
        assert(reaches_grammar_file(t, d, whole[i].1));
    } else {
        assert(whole[i] == discovered_in_subdirs(t.subdirs@, rel)[i - own.len()]);
        assert(t.subdirs@.skip(0) =~= t.subdirs@);
        lemma_subdirs_sound(t, 0, rel, i - own.len());
    }
}

/// As `lemma_discovered_sound`, for the yield of the subdirectory entries
/// from position `j` on.
proof fn lemma_subdirs_sound(t: DirTree, j: int, rel: Seq<Seq<u8>>, i: int)
    requires
        0 <= j <= t.subdirs@.len(),
        0 <= i < discovered_in_subdirs(t.subdirs@.skip(j), rel).len(),
    ensures
        exists|d: Seq<Seq<u8>>|
            (#[trigger] (rel + d)) == discovered_in_subdirs(t.subdirs@.skip(j), rel)[i].0
                && reaches_grammar_file(t, d, discovered_in_subdirs(t.subdirs@.skip(j), rel)[i].1),
    decreases t, 0int, t.subdirs@.len() - j,
{
    let subs = t.subdirs@.skip(j);
    assert(subs.len() > 0);
    let sd = subs.first();
    assert(sd == t.subdirs@[j]);
    assert(subs.drop_first() =~= t.subdirs@.skip(j + 1));
    let head = if sd.via_symlink {
        Seq::<(Seq<Seq<u8>>, Seq<u8>)>::empty()
    } else {
        discovered_under(sd.tree, rel.push(sd.name@))
    };
    let rest = discovered_in_subdirs(t.subdirs@.skip(j + 1), rel);
    let whole = discovered_in_subdirs(subs, rel);
    if i < head.len() {
        assert(!sd.via_symlink);
        assert(whole[i] == head[i]);
        lemma_discovered_sound(sd.tree, rel.push(sd.name@), i);
        let d0 = choose|d0: Seq<Seq<u8>>|
            (#[trigger] (rel.push(sd.name@) + d0)) == head[i].0 && reaches_grammar_file(
                sd.tree,
                d0,
                head[i].1,
            );
        let d = seq![sd.name@] + d0;
        assert(rel + d =~= rel.push(sd.name@) + d0);
        assert(d.first() == sd.name@);
        assert(d.drop_first() =~= d0);
        assert(reaches_grammar_file(t, d, whole[i].1)) by {
            assert(0 <= j < t.subdirs@.len() && t.subdirs@[j].name@ == d.first()
                && !t.subdirs@[j].via_symlink && reaches_grammar_file(
                t.subdirs@[j].tree,
                d.drop_first(),
                whole[i].1,
            ));
        }
        assert(rel + d == whole[i].0);
    } else {
        assert(whole[i] == rest[i - head.len()]);
        lemma_subdirs_sound(t, j + 1, rel, i - head.len());
    }
}

/// Every reachable grammar file is discovered, at its directory appended
/// to the relative directory the snapshot is placed at.
pub proof fn lemma_reaches_discovered(t: DirTree, rel: Seq<Seq<u8>>, d: Seq<Seq<u8>>, name: Seq<u8>)
    requires
        reaches_grammar_file(t, d, name),
    ensures
        discovered_under(t, rel).contains((rel + d, name)),
    decreases t, 1int, 0int,
{
    let own = grammar_files_at(t.files.deep_view(), rel);
    let whole = discovered_under(t, rel);
    if d.len() == 0 {
        lemma_grammar_files_at_exact(t.files.deep_view(), rel, name);
        assert(own.contains((rel, name)));
        let i = choose|i: int| 0 <= i < own.len() && own[i] == (rel, name);
        assert(whole[i] == (rel, name));
        assert(rel + d =~= rel);
        assert(whole.contains((rel + d, name)));
    } else {
        let w = choose|w: int|
            0 <= w < t.subdirs@.len() && (#[trigger] t.subdirs@[w]).name@ == d.first()
                && !t.subdirs@[w].via_symlink && reaches_grammar_file(
                t.subdirs@[w].tree,
                d.drop_first(),
                name,
            );
        assert(t.subdirs@.skip(0) =~= t.subdirs@);
        lemma_reaches_subdirs(t, 0, w, rel, d, name);
        let below = discovered_in_subdirs(t.subdirs@, rel);
        let i = choose|i: int| 0 <= i < below.len() && below[i] == (rel + d, name);
        assert(whole[own.len() + i] == (rel + d, name));
        assert(whole.contains((rel + d, name)));
    }
}

/// As `lemma_reaches_discovered`, for the yield of the subdirectory entries
/// from position `j` on, when the witnessing entry sits at position `w`.
proof fn lemma_reaches_subdirs(
    t: DirTree,
    j: int,
    w: int,
    rel: Seq<Seq<u8>>,
    d: Seq<Seq<u8>>,
    name: Seq<u8>,
)
    requires
        0 <= j <= w < t.subdirs@.len(),
        d.len() > 0,
        t.subdirs@[w].name@ == d.first(),
        !t.subdirs@[w].via_symlink,
        reaches_grammar_file(t.subdirs@[w].tree, d.drop_first(), name),
    ensures
        discovered_in_subdirs(t.subdirs@.skip(j), rel).contains((rel + d, name)),
    decreases t, 0int, t.subdirs@.len() - j,
{
    let subs = t.subdirs@.skip(j);
    let sd = subs.first();
    assert(sd == t.subdirs@[j]);
    assert(subs.drop_first() =~= t.subdirs@.skip(j + 1));
    let head = if sd.via_symlink {
        Seq::<(Seq<Seq<u8>>, Seq<u8>)>::empty()
    } else {
        discovered_under(sd.tree, rel.push(sd.name@))
    };
    let rest = discovered_in_subdirs(t.subdirs@.skip(j + 1), rel);
    let whole = discovered_in_subdirs(subs, rel);
    if j == w {
        lemma_reaches_discovered(sd.tree, rel.push(sd.name@), d.drop_first(), name);
        assert(rel.push(sd.name@) + d.drop_first() =~= rel + d);
        assert(head.contains((rel + d, name)));
        let i = choose|i: int| 0 <= i < head.len() && head[i] == (rel + d, name);
        assert(whole[i] == (rel + d, name));
        assert(whole.contains((rel + d, name)));
    } else {
        lemma_reaches_subdirs(t, j + 1, w, rel, d, name);
        let i = choose|i: int| 0 <= i < rest.len() && rest[i] == (rel + d, name);
        assert(whole[head.len() + i] == (rel + d, name));
        assert(whole.contains((rel + d, name)));
    }
}

/// Discovery from a snapshot's root finds a file at a relative directory
/// exactly when a grammar file is reachable there without crossing a
/// symlinked entry.
pub proof fn lemma_discovery_exact(t: DirTree, d: Seq<Seq<u8>>, name: Seq<u8>)
    ensures
        discovered_under(t, Seq::<Seq<u8>>::empty()).contains((d, name))
            <==> reaches_grammar_file(t, d, name),
{
    let nil = Seq::<Seq<u8>>::empty();
    if discovered_under(t, nil).contains((d, name)) {
        let i = choose|i: int|
            0 <= i < discovered_under(t, nil).len() && discovered_under(t, nil)[i] == (d, name);
        lemma_discovered_sound(t, nil, i);
        let d0 = choose|d0: Seq<Seq<u8>>|
            (#[trigger] (nil + d0)) == discovered_under(t, nil)[i].0 && reaches_grammar_file(
                t,
                d0,
                discovered_under(t, nil)[i].1,
            );
        assert(nil + d0 =~= d0);
        assert(d0 == d);
    }
    if reaches_grammar_file(t, d, name) {
        lemma_reaches_discovered(t, nil, d, name);
        assert(nil + d =~= d);
    }
}


/// A snapshot as a real filesystem delivers it: no directory lists two
/// files or two subdirectories of the same name.
pub open spec fn wf_tree(t: DirTree) -> bool
    decreases t, 1int, 0int,
{
    &&& t.files.deep_view().no_duplicates()
    &&& (forall|i: int, j: int|
        0 <= i < j < t.subdirs@.len() ==> (#[trigger] t.subdirs@[i]).name@ != (
        #[trigger] t.subdirs@[j]).name@)
    &&& (forall|i: int| 0 <= i < t.subdirs@.len() ==> wf_tree((#[trigger] t.subdirs@[i]).tree))
}

/// A directory listing without duplicate names yields no file twice.
proof fn lemma_grammar_files_at_no_dup(files: Seq<Seq<u8>>, rel: Seq<Seq<u8>>)
    requires
        files.no_duplicates(),
    ensures
        grammar_files_at(files, rel).no_duplicates(),
    decreases files.len(),
{
    if files.len() > 0 {
        assert(files.drop_last().no_duplicates());
        lemma_grammar_files_at_no_dup(files.drop_last(), rel);
        let rest = grammar_files_at(files.drop_last(), rel);
        let whole = grammar_files_at(files, rel);
        if has_grammar_ext(files.last()) {
            assert(!rest.contains((rel, files.last()))) by {
                if rest.contains((rel, files.last())) {
                    lemma_grammar_files_at_exact(files.drop_last(), rel, files.last());
                    let j = choose|j: int|
                        0 <= j < files.drop_last().len() && files.drop_last()[j] == files.last();
                    assert(files[j] == files[files.len() - 1]);
                }
            }
            assert forall|p: int, q: int| 0 <= p < q < whole.len() implies whole[p] != whole[q] by {
                if q < rest.len() {
                    assert(whole[p] == rest[p] && whole[q] == rest[q]);
                } else {
                    assert(whole[q] == (rel, files.last()));
                    assert(whole[p] == rest[p]);
                    assert(rest.contains(rest[p]));
                }
            }
        }
    }
}

/// Every entry the subdirectories from position `j` on yield lies strictly
/// below `rel`, under the name of one of those subdirectories.
proof fn lemma_subdirs_entry_prefix(t: DirTree, j: int, rel: Seq<Seq<u8>>, i: int)
    requires
        0 <= j <= t.subdirs@.len(),
        0 <= i < discovered_in_subdirs(t.subdirs@.skip(j), rel).len(),
    ensures
        exists|k: int|
            j <= k < t.subdirs@.len() && {
                let e = discovered_in_subdirs(t.subdirs@.skip(j), rel)[i];
                &&& e.0.len() > rel.len()
                &&& e.0.subrange(0, rel.len() as int + 1) == rel.push((#[trigger] t.subdirs@[k]).name@)
            },
    decreases t, 0int, t.subdirs@.len() - j,
{
    let subs = t.subdirs@.skip(j);
    assert(subs.len() > 0);
    let sd = subs.first();
    assert(sd == t.subdirs@[j]);
    assert(subs.drop_first() =~= t.subdirs@.skip(j + 1));
    let head = if sd.via_symlink {
        Seq::<(Seq<Seq<u8>>, Seq<u8>)>::empty()
    } else {
        discovered_under(sd.tree, rel.push(sd.name@))
    };
    let rest = discovered_in_subdirs(t.subdirs@.skip(j + 1), rel);
    let whole = discovered_in_subdirs(subs, rel);
    if i < head.len() {
        assert(whole[i] == head[i]);
        lemma_discovered_sound(sd.tree, rel.push(sd.name@), i);
        let d0 = choose|d0: Seq<Seq<u8>>|
            (#[trigger] (rel.push(sd.name@) + d0)) == head[i].0 && reaches_grammar_file(
                sd.tree,
                d0,
                head[i].1,
            );
        assert(head[i].0.subrange(0, rel.len() as int + 1) =~= rel.push(sd.name@));
        assert(j <= j < t.subdirs@.len() && {
            let e = whole[i];
            &&& e.0.len() > rel.len()
            &&& e.0.subrange(0, rel.len() as int + 1) == rel.push(t.subdirs@[j].name@)
        });
    } else {
        assert(whole[i] == rest[i - head.len()]);
        lemma_subdirs_entry_prefix(t, j + 1, rel, i - head.len());
        let k = choose|k: int|
            j + 1 <= k < t.subdirs@.len() && {
                let e = rest[i - head.len()];
                &&& e.0.len() > rel.len()
                &&& e.0.subrange(0, rel.len() as int + 1) == rel.push((#[trigger] t.subdirs@[k]).name@)
            };
        assert(j <= k < t.subdirs@.len() && {
            let e = whole[i];
            &&& e.0.len() > rel.len()
            &&& e.0.subrange(0, rel.len() as int + 1) == rel.push(t.subdirs@[k].name@)
        });
    }
}

/// Under a well-formed snapshot, discovery yields each file exactly once.
pub proof fn lemma_discovered_no_dup(t: DirTree, rel: Seq<Seq<u8>>)
    requires
        wf_tree(t),
    ensures
        discovered_under(t, rel).no_duplicates(),
    decreases t, 1int, 0int,
{
    lemma_grammar_files_at_no_dup(t.files.deep_view(), rel);
    assert(t.subdirs@.skip(0) =~= t.subdirs@);
    lemma_subdirs_no_dup(t, 0, rel);
    let own = grammar_files_at(t.files.deep_view(), rel);
    let below = discovered_in_subdirs(t.subdirs@, rel);
    let whole = discovered_under(t, rel);
    assert forall|p: int, q: int| 0 <= p < q < whole.len() implies whole[p] != whole[q] by {
        if q < own.len() {
            assert(whole[p] == own[p] && whole[q] == own[q]);
        } else if p >= own.len() {
            assert(whole[p] == below[p - own.len()] && whole[q] == below[q - own.len()]);
        } else {
            assert(whole[p] == own[p] && whole[q] == below[q - own.len()]);
            lemma_grammar_files_at_member(t.files.deep_view(), rel, p);
            lemma_subdirs_entry_prefix(t, 0, rel, q - own.len());
            assert(whole[p].0.len() == rel.len());
            assert(whole[q].0.len() > rel.len());
        }
    }
}

/// Under a well-formed snapshot, the subdirectories from position `j` on
/// yield each file exactly once.
proof fn lemma_subdirs_no_dup(t: DirTree, j: int, rel: Seq<Seq<u8>>)
    requires
        wf_tree(t),
        0 <= j <= t.subdirs@.len(),
    ensures
        discovered_in_subdirs(t.subdirs@.skip(j), rel).no_duplicates(),
    decreases t, 0int, t.subdirs@.len() - j,
{
    let subs = t.subdirs@.skip(j);
    if subs.len() == 0 {
    } else {
        let sd = subs.first();
        assert(sd == t.subdirs@[j]);
        assert(subs.drop_first() =~= t.subdirs@.skip(j + 1));
        let head = if sd.via_symlink {
            Seq::<(Seq<Seq<u8>>, Seq<u8>)>::empty()
        } else {
            discovered_under(sd.tree, rel.push(sd.name@))
        };
        let rest = discovered_in_subdirs(t.subdirs@.skip(j + 1), rel);
        let whole = discovered_in_subdirs(subs, rel);
        if !sd.via_symlink {
            assert(wf_tree(sd.tree));
            lemma_discovered_no_dup(sd.tree, rel.push(sd.name@));
        }
        lemma_subdirs_no_dup(t, j + 1, rel);
        assert forall|p: int, q: int| 0 <= p < q < whole.len() implies whole[p] != whole[q] by {
            if q < head.len() {
                assert(whole[p] == head[p] && whole[q] == head[q]);
            } else if p >= head.len() {
                assert(whole[p] == rest[p - head.len()] && whole[q] == rest[q - head.len()]);
            } else {
                assert(whole[p] == head[p] && whole[q] == rest[q - head.len()]);
                lemma_discovered_sound(sd.tree, rel.push(sd.name@), p);
                let d0 = choose|d0: Seq<Seq<u8>>|
                    (#[trigger] (rel.push(sd.name@) + d0)) == head[p].0 && reaches_grammar_file(
                        sd.tree,
                        d0,
                        head[p].1,
                    );
                assert(head[p].0[rel.len() as int] == sd.name@);
                lemma_subdirs_entry_prefix(t, j + 1, rel, q - head.len());
                let k = choose|k: int|
                    j + 1 <= k < t.subdirs@.len() && {
                        let e = rest[q - head.len()];
                        &&& e.0.len() > rel.len()
                        &&& e.0.subrange(0, rel.len() as int + 1) == rel.push(
                            (#[trigger] t.subdirs@[k]).name@,
                        )
                    };
                assert(rest[q - head.len()].0[rel.len() as int] == rel.push(
                    t.subdirs@[k].name@,
                )[rel.len() as int]);
                assert(t.subdirs@[k].name@ != sd.name@);
            }
        }
    }
}

} // verus!
