//! Grammar-source recognition and input-to-output path mapping.
//!
//! A discovered file is carried as its directory components relative to the
//! searched root plus its file name, all byte strings. Mapping re-roots the
//! relative path under the output root and substitutes the grammar-source
//! extension with the generated-source extension; the directory components
//! are never touched.

use vstd::prelude::*;

verus! {

/// The grammar-source extension `.lalrpop`, as bytes.
pub open spec fn grammar_ext() -> Seq<u8> {
    seq![46u8, 108u8, 97u8, 108u8, 114u8, 112u8, 111u8, 112u8]
}

/// The generated-source extension `.rs`, as bytes.
pub open spec fn generated_ext() -> Seq<u8> {
    seq![46u8, 114u8, 115u8]
}

/// Whether a file name carries the grammar-source extension: it ends in
/// `.lalrpop` and has a nonempty stem before it.
pub open spec fn has_grammar_ext(name: Seq<u8>) -> bool {
    name.len() > grammar_ext().len() && name.subrange(
        name.len() - grammar_ext().len(),
        name.len() as int,
    ) == grammar_ext()
}

/// The generated artifact's file name: the stem with the generated-source
/// extension in place of the grammar one.
pub open spec fn generated_name(name: Seq<u8>) -> Seq<u8> {
    name.subrange(0, name.len() - grammar_ext().len()) + generated_ext()
}

/// A directory path: the root joined with each relative component in turn,
/// one separator per step.
pub open spec fn dir_path(root: Seq<u8>, rel: Seq<Seq<u8>>) -> Seq<u8>
    decreases rel.len(),
{
    if rel.len() == 0 {
        root
    } else {
        dir_path(root, rel.drop_last()) + seq![47u8] + rel.last()
    }
}

/// A file path: its directory joined with the file name.
pub open spec fn file_path(root: Seq<u8>, rel: Seq<Seq<u8>>, name: Seq<u8>) -> Seq<u8> {
    dir_path(root, rel) + seq![47u8] + name
}

/// One grammar-source file found by discovery, located by its directory
/// components relative to the searched root and its file name.
pub struct DiscoveredFile {
    /// Directory components between the searched root and the file.
    pub rel_dir: Vec<Vec<u8>>,
    /// The file's name, which carries the grammar-source extension.
    pub name: Vec<u8>,
}

/// Whether a file name carries the grammar-source extension.
pub fn is_grammar_file_name(name: &Vec<u8>) -> (r: bool)
    ensures
        r == has_grammar_ext(name@),
{
    let ext_len: usize = 8;
    if name.len() <= ext_len {
        assert(!has_grammar_ext(name@));
        return false;
    }
    let start = name.len() - ext_len;
    let ghost tail = name@.subrange(name@.len() - grammar_ext().len(), name@.len() as int);
    let ok = name[start] == 46u8 && name[start + 1] == 108u8 && name[start + 2] == 97u8
        && name[start + 3] == 108u8 && name[start + 4] == 114u8 && name[start + 5] == 112u8
        && name[start + 6] == 111u8 && name[start + 7] == 112u8;
    proof {
        assert(forall|k: int| 0 <= k < 8 ==> tail[k] == name@[start + k]);
        if ok {
            assert(tail =~= grammar_ext());
        } else {
            assert(tail != grammar_ext());
        }
    }
    ok
}

/// The generated artifact's file name for a grammar-source file name.
pub fn generated_file_name(name: &Vec<u8>) -> (r: Vec<u8>)
    requires
        has_grammar_ext(name@),
    ensures
        r@ == generated_name(name@),
{
    let stem_len = name.len() - 8;
    let mut r: Vec<u8> = Vec::new();
    let mut i: usize = 0;
    while i < stem_len
        invariant
            0 <= i <= stem_len,
            stem_len == name@.len() - 8,
            stem_len < name@.len(),
            r@ == name@.subrange(0, i as int),
        decreases stem_len - i,
    {
        r.push(name[i]);
        proof {
            assert(name@.subrange(0, i + 1 as int) =~= name@.subrange(0, i as int).push(
                name@[i as int],
            ));
        }
        i += 1;
    }
    r.push(46u8);
    r.push(114u8);
    r.push(115u8);
    proof {
        assert(r@ =~= generated_name(name@));
    }
    r
}

/// Joins a root with relative directory components.
pub fn join_dir_path(root: &Vec<u8>, rel: &Vec<Vec<u8>>) -> (r: Vec<u8>)
    ensures
        r@ == dir_path(root@, rel.deep_view()),
{
    let mut r: Vec<u8> = Vec::new();
    let mut i: usize = 0;
    while i < root.len()
        invariant
            0 <= i <= root.len(),
            r@ == root@.subrange(0, i as int),
        decreases root.len() - i,
    {
        r.push(root[i]);
        proof {
            assert(root@.subrange(0, i + 1 as int) =~= root@.subrange(0, i as int).push(
                root@[i as int],
            ));
        }
        i += 1;
    }
    proof {
        assert(root@.subrange(0, root@.len() as int) =~= root@);
        assert(r@ == dir_path(root@, rel.deep_view().take(0)));
    }
    let mut c: usize = 0;
    while c < rel.len()
        invariant
            0 <= c <= rel.len(),
            r@ == dir_path(root@, rel.deep_view().take(c as int)),
        decreases rel.len() - c,
    {
        let ghost pre = rel.deep_view().take(c as int);
        let ghost post = rel.deep_view().take(c + 1 as int);
        proof {
            assert(post.drop_last() =~= pre);
            assert(post.last() == rel.deep_view()[c as int]);
            assert(rel.deep_view()[c as int] =~= rel@[c as int]@);
        }
        let ghost r_mid = r@;
        r.push(47u8);
        let comp = &rel[c];
        let mut k: usize = 0;
        while k < comp.len()
            invariant
                0 <= k <= comp.len(),
                r@ == r_mid + seq![47u8] + comp@.subrange(0, k as int),
            decreases comp.len() - k,
        {
            r.push(comp[k]);
            proof {
                assert(comp@.subrange(0, k + 1 as int) =~= comp@.subrange(0, k as int).push(
                    comp@[k as int],
                ));
                assert(r_mid + seq![47u8] + comp@.subrange(0, k + 1 as int) =~= (r_mid + seq![47u8]
                    + comp@.subrange(0, k as int)).push(comp@[k as int]));
            }
            k += 1;
        }
        proof {
            assert(comp@.subrange(0, comp@.len() as int) =~= comp@);
            assert(r@ == dir_path(root@, post));
        }
        c += 1;
    }
    proof {
        assert(rel.deep_view().take(rel@.len() as int) =~= rel.deep_view());
    }
    r
}

/// Joins a root, relative directory components and a file name into a path.
pub fn join_file_path(root: &Vec<u8>, rel: &Vec<Vec<u8>>, name: &Vec<u8>) -> (r: Vec<u8>)
    ensures
        r@ == file_path(root@, rel.deep_view(), name@),
{
    let mut r = join_dir_path(root, rel);
    let ghost dir = r@;
    r.push(47u8);
    let mut k: usize = 0;
    while k < name.len()
        invariant
            0 <= k <= name.len(),
            r@ == dir + seq![47u8] + name@.subrange(0, k as int),
        decreases name.len() - k,
    {
        r.push(name[k]);
        proof {
            assert(name@.subrange(0, k + 1 as int) =~= name@.subrange(0, k as int).push(
                name@[k as int],
            ));
            assert(dir + seq![47u8] + name@.subrange(0, k + 1 as int) =~= (dir + seq![47u8] + name@
                .subrange(0, k as int)).push(name@[k as int]));
        }
        k += 1;
    }
    proof {
        assert(name@.subrange(0, name@.len() as int) =~= name@);
    }
    r
}

/// The full path of a discovered file below the searched root.
pub fn input_path(in_root: &Vec<u8>, file: &DiscoveredFile) -> (r: Vec<u8>)
    ensures
        r@ == file_path(in_root@, file.rel_dir.deep_view(), file.name@),
{
    join_file_path(in_root, &file.rel_dir, &file.name)
}

/// The full path of the artifact a discovered file maps to: the same
/// relative directory re-rooted under the output root, the extension
/// substituted.
pub fn map_output_path(out_root: &Vec<u8>, file: &DiscoveredFile) -> (r: Vec<u8>)
    requires
        has_grammar_ext(file.name@),
    ensures
        r@ == file_path(out_root@, file.rel_dir.deep_view(), generated_name(file.name@)),
{
    let gen = generated_file_name(&file.name);
    join_file_path(out_root, &file.rel_dir, &gen)
}

/// When input and output roots coincide, mapping changes nothing but the
/// file name's extension: input and output lie in the very same directory,
/// and the mapped name is the input's stem with the generated extension.
pub proof fn lemma_in_source_tree_mapping(root: Seq<u8>, rel: Seq<Seq<u8>>, name: Seq<u8>)
    requires
        has_grammar_ext(name),
    ensures
        file_path(root, rel, generated_name(name)) == dir_path(root, rel) + seq![47u8]
            + generated_name(name),
        file_path(root, rel, name) == dir_path(root, rel) + seq![47u8] + name,
        generated_name(name).subrange(0, name.len() - grammar_ext().len()) == name.subrange(
            0,
            name.len() - grammar_ext().len(),
        ),
        generated_name(name) == name.subrange(0, name.len() - grammar_ext().len())
            + generated_ext(),
{
    assert(generated_name(name).subrange(0, name.len() - grammar_ext().len()) =~= name.subrange(
        0,
        name.len() - grammar_ext().len(),
    ));
}

} // verus!
