//! The library's file tree: documents placed under their directories by
//! relative path, directories first and names in case-insensitive order at
//! every level.

use vstd::prelude::*;

use crate::ordering::{lemma_vkey_pos, sorted_by, vkey_pos, vsort, vsort_sorted_permutation};
use crate::text::{
    chars_lt, chars_of, join, join_chars, lit, lowercase, seq_lt, seqs_view, slice_chars,
    split_char, split_chars, str_eq, str_to_lowercase, string_of, lemma_split_nonempty,
};

verus! {

pub struct TreeNode {
    pub name: String,
    pub path: String,
    pub is_dir: bool,
    pub children: Vec<TreeNode>,
}

pub struct TreeV {
    pub name: Seq<char>,
    pub path: Seq<char>,
    pub is_dir: bool,
    pub children: Seq<TreeV>,
}

pub open spec fn tree_v(n: TreeNode) -> TreeV
    decreases n,
{
    TreeV {
        name: n.name@,
        path: n.path@,
        is_dir: n.is_dir,
        children: Seq::new(
            n.children@.len(),
            |i: int|
                if 0 <= i < n.children@.len() {
                    tree_v(n.children@[i])
                } else {
                    TreeV { name: seq![], path: seq![], is_dir: false, children: seq![] }
                },
        ),
    }
}

pub open spec fn trees_v(v: Seq<TreeNode>) -> Seq<TreeV> {
    Seq::new(v.len(), |i: int| tree_v(v[i]))
}

proof fn lemma_tree_children(n: TreeNode)
    ensures
        tree_v(n).children == trees_v(n.children@),
{
    assert(tree_v(n).children =~= trees_v(n.children@));
}

// ─── Placing documents ──────────────────────────────────────────────────────

/// A document's node: named by its title, at its path.
pub open spec fn leaf(title: Seq<char>, rel: Seq<char>) -> TreeV {
    TreeV { name: title, path: rel, is_dir: false, children: seq![] }
}

/// The first directory child with this name.
pub open spec fn dir_index(cs: Seq<TreeV>, name: Seq<char>) -> Option<int>
    decreases cs.len(),
{
    if cs.len() == 0 {
        None
    } else {
        match dir_index(cs.drop_last(), name) {
            Some(k) => Some(k),
            None => if cs.last().is_dir && cs.last().name == name {
                Some(cs.len() - 1)
            } else {
                None
            },
        }
    }
}

proof fn lemma_dir_index(cs: Seq<TreeV>, name: Seq<char>)
    ensures
        dir_index(cs, name) matches Some(k) ==> 0 <= k < cs.len(),
    decreases cs.len(),
{
    if cs.len() > 0 {
        lemma_dir_index(cs.drop_last(), name);
    }
}

/// A document placed below `cs` along its path segments from `i` on: the
/// last segment is the document; each one before it is a directory,
/// reused when one of that name is there, else added (its path is the
/// segments so far joined by `/`).
pub open spec fn insert_at(cs: Seq<TreeV>, parts: Seq<Seq<char>>, i: int, title: Seq<char>, rel: Seq<char>) -> Seq<
    TreeV,
>
    decreases parts.len() - i,
{
    if i + 1 >= parts.len() || i < 0 {
        cs.push(leaf(title, rel))
    } else {
        let dname = parts[i];
        match dir_index(cs, dname) {
            Some(k) => if 0 <= k < cs.len() {
                cs.update(
                    k,
                    TreeV { children: insert_at(cs[k].children, parts, i + 1, title, rel), ..cs[k] },
                )
            } else {
                cs
            },
            None => cs.push(
                TreeV {
                    name: dname,
                    path: join(parts.take(i + 1), "/"@),
                    is_dir: true,
                    children: insert_at(seq![], parts, i + 1, title, rel),
                },
            ),
        }
    }
}

fn find_dir(cs: &Vec<TreeNode>, name: &[char]) -> (r: Option<usize>)
    ensures
        match r {
            Some(k) => dir_index(trees_v(cs@), name@) == Some(k as int),
            None => dir_index(trees_v(cs@), name@) is None,
        },
{
    let ghost tv = trees_v(cs@);
    let nm = string_of(name);
    let mut i: usize = 0;
    while i < cs.len()
        invariant
            i <= cs@.len(),
            tv == trees_v(cs@),
            nm@ == name@,
            dir_index(tv.take(i as int), name@) is None,
        decreases cs@.len() - i,
    {
        assert(tv.take(i + 1).drop_last() =~= tv.take(i as int));
        assert(tv.take(i + 1).last() == tree_v(cs@[i as int]));
        if cs[i].is_dir && str_eq(cs[i].name.as_str(), nm.as_str()) {
            proof {
                lemma_dir_index_prefix(tv, name@, i + 1);
            }
            return Some(i);
        }
        i = i + 1;
    }
    assert(tv.take(cs@.len() as int) =~= tv);
    None
}

proof fn lemma_dir_index_prefix(cs: Seq<TreeV>, name: Seq<char>, k: int)
    requires
        0 < k <= cs.len(),
        dir_index(cs.take(k), name) is Some,
    ensures
        dir_index(cs, name) == dir_index(cs.take(k), name),
    decreases cs.len() - k,
{
    if k < cs.len() {
        assert(cs.take(k + 1).drop_last() =~= cs.take(k));
        lemma_dir_index_prefix(cs, name, k + 1);
    } else {
        assert(cs.take(k) =~= cs);
    }
}

fn insert_into(
    cs: Vec<TreeNode>,
    parts: &Vec<Vec<char>>,
    i: usize,
    title: &str,
    rel: &str,
) -> (r: Vec<TreeNode>)
    requires
        i < parts@.len(),
    ensures
        trees_v(r@) == insert_at(trees_v(cs@), seqs_view(parts@), i as int, title@, rel@),
    decreases parts@.len() - i,
{
    let ghost tv = trees_v(cs@);
    let ghost pv = seqs_view(parts@);
    let mut cs = cs;
    let plen = parts.len();
    if i + 1 >= plen {
        let l = TreeNode { name: lit(title), path: lit(rel), is_dir: false, children: Vec::new() };
        assert(tree_v(l) == leaf(title@, rel@)) by {
            assert(tree_v(l).children =~= Seq::<TreeV>::empty());
        }
        cs.push(l);
        assert(trees_v(cs@) =~= tv.push(leaf(title@, rel@)));
        return cs;
    }
    assert(pv[i as int] == parts@[i as int]@);
    match find_dir(&cs, parts[i].as_slice()) {
        Some(k) => {
            proof {
                lemma_dir_index(tv, pv[i as int]);
            }
            let old = cs.remove(k);
            proof {
                lemma_tree_children(old);
            }
            let kids = insert_into(old.children, parts, i + 1, title, rel);
            let node = TreeNode { name: old.name, path: old.path, is_dir: old.is_dir, children: kids };
            proof {
                lemma_tree_children(node);
            }
            cs.insert(k, node);
            assert(trees_v(cs@) =~= tv.update(
                k as int,
                TreeV {
                    children: insert_at(tv[k as int].children, pv, i + 1, title@, rel@),
                    ..tv[k as int]
                },
            ));
            cs
        },
        None => {
            let mut segs: Vec<Vec<char>> = Vec::new();
            let mut j: usize = 0;
            while j <= i
                invariant
                    j <= i + 1,
                    i + 1 < plen,
                    plen == parts@.len(),
                    pv == seqs_view(parts@),
                    seqs_view(segs@) =~= pv.take(j as int),
                decreases i + 1 - j,
            {
                let s = slice_chars(parts[j].as_slice(), 0, parts[j].len());
                assert(s@ =~= pv[j as int]);
                let ghost prev = seqs_view(segs@);
                segs.push(s);
                assert(seqs_view(segs@) =~= prev.push(pv[j as int]));
                j = j + 1;
            }
            let dir_path = string_of(join_chars(&segs, "/").as_slice());
            let dname = string_of(parts[i].as_slice());
            let empty: Vec<TreeNode> = Vec::new();
            assert(trees_v(empty@) =~= Seq::<TreeV>::empty());
            let kids = insert_into(empty, parts, i + 1, title, rel);
            let node = TreeNode { name: dname, path: dir_path, is_dir: true, children: kids };
            proof {
                lemma_tree_children(node);
            }
            cs.push(node);
            assert(trees_v(cs@) =~= tv.push(tree_v(node)));
            cs
        },
    }
}

// ─── Ordering ───────────────────────────────────────────────────────────────

/// Directories before documents; then names compared lower-cased.
pub open spec fn node_before(a: TreeV, b: TreeV) -> bool {
    (a.is_dir && !b.is_dir) || (a.is_dir == b.is_dir && seq_lt(
        str_to_lowercase(a.name),
        str_to_lowercase(b.name),
    ))
}

/// The text a node is ordered by: `0` for a directory or `1` for a
/// document, then its name lower-cased.
pub open spec fn node_key(t: TreeV) -> Seq<char> {
    (if t.is_dir {
        seq!['0']
    } else {
        seq!['1']
    }) + str_to_lowercase(t.name)
}

pub open spec fn node_order() -> spec_fn(TreeV) -> Seq<char> {
    |t: TreeV| node_key(t)
}

proof fn lemma_node_key(a: TreeV, b: TreeV)
    ensures
        node_before(a, b) == seq_lt(node_order()(a), node_order()(b)),
{
    let ka = node_key(a);
    let kb = node_key(b);
    assert(ka[0] == (if a.is_dir { '0' } else { '1' }));
    assert(kb[0] == (if b.is_dir { '0' } else { '1' }));
    assert(ka.drop_first() =~= str_to_lowercase(a.name));
    assert(kb.drop_first() =~= str_to_lowercase(b.name));
}

/// The stable sort of one level.
pub open spec fn level_sort(s: Seq<TreeV>) -> Seq<TreeV> {
    vsort(s, node_order())
}

/// Every level sorted.
pub open spec fn sorted_tree(s: Seq<TreeV>) -> Seq<TreeV>
    decreases s, 1int,
{
    level_sort(sorted_below(s))
}

/// Each node of `s` with its own subtree sorted, the level itself as it was.
pub open spec fn sorted_below(s: Seq<TreeV>) -> Seq<TreeV>
    decreases s, 0int,
{
    if s.len() == 0 {
        seq![]
    } else {
        sorted_below(s.subrange(0, s.len() - 1)).push(
            TreeV { children: sorted_tree(s[s.len() - 1].children), ..s[s.len() - 1] },
        )
    }
}

fn sort_level(v: Vec<TreeNode>) -> (r: Vec<TreeNode>)
    ensures
        trees_v(r@) == level_sort(trees_v(v@)),
{
    let ghost input = trees_v(v@);
    let mut rest = v;
    let mut out: Vec<TreeNode> = Vec::new();
    let mut keys: Vec<(bool, Vec<char>)> = Vec::new();
    let n = rest.len();
    let mut k: usize = 0;
    assert(trees_v(rest@) =~= input.skip(0));
    while rest.len() > 0
        invariant
            k <= n,
            n == input.len(),
            trees_v(rest@) == input.skip(k as int),
            rest@.len() == n - k,
            trees_v(out@) == level_sort(input.take(k as int)),
            keys@.len() == out@.len(),
            forall|j: int|
                0 <= j < out@.len() ==> (#[trigger] keys@[j]).0 == out@[j].is_dir && keys@[j].1@
                    == str_to_lowercase(out@[j].name@),
        decreases rest@.len(),
    {
        assert(input.take(k + 1).drop_last() =~= input.take(k as int));
        assert(trees_v(rest@)[0] == tree_v(rest@[0]));
        let ghost rprev = rest@;
        let x = rest.remove(0);
        assert forall|j: int| 0 <= j < rest@.len() implies #[trigger] trees_v(rest@)[j] == input.skip(
            k + 1,
        )[j] by {
            assert(rest@[j] == rprev[j + 1]);
            assert(trees_v(rprev)[j + 1] == input.skip(k as int)[j + 1]);
        }
        assert(trees_v(rest@) =~= input.skip(k + 1));
        assert(tree_v(x) == input[k as int]);
        let xd = x.is_dir;
        let xl = chars_of(lowercase(x.name.as_str()).as_str());
        let ghost t = trees_v(out@);
        proof {
            lemma_vkey_pos(t, tree_v(x), node_order());
        }
        let mut pos: usize = 0;
        assert(t.skip(0) =~= t);
        while pos < out.len() && !((xd && !keys[pos].0) || (xd == keys[pos].0 && chars_lt(
            xl.as_slice(),
            keys[pos].1.as_slice(),
        )))
            invariant
                pos <= out@.len(),
                t == trees_v(out@),
                keys@.len() == out@.len(),
                forall|j: int|
                    0 <= j < out@.len() ==> (#[trigger] keys@[j]).0 == out@[j].is_dir && keys@[j].1@
                        == str_to_lowercase(out@[j].name@),
                xd == x.is_dir,
                xl@ == str_to_lowercase(x.name@),
                vkey_pos(t, tree_v(x), node_order()) == pos + vkey_pos(
                    t.skip(pos as int),
                    tree_v(x),
                    node_order(),
                ),
            decreases out@.len() - pos,
        {
            assert(keys@[pos as int].0 == out@[pos as int].is_dir);
            assert(t.skip(pos as int)[0] == tree_v(out@[pos as int]));
            proof {
                lemma_node_key(tree_v(x), tree_v(out@[pos as int]));
            }
            assert(t.skip(pos as int).drop_first() =~= t.skip(pos + 1));
            pos = pos + 1;
        }
        proof {
            if pos < out@.len() {
                assert(keys@[pos as int].0 == out@[pos as int].is_dir);
                assert(t.skip(pos as int)[0] == tree_v(out@[pos as int]));
                lemma_node_key(tree_v(x), tree_v(out@[pos as int]));
            } else {
                assert(t.skip(pos as int) =~= Seq::<TreeV>::empty());
            }
        }
        let ghost xv = tree_v(x);
        let ghost kprev = keys@;
        out.insert(pos, x);
        keys.insert(pos, (xd, xl));
        assert(trees_v(out@) =~= t.insert(pos as int, xv));
        assert forall|j: int|
            0 <= j < out@.len() implies (#[trigger] keys@[j]).0 == out@[j].is_dir && keys@[j].1@
            == str_to_lowercase(out@[j].name@) by {
            if j > pos {
                assert(keys@[j] == kprev[j - 1]);
            }
        }
        k = k + 1;
    }
    assert(input.take(n as int) =~= input);
    out
}

fn sort_nodes(v: Vec<TreeNode>) -> (r: Vec<TreeNode>)
    ensures
        trees_v(r@) == sorted_tree(trees_v(v@)),
    decreases v,
{
    let ghost input = trees_v(v@);
    let mut src = v;
    let ghost orig = src@;
    let mut done: Vec<TreeNode> = Vec::new();
    let n = src.len();
    let mut i: usize = 0;
    while src.len() > 0
        invariant
            i <= n,
            n == orig.len(),
            src@ == orig.skip(i as int),
            orig == v@,
            input == trees_v(orig),
            trees_v(done@) == sorted_below(input.take(i as int)),
        decreases src@.len(),
    {
        let node = src.remove(0);
        assert(orig.skip(i as int).drop_first() =~= orig.skip(i + 1));
        assert(input.take(i + 1).subrange(0, i as int) =~= input.take(i as int));
        assert(node == orig[i as int]);
        proof {
            lemma_tree_children(node);
            assert(decreases_to!(v => v@));
            assert(decreases_to!(v@ => v@[i as int]));
            assert(decreases_to!(v@[i as int] => v@[i as int].children));
        }
        let kids = sort_nodes(node.children);
        let fresh = TreeNode { name: node.name, path: node.path, is_dir: node.is_dir, children: kids };
        proof {
            lemma_tree_children(fresh);
        }
        let ghost before = trees_v(done@);
        done.push(fresh);
        assert(trees_v(done@) =~= before.push(tree_v(fresh)));
        i = i + 1;
    }
    assert(input.take(n as int) =~= input);
    sort_level(done)
}

/// The library tree of documents given as (relative path, title), in
/// order: every document placed by its path, every level sorted.
pub open spec fn build_tree_spec(files: Seq<(Seq<char>, Seq<char>)>) -> Seq<TreeV>
    decreases files.len(),
{
    sorted_tree(placed(files))
}

pub open spec fn placed(files: Seq<(Seq<char>, Seq<char>)>) -> Seq<TreeV>
    decreases files.len(),
{
    if files.len() == 0 {
        seq![]
    } else {
        let (rel, title) = files.last();
        insert_at(placed(files.drop_last()), split_char(rel, '/'), 0, title, rel)
    }
}

pub open spec fn files_v(files: Seq<(String, String)>) -> Seq<(Seq<char>, Seq<char>)> {
    files.map_values(|f: (String, String)| (f.0@, f.1@))
}

/// Builds the library tree from (relative path, title) pairs.
pub fn build_tree(files: &Vec<(String, String)>) -> (r: Vec<TreeNode>)
    ensures
        trees_v(r@) == build_tree_spec(files_v(files@)),
{
    let ghost fv = files_v(files@);
    let mut root: Vec<TreeNode> = Vec::new();
    let mut i: usize = 0;
    assert(trees_v(root@) =~= placed(fv.take(0)));
    while i < files.len()
        invariant
            i <= files@.len(),
            fv == files_v(files@),
            trees_v(root@) == placed(fv.take(i as int)),
        decreases files@.len() - i,
    {
        assert(fv.take(i + 1).drop_last() =~= fv.take(i as int));
        assert(fv.take(i + 1).last() == (files@[i as int].0@, files@[i as int].1@));
        let (rel, title) = &files[i];
        let parts = split_chars(chars_of(rel.as_str()).as_slice(), '/');
        proof {
            lemma_split_nonempty(rel@, '/');
        }
        root = insert_into(root, &parts, 0, title.as_str(), rel.as_str());
        i = i + 1;
    }
    assert(fv.take(files@.len() as int) =~= fv);
    sort_nodes(root)
}


// ─── What the tree promises ─────────────────────────────────────────────────

/// Every level in order: directories first, then names ascending
/// case-insensitively, and so below each node.
pub open spec fn levels_sorted(s: Seq<TreeV>) -> bool
    decreases s,
{
    &&& sorted_by(s, node_order())
    &&& forall|i: int| 0 <= i < s.len() ==> levels_sorted(#[trigger] s[i].children)
}

proof fn lemma_sorted_below(s: Seq<TreeV>)
    ensures
        sorted_below(s).len() == s.len(),
        forall|i: int|
            0 <= i < s.len() ==> #[trigger] sorted_below(s)[i] == (TreeV {
                children: sorted_tree(s[i].children),
                ..s[i]
            }),
    decreases s.len(),
{
    if s.len() > 0 {
        let init = s.subrange(0, s.len() - 1);
        lemma_sorted_below(init);
        assert forall|i: int| 0 <= i < s.len() implies #[trigger] sorted_below(s)[i] == (TreeV {
            children: sorted_tree(s[i].children),
            ..s[i]
        }) by {
            if i < s.len() - 1 {
                assert(init[i] == s[i]);
            }
        }
    }
}

/// A sorted library tree is sorted at every level.
pub proof fn sorted_tree_levels(s: Seq<TreeV>)
    ensures
        levels_sorted(sorted_tree(s)),
    decreases s,
{
    broadcast use vstd::seq_lib::to_multiset_contains;

    let b = sorted_below(s);
    let u = sorted_tree(s);
    lemma_sorted_below(s);
    vsort_sorted_permutation(b, node_order());
    assert forall|j: int| 0 <= j < u.len() implies levels_sorted(#[trigger] u[j].children) by {
        assert(u.to_multiset().count(u[j]) > 0) by {
            assert(u.contains(u[j]));
        }
        assert(b.contains(u[j]));
        let i = choose|i: int| 0 <= i < b.len() && b[i] == u[j];
        assert(b[i] == u[j]);
        assert(decreases_to!(s => s[i]));
        sorted_tree_levels(s[i].children);
    }
}

/// Every level of the tree that `build_tree` gives is in order.
pub proof fn build_tree_levels_sorted(files: Seq<(Seq<char>, Seq<char>)>)
    ensures
        levels_sorted(build_tree_spec(files)),
{
    sorted_tree_levels(placed(files));
}

} // verus!
