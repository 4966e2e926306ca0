//! The namespace directory: a hierarchical, path-addressed tree of
//! nodes grouping components and releases.
//!
//! Paths are '/'-delimited; empty segments are ignored, so "/a//b/" names
//! the same namespace as "a/b".  The tree is held as plain recursive
//! data; a write rebuilds only the spine from the edited node up to the
//! root and moves every unrelated subtree over unchanged, which the
//! contracts state as: every namespace off the edited path is looked up
//! exactly as before.

use vstd::prelude::*;
use vstd::seq_lib::*;
use crate::env::str_eq;

verus! {

/// One node of the namespace tree: its own name and its children, in
/// creation order.
#[derive(Debug, PartialEq)]
pub struct NamespaceNode {
    pub name: String,
    pub children: Vec<NamespaceNode>,
}

/// Why a namespace operation failed.
#[derive(Debug, Clone, Copy, PartialEq, Eq, Structural)]
pub enum NamespaceError {
    NotFound,
    AlreadyExists,
    InvalidPath,
    PermissionDenied,
}

/// The first child named `name`, reading the children front to back.
pub open spec fn child_node(s: Seq<NamespaceNode>, name: Seq<char>) -> Option<NamespaceNode>
    decreases s.len(),
{
    if s.len() == 0 {
        None
    } else if s[0].name@ == name {
        Some(s[0])
    } else {
        child_node(s.drop_first(), name)
    }
}

/// The node reached from `n` by walking `path` segment by segment.
pub open spec fn lookup(n: NamespaceNode, path: Seq<Seq<char>>) -> Option<NamespaceNode>
    decreases path.len(),
{
    if path.len() == 0 {
        Some(n)
    } else {
        match child_node(n.children@, path[0]) {
            None => None,
            Some(c) => lookup(c, path.drop_first()),
        }
    }
}

/// Whether walking `path` from `n` reaches a node.
pub open spec fn path_exists(n: NamespaceNode, path: Seq<Seq<char>>) -> bool {
    lookup(n, path) is Some
}

/// Well-formedness of a namespace tree: no node has two children with
/// the same name.
pub open spec fn ns_wf(n: NamespaceNode) -> bool
    decreases n,
{
    &&& (forall|i: int, j: int|
        0 <= i < j < n.children@.len() ==> n.children@[i].name@ != n.children@[j].name@)
    &&& (forall|i: int| 0 <= i < n.children@.len() ==> ns_wf(#[trigger] n.children@[i]))
}

/// The names of a node's children, in order.
pub open spec fn child_names(n: NamespaceNode) -> Seq<Seq<char>> {
    n.children@.map_values(|c: NamespaceNode| c.name@)
}

/// The views of a sequence of owned strings.
pub open spec fn seg_views(v: Seq<String>) -> Seq<Seq<char>> {
    v.map_values(|s: String| s@)
}

/// How many leading characters of `s` belong to its first segment.
pub open spec fn seg_len(s: Seq<char>) -> nat
    decreases s.len(),
{
    if s.len() == 0 || s[0] == '/' {
        0
    } else {
        1 + seg_len(s.drop_first())
    }
}

/// The non-empty '/'-separated segments of a path, in order.
pub open spec fn split_path(s: Seq<char>) -> Seq<Seq<char>>
    decreases s.len(),
    via split_path_decreases
{
    if s.len() == 0 {
        Seq::empty()
    } else if s[0] == '/' {
        split_path(s.drop_first())
    } else {
        seq![s.take(seg_len(s) as int)] + split_path(s.skip(seg_len(s) as int))
    }
}

#[via_fn]
proof fn split_path_decreases(s: Seq<char>) {
    if s.len() != 0 && s[0] != '/' {
        lemma_seg_len_bound(s);
        assert(seg_len(s) >= 1);
    }
}

/// The first segment never runs past the end of the path.
proof fn lemma_seg_len_bound(s: Seq<char>)
    ensures
        seg_len(s) <= s.len(),
    decreases s.len(),
{
    if s.len() != 0 && s[0] != '/' {
        lemma_seg_len_bound(s.drop_first());
    }
}

/// A walk that reaches a node reaches one along every prefix of its
/// path.
pub proof fn lemma_lookup_prefix(n: NamespaceNode, path: Seq<Seq<char>>, prefix: Seq<Seq<char>>)
    requires
        path_exists(n, path),
        prefix.is_prefix_of(path),
    ensures
        path_exists(n, prefix),
    decreases path.len(),
{
    if prefix.len() != 0 {
        let c = child_node(n.children@, path[0])->Some_0;
        assert(prefix[0] == path[0]);
        assert(prefix.drop_first().is_prefix_of(path.drop_first()));
        lemma_lookup_prefix(c, path.drop_first(), prefix.drop_first());
    }
}

/// The first child with a first-match index is what `child_node` finds.
proof fn lemma_child_found(s: Seq<NamespaceNode>, i: int, name: Seq<char>)
    requires
        0 <= i < s.len(),
        s[i].name@ == name,
        forall|j: int| 0 <= j < i ==> s[j].name@ != name,
    ensures
        child_node(s, name) == Some(s[i]),
    decreases i,
{
    if i > 0 {
        lemma_child_found(s.drop_first(), i - 1, name);
    }
}

/// A name held by no child finds no node.
proof fn lemma_child_absent(s: Seq<NamespaceNode>, name: Seq<char>)
    requires
        forall|j: int| 0 <= j < s.len() ==> s[j].name@ != name,
    ensures
        child_node(s, name) is None,
    decreases s.len(),
{
    if s.len() != 0 {
        lemma_child_absent(s.drop_first(), name);
    }
}

/// Replacing the first child named `name` with a node of the same name
/// changes what that name finds and nothing else.
proof fn lemma_child_update(s: Seq<NamespaceNode>, i: int, c: NamespaceNode, name: Seq<char>)
    requires
        0 <= i < s.len(),
        forall|j: int| 0 <= j < i ==> s[j].name@ != name,
        s[i].name@ == name,
        c.name@ == name,
    ensures
        child_node(s.update(i, c), name) == Some(c),
        forall|k: Seq<char>| k != name ==> child_node(s.update(i, c), k) == child_node(s, k),
    decreases i,
{
    if i == 0 {
        assert(s.update(0, c)[0] == c);
        assert forall|k: Seq<char>| k != name implies child_node(s.update(0, c), k) == child_node(
            s,
            k,
        ) by {
            assert(s.update(0, c).drop_first() =~= s.drop_first());
        }
    } else {
        let s2 = s.drop_first();
        assert(s.update(i, c).drop_first() =~= s2.update(i - 1, c));
        lemma_child_update(s2, i - 1, c, name);
        assert(s.update(i, c)[0] == s[0]);
        assert(child_node(s.update(i, c), name) == Some(c));
        assert forall|k: Seq<char>| k != name implies child_node(s.update(i, c), k) == child_node(
            s,
            k,
        ) by {
            if s[0].name@ == k {
                assert(child_node(s.update(i, c), k) == Some(s[0]));
                assert(child_node(s, k) == Some(s[0]));
            } else {
                assert(child_node(s.update(i, c), k) == child_node(s2.update(i - 1, c), k));
                assert(child_node(s, k) == child_node(s2, k));
            }
        }
    }
}

/// Appending a child does not disturb what other names find, and its
/// own name finds it when that name was absent.
proof fn lemma_child_push(s: Seq<NamespaceNode>, c: NamespaceNode, name: Seq<char>)
    requires
        c.name@ == name,
    ensures
        forall|k: Seq<char>| k != name ==> child_node(s.push(c), k) == child_node(s, k),
        child_node(s, name) is None ==> child_node(s.push(c), name) == Some(c),
    decreases s.len(),
{
    if s.len() == 0 {
        assert(s.push(c)[0] == c);
        assert(s.push(c).drop_first() =~= Seq::<NamespaceNode>::empty());
        assert forall|k: Seq<char>| k != name implies child_node(s.push(c), k) == child_node(
            s,
            k,
        ) by {
            assert(child_node(Seq::<NamespaceNode>::empty(), k) is None);
            assert(child_node(s.push(c), k) == child_node(s.push(c).drop_first(), k));
        }
    } else {
        let s2 = s.drop_first();
        assert(s.push(c)[0] == s[0]);
        assert(s.push(c).drop_first() =~= s2.push(c));
        lemma_child_push(s2, c, name);
        if child_node(s, name) is None {
            assert(s[0].name@ != name);
            assert(child_node(s2, name) is None);
            assert(child_node(s.push(c), name) == child_node(s2.push(c), name));
        }
        assert forall|k: Seq<char>| k != name implies child_node(s.push(c), k) == child_node(
            s,
            k,
        ) by {
            if s[0].name@ == k {
                assert(child_node(s.push(c), k) == Some(s[0]));
                assert(child_node(s, k) == Some(s[0]));
            } else {
                assert(child_node(s.push(c), k) == child_node(s2.push(c), k));
                assert(child_node(s, k) == child_node(s2, k));
            }
        }
    }
}

/// Removing the first child named `name` does not disturb what other
/// names find; and when no other child shares the name, the name then
/// finds nothing.
proof fn lemma_child_remove(s: Seq<NamespaceNode>, i: int, name: Seq<char>)
    requires
        0 <= i < s.len(),
        forall|j: int| 0 <= j < i ==> s[j].name@ != name,
        s[i].name@ == name,
    ensures
        forall|k: Seq<char>| k != name ==> child_node(s.remove(i), k) == child_node(s, k),
        (forall|j: int| 0 <= j < s.len() && j != i ==> s[j].name@ != name) ==> child_node(
            s.remove(i),
            name,
        ) is None,
    decreases i,
{
    if i == 0 {
        assert(s.remove(0) =~= s.drop_first());
        assert forall|k: Seq<char>| k != name implies child_node(s.remove(0), k) == child_node(
            s,
            k,
        ) by {
            assert(child_node(s, k) == child_node(s.drop_first(), k));
        }
        if forall|j: int| 0 <= j < s.len() && j != 0 ==> s[j].name@ != name {
            assert forall|j: int| 0 <= j < s.drop_first().len() implies s.drop_first()[j].name@
                != name by {
                assert(s.drop_first()[j] == s[j + 1]);
            }
            lemma_child_absent(s.drop_first(), name);
        }
    } else {
        let s2 = s.drop_first();
        assert(s.remove(i) =~= seq![s[0]] + s2.remove(i - 1));
        assert(s.remove(i)[0] == s[0]);
        assert(s.remove(i).drop_first() =~= s2.remove(i - 1));
        lemma_child_remove(s2, i - 1, name);
        assert forall|k: Seq<char>| k != name implies child_node(s.remove(i), k) == child_node(
            s,
            k,
        ) by {
            if s[0].name@ == k {
                assert(child_node(s.remove(i), k) == Some(s[0]));
                assert(child_node(s, k) == Some(s[0]));
            } else {
                assert(child_node(s.remove(i), k) == child_node(s2.remove(i - 1), k));
                assert(child_node(s, k) == child_node(s2, k));
            }
        }
        if forall|j: int| 0 <= j < s.len() && j != i ==> s[j].name@ != name {
            assert forall|j: int| 0 <= j < s2.len() && j != i - 1 implies s2[j].name@ != name by {
                assert(s2[j] == s[j + 1]);
            }
            assert(child_node(s2.remove(i - 1), name) is None);
            assert(s[0].name@ != name);
            assert(child_node(s.remove(i), name) == child_node(s2.remove(i - 1), name));
        }
    }
}

/// A run of non-'/' characters closed by '/' or by the end of the path
/// is exactly the first segment.
proof fn lemma_seg_len(t: Seq<char>, k: int)
    requires
        0 <= k <= t.len(),
        forall|j: int| 0 <= j < k ==> t[j] != '/',
        k == t.len() || t[k] == '/',
    ensures
        seg_len(t) == k,
    decreases k,
{
    if k == 0 {
    } else {
        assert(t[0] != '/');
        assert forall|j: int| 0 <= j < k - 1 implies t.drop_first()[j] != '/' by {
            assert(t.drop_first()[j] == t[j + 1]);
        }
        if k < t.len() {
            assert(t.drop_first()[k - 1] == t[k]);
        }
        lemma_seg_len(t.drop_first(), k - 1);
    }
}

/// The index of the first child named `name`, if any.
fn find_child_index(s: &Vec<NamespaceNode>, name: &str) -> (r: Option<usize>)
    ensures
        r matches Some(i) ==> i < s@.len() && s@[i as int].name@ == name@ && forall|j: int|
            0 <= j < i ==> s@[j].name@ != name@,
        r is None ==> forall|j: int| 0 <= j < s@.len() ==> s@[j].name@ != name@,
{
    let mut i: usize = 0;
    while i < s.len()
        invariant
            0 <= i <= s@.len(),
            forall|j: int| 0 <= j < i ==> s@[j].name@ != name@,
        decreases s@.len() - i,
    {
        if str_eq(s[i].name.as_str(), name) {
            return Some(i);
        }
        i = i + 1;
    }
    None
}

/// The node reached from `node` by walking the segments from `k` on.
fn find_node<'a>(node: &'a NamespaceNode, segs: &Vec<String>, k: usize) -> (r: Option<
    &'a NamespaceNode,
>)
    requires
        k <= segs@.len(),
    ensures
        r matches Some(n) ==> lookup(*node, seg_views(segs@).skip(k as int)) == Some(*n),
        r is None ==> lookup(*node, seg_views(segs@).skip(k as int)) is None,
    decreases segs@.len() - k,
{
    let ghost path = seg_views(segs@).skip(k as int);
    if k == segs.len() {
        proof {
            assert(path =~= Seq::<Seq<char>>::empty());
        }
        return Some(node);
    }
    proof {
        assert(path[0] == segs@[k as int]@);
        assert(path.drop_first() =~= seg_views(segs@).skip(k + 1 as int));
    }
    let found = find_child_index(&node.children, segs[k].as_str());
    match found {
        Some(j) => {
            proof {
                lemma_child_found(node.children@, j as int, segs@[k as int]@);
            }
            find_node(&node.children[j], segs, k + 1)
        },
        None => {
            proof {
                lemma_child_absent(node.children@, segs@[k as int]@);
            }
            None
        },
    }
}

/// Whether the character at `i` is the path separator.
fn char_at_is_slash(s: &str, i: usize) -> (r: bool)
    requires
        i < s@.len(),
    ensures
        r == (s@[i as int] == '/'),
{
    let c = s.get_char(i);
    c == '/'
}

/// Splits a path into its non-empty '/'-separated segments, from
/// character `from` on, appending them to `out`.
fn parse_rec(s: &str, from: usize, n: usize, out: &mut Vec<String>)
    requires
        from <= n,
        n == s@.len(),
    ensures
        seg_views(final(out)@) == seg_views(old(out)@) + split_path(s@.skip(from as int)),
    decreases n - from,
{
    let ghost t = s@.skip(from as int);
    if from == n {
        proof {
            assert(t =~= Seq::<char>::empty());
            assert(seg_views(out@) =~= seg_views(out@) + split_path(t));
        }
        return ;
    }
    let c = s.get_char(from);
    proof {
        assert(t[0] == s@[from as int]);
    }
    if c == '/' {
        proof {
            assert(t.drop_first() =~= s@.skip(from + 1 as int));
        }
        parse_rec(s, from + 1, n, out);
        return ;
    }
    // scan to the end of the segment
    let mut end = from + 1;
    while end < n && !char_at_is_slash(s, end)
        invariant
            from < end <= n,
            n == s@.len(),
            forall|j: int| from <= j < end ==> s@[j] != '/',
            s@[from as int] != '/',
        decreases n - end,
    {
        end = end + 1;
    }
    proof {
        assert(end == n || s@[end as int] == '/');
        let k = end - from;
        assert forall|j: int| 0 <= j < k implies t[j] != '/' by {
            assert(t[j] == s@[from + j]);
        }
        if (end as int) < n {
            assert(t[k as int] == s@[end as int]);
        }
        lemma_seg_len(t, k as int);
    }
    let seg = s.substring_char(from, end).to_owned();
    let ghost before = out@;
    out.push(seg);
    proof {
        assert(seg@ =~= t.take(seg_len(t) as int));
        assert(t.skip(seg_len(t) as int) =~= s@.skip(end as int));
    }
    parse_rec(s, end, n, out);
    proof {
        assert(seg_views(before.push(seg)) =~= seg_views(before).push(seg@));
        assert(seg_views(before) + split_path(t) =~= seg_views(before).push(seg@) + split_path(
            s@.skip(end as int),
        ));
    }
}

/// Splits a path into its non-empty '/'-separated segments: leading,
/// trailing and repeated separators are ignored.
pub fn parse_path(path: &str) -> (r: Vec<String>)
    ensures
        seg_views(r@) == split_path(path@),
{
    let mut out: Vec<String> = Vec::new();
    let n = path.unicode_len();
    parse_rec(path, 0, n, &mut out);
    proof {
        assert(path@.skip(0) =~= path@);
        assert(seg_views(Seq::<String>::empty()) =~= Seq::<Seq<char>>::empty());
        assert(seg_views(out@) =~= split_path(path@));
    }
    out
}

/// Whether `needle` occurs as a contiguous run of characters in `hay`.
pub open spec fn contains_sub(hay: Seq<char>, needle: Seq<char>) -> bool {
    exists|i: int|
        0 <= i && i + needle.len() <= hay.len() && #[trigger] hay.subrange(i, i + needle.len())
            == needle
}

/// A node's full path: the parent's path and the node's own name,
/// '/'-joined, with an empty side contributing nothing.
pub open spec fn joined_path(prefix: Seq<char>, name: Seq<char>) -> Seq<char> {
    if prefix.len() == 0 {
        name
    } else if name.len() == 0 {
        prefix
    } else {
        prefix + "/"@ + name
    }
}

/// The full paths, under a node whose own full path is `prefix`, of
/// every namespace whose name contains `query`: the node itself first,
/// then its children's matches in order.
pub open spec fn search_node(n: NamespaceNode, prefix: Seq<char>, query: Seq<char>) -> Seq<
    Seq<char>,
>
    decreases n,
{
    (if contains_sub(n.name@, query) && n.name@.len() != 0 {
        seq![joined_path(prefix, n.name@)]
    } else {
        Seq::empty()
    }) + search_children(n.children@, joined_path(prefix, n.name@), query)
}

/// The matches under each of the nodes of `s`, in order.
pub open spec fn search_children(s: Seq<NamespaceNode>, prefix: Seq<char>, query: Seq<char>) -> Seq<
    Seq<char>,
>
    decreases s,
{
    if s.len() == 0 {
        Seq::empty()
    } else {
        search_children(s.drop_last(), prefix, query) + search_node(s.last(), prefix, query)
    }
}

/// Whether `needle` matches the characters of `hay` starting at `i`.
fn match_at(hay: &str, hn: usize, needle: &str, nn: usize, i: usize) -> (r: bool)
    requires
        hn == hay@.len(),
        nn == needle@.len(),
        i + nn <= hn,
    ensures
        r == (hay@.subrange(i as int, i + nn) == needle@),
{
    let mut j: usize = 0;
    while j < nn
        invariant
            hn == hay@.len(),
            nn == needle@.len(),
            i + nn <= hn,
            0 <= j <= nn,
            forall|l: int| 0 <= l < j ==> hay@[i + l] == needle@[l],
        decreases nn - j,
    {
        let hc = hay.get_char(i + j);
        let nc = needle.get_char(j);
        if hc != nc {
            proof {
                assert(hay@.subrange(i as int, i + nn)[j as int] == hay@[i + j]);
            }
            return false;
        }
        j = j + 1;
    }
    proof {
        assert(hay@.subrange(i as int, i + nn) =~= needle@);
    }
    true
}

/// Whether `needle` occurs in `hay`; the empty needle occurs in
/// everything.
fn str_contains(hay: &str, needle: &str) -> (r: bool)
    ensures
        r == contains_sub(hay@, needle@),
{
    let hn = hay.unicode_len();
    let nn = needle.unicode_len();
    if nn > hn {
        return false;
    }
    if nn == 0 {
        proof {
            assert(hay@.subrange(0, 0 + needle@.len() as int) =~= needle@);
            assert(contains_sub(hay@, needle@));
        }
        return true;
    }
    let mut i: usize = 0;
    while i <= hn - nn
        invariant
            hn == hay@.len(),
            nn == needle@.len(),
            1 <= nn <= hn,
            0 <= i <= hn - nn + 1,
            forall|l: int| 0 <= l < i ==> #[trigger] hay@.subrange(l, l + nn) != needle@,
        decreases hn - nn - i + 1,
    {
        if match_at(hay, hn, needle, nn, i) {
            return true;
        }
        i = i + 1;
    }
    false
}

/// Collects, into `results`, the full path of every namespace under
/// `node` whose name contains `query`, `node` itself included; `prefix`
/// is the full path of `node`'s parent.
fn search_node_exec(node: &NamespaceNode, prefix: &str, query: &str, results: &mut Vec<String>)
    ensures
        seg_views(final(results)@) == seg_views(old(results)@) + search_node(
            *node,
            prefix@,
            query@,
        ),
    decreases *node,
{
    let ghost entry = results@;
    let current: String = if prefix.is_empty() {
        node.name.clone()
    } else if node.name.as_str().is_empty() {
        prefix.to_owned()
    } else {
        String::from_str(prefix).concat("/").concat(node.name.as_str())
    };
    proof {
        reveal_strlit("/");
        assert(current@ == joined_path(prefix@, node.name@));
    }
    if !node.name.as_str().is_empty() && str_contains(node.name.as_str(), query) {
        results.push(current.clone());
    }
    let ghost head = if contains_sub(node.name@, query@) && node.name@.len() != 0 {
        seq![joined_path(prefix@, node.name@)]
    } else {
        Seq::<Seq<char>>::empty()
    };
    proof {
        assert(seg_views(results@) =~= seg_views(entry) + head);
        assert(search_children(node.children@.take(0), current@, query@) =~= Seq::<
            Seq<char>,
        >::empty());
    }
    let mut i: usize = 0;
    while i < node.children.len()
        invariant
            seg_views(results@) == seg_views(entry) + head + search_children(
                node.children@.take(i as int),
                current@,
                query@,
            ),
            0 <= i <= node.children@.len(),
            current@ == joined_path(prefix@, node.name@),
        decreases node.children@.len() - i,
    {
        let ghost at_loop = results@;
        search_node_exec(&node.children[i], current.as_str(), query, results);
        proof {
            assert(node.children@.take(i + 1 as int).drop_last() =~= node.children@.take(i as int));
            assert(node.children@.take(i + 1 as int).last() == node.children@[i as int]);
            assert(seg_views(results@) =~= seg_views(entry) + head + search_children(
                node.children@.take(i + 1 as int),
                current@,
                query@,
            ));
        }
        i = i + 1;
    }
    proof {
        assert(node.children@.take(node.children@.len() as int) =~= node.children@);
        assert(seg_views(results@) =~= seg_views(entry) + search_node(*node, prefix@, query@));
    }
}

/// A non-empty sequence is a prefix of another exactly when their heads
/// agree and the tail is a prefix of the other's tail.
proof fn lemma_prefix_cons(q: Seq<Seq<char>>, p: Seq<Seq<char>>)
    requires
        q.len() >= 1,
        p.len() >= 1,
    ensures
        q.is_prefix_of(p) <==> (q[0] == p[0] && q.drop_first().is_prefix_of(p.drop_first())),
{
    if q.is_prefix_of(p) {
        assert(q.drop_first() =~= p.drop_first().subrange(0, q.len() - 1));
    }
    if q[0] == p[0] && q.drop_first().is_prefix_of(p.drop_first()) {
        assert forall|i: int| 0 <= i < q.len() implies q[i] == p.subrange(0, q.len() as int)[
            i
        ] by {
            if i > 0 {
                assert(q[i] == q.drop_first()[i - 1]);
                assert(q.drop_first()[i - 1] == p.drop_first().subrange(0, q.len() - 1)[i - 1]);
                assert(p.drop_first()[i - 1] == p[i]);
            }
        }
        assert(q =~= p.subrange(0, q.len() as int));
    }
}

/// A fresh chain of nodes for the segments from `k` on: the node for
/// segment `k` holds only the node for segment `k + 1`, and so on.  The
/// paths under the chain's head are exactly the prefixes of the
/// remaining segments.
fn build_chain(segs: &Vec<String>, k: usize) -> (r: NamespaceNode)
    requires
        k < segs@.len(),
    ensures
        r.name@ == seg_views(segs@)[k as int],
        forall|q: Seq<Seq<char>>|
            path_exists(r, q) <==> q.is_prefix_of(seg_views(segs@).skip(k + 1 as int)),
        ns_wf(r),
    decreases segs@.len() - k,
{
    let ghost rest = seg_views(segs@).skip(k + 1 as int);
    let n = segs.len();
    if k + 1 == n {
        let r = NamespaceNode { name: segs[k].clone(), children: Vec::new() };
        proof {
            assert(rest =~= Seq::<Seq<char>>::empty());
            assert forall|q: Seq<Seq<char>>| path_exists(r, q) <==> q.is_prefix_of(rest) by {
                if q.len() == 0 {
                    assert(q =~= rest);
                    assert(q.is_prefix_of(rest));
                    assert(path_exists(r, q));
                } else {
                    assert(child_node(r.children@, q[0]) is None);
                    assert(!path_exists(r, q));
                    assert(!q.is_prefix_of(rest));
                }
            }
        }
        r
    } else {
        let child = build_chain(segs, k + 1);
        let ghost c = child;
        let mut children: Vec<NamespaceNode> = Vec::new();
        children.push(child);
        let r = NamespaceNode { name: segs[k].clone(), children };
        proof {
            assert(rest.len() >= 1);
            assert(rest[0] == seg_views(segs@)[k + 1 as int]);
            assert(rest.drop_first() =~= seg_views(segs@).skip(k + 2 as int));
            assert(r.children@ =~= seq![c]);
            assert(c.name@ == rest[0]);
            assert forall|q: Seq<Seq<char>>| path_exists(r, q) <==> q.is_prefix_of(rest) by {
                if q.len() == 0 {
                    assert(q.is_prefix_of(rest)) by {
                        assert(q =~= rest.subrange(0, 0));
                    }
                    assert(path_exists(r, q));
                } else {
                    lemma_prefix_cons(q, rest);
                    if q[0] == c.name@ {
                        assert(child_node(r.children@, q[0]) == Some(c));
                        assert(lookup(r, q) == lookup(c, q.drop_first()));
                        assert(path_exists(c, q.drop_first()) <==> q.drop_first().is_prefix_of(
                            seg_views(segs@).skip(k + 2 as int),
                        ));
                    } else {
                        assert(child_node(r.children@.drop_first(), q[0]) is None);
                        assert(child_node(r.children@, q[0]) is None);
                        assert(!path_exists(r, q));
                        assert(!q.is_prefix_of(rest));
                    }
                }
            }
            assert(ns_wf(r));
        }
        r
    }
}

/// Grows the tree under `node` so that the path `segs[k..]` exists,
/// creating the nodes that are missing.  Every namespace that existed is
/// kept, and every namespace off the created branch — any path of which
/// the created one is no extension — is looked up exactly as before.
fn create_at(node: NamespaceNode, segs: &Vec<String>, k: usize) -> (r: NamespaceNode)
    requires
        k <= segs@.len(),
    ensures
        r.name == node.name,
        path_exists(r, seg_views(segs@).skip(k as int)),
        forall|q: Seq<Seq<char>>| path_exists(node, q) ==> path_exists(r, q),
        forall|q: Seq<Seq<char>>|
            !q.is_prefix_of(seg_views(segs@).skip(k as int)) ==> lookup(r, q) == lookup(node, q),
        ns_wf(node) ==> ns_wf(r),
    decreases segs@.len() - k,
{
    let ghost path = seg_views(segs@).skip(k as int);
    let ghost orig = node;
    if k == segs.len() {
        proof {
            assert(path =~= Seq::<Seq<char>>::empty());
        }
        return node;
    }
    let mut node = node;
    proof {
        assert(path[0] == seg_views(segs@)[k as int]);
        assert(path.drop_first() =~= seg_views(segs@).skip(k + 1 as int));
    }
    let found = find_child_index(&node.children, segs[k].as_str());
    match found {
        Some(j) => {
            let ghost s = orig.children@;
            let child = node.children.remove(j);
            let ghost c = child;
            let child2 = create_at(child, segs, k + 1);
            let ghost c2 = child2;
            node.children.insert(j, child2);
            proof {
                assert(node.children@ =~= s.update(j as int, c2));
                assert(c == s[j as int]);
                lemma_child_found(s, j as int, path[0]);
                lemma_child_update(s, j as int, c2, path[0]);
                assert(path_exists(c2, path.drop_first()));
                assert(lookup(node, path) == lookup(c2, path.drop_first()));
                assert forall|q: Seq<Seq<char>>| path_exists(orig, q) implies path_exists(
                    node,
                    q,
                ) by {
                    if q.len() != 0 {
                        if q[0] == path[0] {
                            assert(lookup(orig, q) == lookup(c, q.drop_first()));
                            assert(path_exists(c, q.drop_first()));
                            assert(path_exists(c2, q.drop_first()));
                            assert(lookup(node, q) == lookup(c2, q.drop_first()));
                        } else {
                            assert(child_node(node.children@, q[0]) == child_node(s, q[0]));
                        }
                    }
                }
                assert forall|q: Seq<Seq<char>>| !q.is_prefix_of(path) implies lookup(node, q)
                    == lookup(orig, q) by {
                    if q.len() == 0 {
                        assert(q =~= path.subrange(0, 0));
                        assert(q.is_prefix_of(path));
                    } else {
                        lemma_prefix_cons(q, path);
                        if q[0] == path[0] {
                            assert(!q.drop_first().is_prefix_of(path.drop_first()));
                            assert(lookup(c2, q.drop_first()) == lookup(c, q.drop_first()));
                            assert(lookup(node, q) == lookup(c2, q.drop_first()));
                            assert(lookup(orig, q) == lookup(c, q.drop_first()));
                        } else {
                            assert(child_node(node.children@, q[0]) == child_node(s, q[0]));
                        }
                    }
                }
                if ns_wf(orig) {
                    assert forall|i: int| 0 <= i < node.children@.len() implies node.children@[
                        i
                    ].name@ == s[i].name@ by {}
                    assert(ns_wf(c));
                    assert forall|i: int| 0 <= i < node.children@.len() implies ns_wf(
                        #[trigger] node.children@[i],
                    ) by {}
                    assert(ns_wf(node));
                }
            }
            node
        },
        None => {
            let fresh = build_chain(segs, k);
            let ghost f = fresh;
            let ghost s = orig.children@;
            node.children.push(fresh);
            proof {
                assert(node.children@ =~= s.push(f));
                lemma_child_absent(s, path[0]);
                lemma_child_push(s, f, path[0]);
                assert(child_node(node.children@, path[0]) == Some(f));
                assert(lookup(node, path) == lookup(f, path.drop_first()));
                assert(path.drop_first().is_prefix_of(seg_views(segs@).skip(k + 1 as int))) by {
                    assert(path.drop_first() =~= path.drop_first().subrange(
                        0,
                        path.drop_first().len() as int,
                    ));
                }
                assert(path_exists(f, path.drop_first()));
                assert(path_exists(node, path));
                assert forall|q: Seq<Seq<char>>| path_exists(orig, q) implies path_exists(
                    node,
                    q,
                ) by {
                    if q.len() != 0 {
                        assert(q[0] != path[0]);
                        assert(child_node(node.children@, q[0]) == child_node(s, q[0]));
                        assert(lookup(node, q) == lookup(orig, q));
                    }
                }
                assert forall|q: Seq<Seq<char>>| !q.is_prefix_of(path) implies lookup(node, q)
                    == lookup(orig, q) by {
                    if q.len() == 0 {
                        assert(q =~= path.subrange(0, 0));
                        assert(q.is_prefix_of(path));
                    } else {
                        lemma_prefix_cons(q, path);
                        if q[0] == path[0] {
                            assert(!q.drop_first().is_prefix_of(path.drop_first()));
                            assert(path_exists(f, q.drop_first()) <==> q.drop_first().is_prefix_of(
                                seg_views(segs@).skip(k + 1 as int),
                            ));
                            assert(!path_exists(f, q.drop_first()));
                            assert(lookup(node, q) == lookup(f, q.drop_first()));
                            assert(lookup(node, q) is None);
                            assert(lookup(orig, q) is None);
                        } else {
                            assert(child_node(node.children@, q[0]) == child_node(s, q[0]));
                        }
                    }
                }
                if ns_wf(orig) {
                    assert forall|i: int|
                        0 <= i < node.children@.len() implies ns_wf(
                        #[trigger] node.children@[i],
                    ) by {}
                    assert(ns_wf(node));
                }
            }
            node
        },
    }
}

/// Removes the namespace at `segs[k..]` — which must exist — from under
/// `node`, and its whole subtree with it.  Namespaces that neither
/// contain nor lie under the removed one are looked up exactly as
/// before; in a well-formed tree the removed path is gone and nothing
/// appears that did not exist.
fn delete_at(node: NamespaceNode, segs: &Vec<String>, k: usize) -> (r: NamespaceNode)
    requires
        k < segs@.len(),
        path_exists(node, seg_views(segs@).skip(k as int)),
    ensures
        r.name == node.name,
        forall|q: Seq<Seq<char>>|
            !seg_views(segs@).skip(k as int).is_prefix_of(q) && !q.is_prefix_of(
                seg_views(segs@).skip(k as int),
            ) ==> lookup(r, q) == lookup(node, q),
        forall|q: Seq<Seq<char>>|
            q.is_prefix_of(seg_views(segs@).skip(k as int)) && q != seg_views(segs@).skip(k as int)
                ==> path_exists(r, q),
        ns_wf(node) ==> {
            &&& ns_wf(r)
            &&& !path_exists(r, seg_views(segs@).skip(k as int))
            &&& forall|q: Seq<Seq<char>>| path_exists(r, q) ==> path_exists(node, q)
        },
    decreases segs@.len() - k,
{
    let ghost path = seg_views(segs@).skip(k as int);
    let ghost orig = node;
    let mut node = node;
    proof {
        assert(path[0] == seg_views(segs@)[k as int]);
        assert(path.drop_first() =~= seg_views(segs@).skip(k + 1 as int));
    }
    let n = segs.len();
    let found = find_child_index(&node.children, segs[k].as_str());
    let j = match found {
        Some(j) => j,
        None => {
            proof {
                lemma_child_absent(node.children@, path[0]);
            }
            // the path exists, so its first segment names a child
            return node;
        },
    };
    proof {
        lemma_child_found(orig.children@, j as int, path[0]);
    }
    if k + 1 == n {
        let ghost s = orig.children@;
        node.children.remove(j);
        proof {
            assert(node.children@ =~= s.remove(j as int));
            lemma_child_remove(s, j as int, path[0]);
            assert(path =~= seq![path[0]]);
            assert forall|q: Seq<Seq<char>>|
                q.is_prefix_of(path) && q != path implies path_exists(node, q) by {
                if q.len() == 0 {
                    assert(path_exists(node, q));
                } else {
                    assert(q =~= path.subrange(0, q.len() as int));
                    assert(q.len() == 1);
                    assert(q =~= path);
                    assert(false);
                }
            }
            assert forall|q: Seq<Seq<char>>|
                !path.is_prefix_of(q) && !q.is_prefix_of(path) implies lookup(node, q) == lookup(
                orig,
                q,
            ) by {
                if q.len() == 0 {
                    assert(q =~= path.subrange(0, 0));
                    assert(q.is_prefix_of(path));
                } else {
                    if q[0] == path[0] {
                        lemma_prefix_cons(path, q);
                        assert(path.drop_first() =~= Seq::<Seq<char>>::empty());
                        assert(path.drop_first().is_prefix_of(q.drop_first()));
                        assert(path.is_prefix_of(q));
                    } else {
                        assert(child_node(node.children@, q[0]) == child_node(s, q[0]));
                    }
                }
            }
            if ns_wf(orig) {
                assert forall|i: int| 0 <= i < s.len() && i != j implies s[i].name@ != path[0] by {
                    if i < j {
                    } else {
                        assert(s[j as int].name@ == path[0]);
                    }
                }
                assert(child_node(node.children@, path[0]) is None);
                assert(!path_exists(node, path));
                assert forall|i: int| 0 <= i < node.children@.len() implies ns_wf(
                    #[trigger] node.children@[i],
                ) by {
                    assert(node.children@[i] == if i < j {
                        s[i]
                    } else {
                        s[i + 1]
                    });
                }
                assert forall|i1: int, i2: int|
                    0 <= i1 < i2 < node.children@.len() implies node.children@[i1].name@
                    != node.children@[i2].name@ by {
                    assert(node.children@[i1] == if i1 < j {
                        s[i1]
                    } else {
                        s[i1 + 1]
                    });
                    assert(node.children@[i2] == if i2 < j {
                        s[i2]
                    } else {
                        s[i2 + 1]
                    });
                }
                assert(ns_wf(node));
                assert forall|q: Seq<Seq<char>>| path_exists(node, q) implies path_exists(
                    orig,
                    q,
                ) by {
                    if q.len() != 0 {
                        if q[0] == path[0] {
                            assert(child_node(node.children@, q[0]) is None);
                        } else {
                            assert(child_node(node.children@, q[0]) == child_node(s, q[0]));
                        }
                    }
                }
            }
        }
        node
    } else {
        let ghost s = orig.children@;
        let child = node.children.remove(j);
        let ghost c = child;
        proof {
            assert(lookup(orig, path) == lookup(c, path.drop_first()));
        }
        let child2 = delete_at(child, segs, k + 1);
        let ghost c2 = child2;
        node.children.insert(j, child2);
        proof {
            assert(node.children@ =~= s.update(j as int, c2));
            assert(c == s[j as int]);
            lemma_child_update(s, j as int, c2, path[0]);
            assert(lookup(node, path) == lookup(c2, path.drop_first()));
            assert forall|q: Seq<Seq<char>>|
                !path.is_prefix_of(q) && !q.is_prefix_of(path) implies lookup(node, q) == lookup(
                orig,
                q,
            ) by {
                if q.len() == 0 {
                    assert(q =~= path.subrange(0, 0));
                    assert(q.is_prefix_of(path));
                } else {
                    lemma_prefix_cons(q, path);
                    if q[0] == path[0] {
                        lemma_prefix_cons(path, q);
                        assert(!path.drop_first().is_prefix_of(q.drop_first()));
                        assert(!q.drop_first().is_prefix_of(path.drop_first()));
                        assert(lookup(node, q) == lookup(c2, q.drop_first()));
                        assert(lookup(orig, q) == lookup(c, q.drop_first()));
                    } else {
                        assert(child_node(node.children@, q[0]) == child_node(s, q[0]));
                    }
                }
            }
            assert forall|q: Seq<Seq<char>>|
                q.is_prefix_of(path) && q != path implies path_exists(node, q) by {
                if q.len() == 0 {
                    assert(path_exists(node, q));
                } else {
                    lemma_prefix_cons(q, path);
                    assert(q.drop_first().is_prefix_of(path.drop_first()));
                    if q.drop_first() =~= path.drop_first() {
                        assert(q =~= path);
                        assert(false);
                    } else {
                        assert(q.drop_first() != path.drop_first());
                        assert(path_exists(c2, q.drop_first()));
                        assert(lookup(node, q) == lookup(c2, q.drop_first()));
                    }
                }
            }
            if ns_wf(orig) {
                assert(ns_wf(c));
                assert forall|i: int| 0 <= i < node.children@.len() implies node.children@[
                    i
                ].name@ == s[i].name@ by {}
                assert forall|i: int| 0 <= i < node.children@.len() implies ns_wf(
                    #[trigger] node.children@[i],
                ) by {}
                assert(ns_wf(node));
                assert(!path_exists(c2, path.drop_first()));
                assert(!path_exists(node, path));
                assert forall|q: Seq<Seq<char>>| path_exists(node, q) implies path_exists(
                    orig,
                    q,
                ) by {
                    if q.len() != 0 {
                        if q[0] == path[0] {
                            assert(lookup(node, q) == lookup(c2, q.drop_first()));
                            assert(path_exists(c2, q.drop_first()));
                            assert(path_exists(c, q.drop_first()));
                            assert(lookup(orig, q) == lookup(c, q.drop_first()));
                        } else {
                            assert(child_node(node.children@, q[0]) == child_node(s, q[0]));
                        }
                    }
                }
            }
        }
        node
    }
}

/// An in-memory namespace directory.
pub struct InMemoryNamespaceManager {
    pub root: NamespaceNode,
}

impl InMemoryNamespaceManager {
    /// An empty directory: a nameless root with no children.
    pub fn new() -> (r: InMemoryNamespaceManager)
        ensures
            r.root.name@.len() == 0,
            r.root.children@.len() == 0,
            ns_wf(r.root),
    {
        InMemoryNamespaceManager {
            root: NamespaceNode { name: String::new(), children: Vec::new() },
        }
    }

    /// Creates the namespace at `path`, creating whatever ancestors are
    /// missing; creating a namespace that already exists is accepted and
    /// leaves the directory exactly as it was.  Every namespace that
    /// existed is kept, and every namespace off the created branch is
    /// looked up exactly as before.  A path with no segments is invalid.
    pub fn create_namespace(&mut self, path: &str) -> (r: Result<(), NamespaceError>)
        ensures
            r is Ok <==> split_path(path@).len() != 0,
            r matches Err(e) ==> *final(self) == *old(self) && e == NamespaceError::InvalidPath,
            path_exists(old(self).root, split_path(path@)) ==> *final(self) == *old(self),
            r is Ok ==> {
                &&& final(self).root.name == old(self).root.name
                &&& path_exists(final(self).root, split_path(path@))
                &&& (forall|q: Seq<Seq<char>>|
                    path_exists(old(self).root, q) ==> path_exists(final(self).root, q))
                &&& (forall|q: Seq<Seq<char>>|
                    !q.is_prefix_of(split_path(path@)) ==> lookup(final(self).root, q) == lookup(
                        old(self).root,
                        q,
                    ))
                &&& (ns_wf(old(self).root) ==> ns_wf(final(self).root))
            },
    {
        let segs = parse_path(path);
        if segs.is_empty() {
            return Err(NamespaceError::InvalidPath);
        }
        proof {
            assert(seg_views(segs@).skip(0) =~= split_path(path@));
        }
        let already = match find_node(&self.root, &segs, 0) {
            Some(..) => true,
            None => false,
        };
        if already {
            // the whole path exists: creating it again changes nothing
            return Ok(());
        }
        let mut tmp = NamespaceNode { name: String::new(), children: Vec::new() };
        core::mem::swap(&mut self.root, &mut tmp);
        let newroot = create_at(tmp, &segs, 0);
        self.root = newroot;
        Ok(())
    }

    /// Deletes the namespace at `path`, and its whole subtree with it
    /// (once the path fails to resolve, `lemma_lookup_prefix` gives that
    /// every extension of it fails too): `InvalidPath` when the path has
    /// no segments, `NotFound` when it names no namespace, and in either
    /// case the directory is left unchanged.  Namespaces that neither
    /// contain nor lie under the deleted one are looked up exactly as
    /// before.
    pub fn delete_namespace(&mut self, path: &str) -> (r: Result<(), NamespaceError>)
        ensures
            split_path(path@).len() == 0 ==> r == Err::<(), NamespaceError>(
                NamespaceError::InvalidPath,
            ) && *final(self) == *old(self),
            split_path(path@).len() != 0 ==> {
                &&& (r is Ok <==> path_exists(old(self).root, split_path(path@)))
                &&& (r is Err ==> *final(self) == *old(self) && r == Err::<(), NamespaceError>(
                    NamespaceError::NotFound,
                ))
                &&& (r is Ok ==> {
                    &&& final(self).root.name == old(self).root.name
                    &&& (forall|q: Seq<Seq<char>>|
                        !split_path(path@).is_prefix_of(q) && !q.is_prefix_of(split_path(path@))
                            ==> lookup(final(self).root, q) == lookup(old(self).root, q))
                    &&& (forall|q: Seq<Seq<char>>|
                        q.is_prefix_of(split_path(path@)) && q != split_path(path@)
                            ==> path_exists(final(self).root, q))
                    &&& (ns_wf(old(self).root) ==> {
                        &&& ns_wf(final(self).root)
                        &&& !path_exists(final(self).root, split_path(path@))
                        &&& (forall|q: Seq<Seq<char>>|
                            path_exists(final(self).root, q) ==> path_exists(old(self).root, q))
                    })
                })
            },
    {
        let segs = parse_path(path);
        if segs.is_empty() {
            return Err(NamespaceError::InvalidPath);
        }
        proof {
            assert(seg_views(segs@).skip(0) =~= split_path(path@));
        }
        let exists = match find_node(&self.root, &segs, 0) {
            Some(..) => true,
            None => false,
        };
        if !exists {
            return Err(NamespaceError::NotFound);
        }
        let mut tmp = NamespaceNode { name: String::new(), children: Vec::new() };
        core::mem::swap(&mut self.root, &mut tmp);
        let newroot = delete_at(tmp, &segs, 0);
        self.root = newroot;
        Ok(())
    }

    /// Every namespace whose own name contains `query`, as full
    /// '/'-delimited paths, walking the whole directory in creation
    /// order.  Search never fails.
    pub fn search_namespaces(&self, query: &str) -> (r: Result<Vec<String>, NamespaceError>)
        ensures
            r matches Ok(found) && seg_views(found@) == search_node(
                self.root,
                Seq::<char>::empty(),
                query@,
            ),
    {
        let mut results: Vec<String> = Vec::new();
        search_node_exec(&self.root, "", query, &mut results);
        proof {
            reveal_strlit("");
            assert(""@ =~= Seq::<char>::empty());
            assert(seg_views(Seq::<String>::empty()) =~= Seq::<Seq<char>>::empty());
            assert(seg_views(results@) =~= search_node(self.root, Seq::<char>::empty(), query@));
        }
        Ok(results)
    }

    /// The names of the children of the namespace at `path`, in
    /// creation order; `NotFound` when the path names no namespace.
    pub fn list_namespaces(&self, path: &str) -> (r: Result<Vec<String>, NamespaceError>)
        ensures
            match lookup(self.root, split_path(path@)) {
                Some(n) => r matches Ok(names) && seg_views(names@) == child_names(n),
                None => r == Err::<Vec<String>, NamespaceError>(NamespaceError::NotFound),
            },
    {
        let segs = parse_path(path);
        proof {
            assert(seg_views(segs@).skip(0) =~= seg_views(segs@));
        }
        let found = find_node(&self.root, &segs, 0);
        match found {
            None => Err(NamespaceError::NotFound),
            Some(node) => {
                let mut names: Vec<String> = Vec::new();
                let mut i: usize = 0;
                while i < node.children.len()
                    invariant
                        0 <= i <= node.children@.len(),
                        seg_views(names@) == child_names(*node).take(i as int),
                    decreases node.children@.len() - i,
                {
                    let ghost before = names@;
                    names.push(node.children[i].name.clone());
                    proof {
                        assert(seg_views(names@) =~= seg_views(before).push(
                            node.children@[i as int].name@,
                        ));
                        assert(child_names(*node).take(i + 1 as int) =~= child_names(*node).take(
                            i as int,
                        ).push(child_names(*node)[i as int]));
                    }
                    i = i + 1;
                }
                proof {
                    assert(child_names(*node).take(node.children@.len() as int) =~= child_names(
                        *node,
                    ));
                }
                Ok(names)
            },
        }
    }

    /// The subtree rooted at `path`; `NotFound` when the path names no
    /// namespace.
    pub fn drill_down(&self, path: &str) -> (r: Result<&NamespaceNode, NamespaceError>)
        ensures
            match lookup(self.root, split_path(path@)) {
                Some(n) => r matches Ok(sub) && *sub == n,
                None => r == Err::<&NamespaceNode, NamespaceError>(NamespaceError::NotFound),
            },
    {
        let segs = parse_path(path);
        proof {
            assert(seg_views(segs@).skip(0) =~= seg_views(segs@));
        }
        let found = find_node(&self.root, &segs, 0);
        match found {
            None => Err(NamespaceError::NotFound),
            Some(node) => Ok(node),
        }
    }
}

} // verus!
