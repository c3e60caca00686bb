//! A trie of dotted topic patterns with NATS-style wildcards.
//!
//! Patterns are split on `.` into tokens. Two tokens are special:
//! - `*` matches exactly one token of a topic (e.g. `a.*.c` matches `a.b.c`);
//! - `>` matches one or more trailing tokens (e.g. `a.>` matches `a.b` and `a.b.c`);
//!   whatever follows a `>` in a pattern is ignored.
use vstd::prelude::*;
use vstd::string::StringSliceAdditionalSpecFns;

verus! {

broadcast use vstd::seq_lib::group_seq_properties;

/// The byte `.` that separates the tokens of a topic.
pub open spec fn dot_byte() -> u8 {
    46u8
}

/// The token `*`.
pub open spec fn single_wildcard() -> Seq<u8> {
    seq![42u8]
}

/// The token `>`.
pub open spec fn trailing_wildcard() -> Seq<u8> {
    seq![62u8]
}

/// The two wildcard tokens differ.
pub proof fn lemma_wildcards_differ()
    ensures
        single_wildcard() != trailing_wildcard(),
        single_wildcard().len() == 1,
        trailing_wildcard().len() == 1,
{
    assert(single_wildcard()[0] != trailing_wildcard()[0]);
}

/// The tokens of a dotted byte string, as `str::split('.')` yields them:
/// empty tokens are kept, and there is always at least one token.
pub open spec fn split_tokens(s: Seq<u8>) -> Seq<Seq<u8>>
    decreases s.len(),
{
    if s.len() == 0 {
        seq![Seq::<u8>::empty()]
    } else {
        let r = split_tokens(s.drop_last());
        if s.last() == dot_byte() {
            r.push(Seq::<u8>::empty())
        } else {
            r.update(r.len() - 1, r.last().push(s.last()))
        }
    }
}

/// The tokens of a topic or a topic pattern.
pub open spec fn topic_tokens(s: &str) -> Seq<Seq<u8>> {
    split_tokens(s.spec_bytes())
}

/// The views of a sequence of byte vectors.
pub open spec fn token_views(v: Seq<Vec<u8>>) -> Seq<Seq<u8>> {
    v.map_values(|t: Vec<u8>| t@)
}

/// Whether the pattern tokens `p` match the topic tokens `t`.
pub open spec fn pattern_matches(p: Seq<Seq<u8>>, t: Seq<Seq<u8>>) -> bool
    decreases p.len(),
{
    if p.len() == 0 {
        t.len() == 0
    } else if p[0] == trailing_wildcard() {
        t.len() >= 1
    } else if t.len() == 0 {
        false
    } else if p[0] == single_wildcard() {
        pattern_matches(p.drop_first(), t.drop_first())
    } else {
        p[0] == t[0] && pattern_matches(p.drop_first(), t.drop_first())
    }
}

/// The pattern as the trie stores it: cut after its first `>`.
pub open spec fn stored_pattern(p: Seq<Seq<u8>>) -> Seq<Seq<u8>>
    decreases p.len(),
{
    if p.len() == 0 {
        p
    } else if p[0] == trailing_wildcard() {
        seq![trailing_wildcard()]
    } else {
        seq![p[0]] + stored_pattern(p.drop_first())
    }
}

/// A topic split into tokens always has at least one token.
pub proof fn lemma_split_tokens_nonempty(s: Seq<u8>)
    ensures
        split_tokens(s).len() >= 1,
    decreases s.len(),
{
    if s.len() > 0 {
        lemma_split_tokens_nonempty(s.drop_last());
    }
}

/// Cutting a pattern after its first `>` does not change what it matches.
pub proof fn lemma_stored_pattern_matches(p: Seq<Seq<u8>>, t: Seq<Seq<u8>>)
    ensures
        pattern_matches(stored_pattern(p), t) == pattern_matches(p, t),
    decreases p.len(),
{
    if p.len() > 0 && p[0] != trailing_wildcard() {
        let s = stored_pattern(p);
        assert(s[0] == p[0]);
        assert(s.drop_first() == stored_pattern(p.drop_first()));
        if t.len() > 0 {
            lemma_stored_pattern_matches(p.drop_first(), t.drop_first());
        }
    }
}

/// Whether two byte slices hold the same bytes.
pub fn bytes_equal(a: &[u8], b: &[u8]) -> (r: bool)
    ensures
        r == (a@ == b@),
{
    if a.len() != b.len() {
        return false;
    }
    let mut i: usize = 0;
    while i < a.len()
        invariant
            i <= a@.len(),
            a@.len() == b@.len(),
            forall|j: int| 0 <= j < i ==> a@[j] == b@[j],
        decreases a@.len() - i,
    {
        if a[i] != b[i] {
            return false;
        }
        i += 1;
    }
    assert(a@ =~= b@);
    true
}

/// Whether a token is the single byte `b`.
fn token_is(tok: &Vec<u8>, b: u8) -> (r: bool)
    ensures
        r == (tok@ == seq![b]),
{
    if tok.len() == 1 && tok[0] == b {
        assert(tok@ =~= seq![b]);
        true
    } else {
        false
    }
}

/// Split a topic into its dot-separated tokens, as `str::split('.')` does.
pub fn split_topic(topic: &str) -> (toks: Vec<Vec<u8>>)
    ensures
        token_views(toks@) == topic_tokens(topic),
{
    let bytes = topic.as_bytes();
    let mut toks: Vec<Vec<u8>> = Vec::new();
    let mut cur: Vec<u8> = Vec::new();
    let mut i: usize = 0;
    assert(bytes@.take(0) =~= Seq::<u8>::empty());
    assert(token_views(toks@).push(cur@) =~= split_tokens(bytes@.take(0)));
    while i < bytes.len()
        invariant
            i <= bytes@.len(),
            bytes@ == topic.spec_bytes(),
            token_views(toks@).push(cur@) == split_tokens(bytes@.take(i as int)),
        decreases bytes@.len() - i,
    {
        let b = bytes[i];
        let ghost prev = bytes@.take(i as int);
        let ghost next = bytes@.take(i + 1);
        assert(next.drop_last() =~= prev);
        assert(next.last() == b);
        if b == 46u8 {
            let done = cur;
            toks.push(done);
            cur = Vec::new();
            assert(token_views(toks@).push(cur@) =~= split_tokens(prev).push(Seq::<u8>::empty()));
        } else {
            let ghost old_cur = cur@;
            let ghost old_toks = toks@;
            cur.push(b);
            let ghost r = split_tokens(prev);
            assert(r.len() - 1 == old_toks.len());
            assert(token_views(toks@).push(cur@) =~= r.update(r.len() - 1, r.last().push(b)));
        }
        i += 1;
    }
    assert(bytes@.take(bytes@.len() as int) =~= bytes@);
    toks.push(cur);
    assert(token_views(toks@) =~= split_tokens(bytes@));
    toks
}

/// A node of the trie.
#[derive(Debug)]
pub struct TrieNode {
    /// Subscriptions whose pattern ends at this node.
    subscriptions: Vec<u128>,
    /// Literal children, each under its token.
    children: Vec<(Vec<u8>, TrieNode)>,
    /// The child under `*`.
    any_child: Option<Box<TrieNode>>,
    /// The child under `>`.
    trailing_child: Option<Box<TrieNode>>,
}

/// Whether the node holds subscription `x` under the pattern suffix `p`.
pub closed spec fn node_has(n: TrieNode, p: Seq<Seq<u8>>, x: u128) -> bool
    decreases p.len(),
{
    if p.len() == 0 {
        n.subscriptions@.contains(x)
    } else if p[0] == trailing_wildcard() {
        p.len() == 1 && match n.trailing_child {
            Some(c) => c.subscriptions@.contains(x),
            None => false,
        }
    } else if p[0] == single_wildcard() {
        match n.any_child {
            Some(c) => node_has(*c, p.drop_first(), x),
            None => false,
        }
    } else {
        exists|i: int|
            0 <= i < n.children@.len() && #[trigger] n.children@[i].0@ == p[0] && node_has(
                n.children@[i].1,
                p.drop_first(),
                x,
            )
    }
}

/// Literal children carry distinct tokens, none of them a wildcard, all the way down.
pub closed spec fn node_wf(n: TrieNode) -> bool
    decreases n,
{
    &&& forall|i: int, j: int|
        0 <= i < j < n.children@.len() ==> #[trigger] n.children@[i].0@
            != #[trigger] n.children@[j].0@
    &&& forall|i: int|
        0 <= i < n.children@.len() ==> #[trigger] n.children@[i].0@ != single_wildcard()
            && n.children@[i].0@ != trailing_wildcard()
    &&& forall|i: int| 0 <= i < n.children@.len() ==> node_wf(#[trigger] n.children@[i].1)
    &&& match n.any_child {
        Some(c) => node_wf(*c),
        None => true,
    }
}

proof fn lemma_child_wf(n: TrieNode, k: int)
    requires
        node_wf(n),
        0 <= k < n.children@.len(),
    ensures
        node_wf(n.children@[k].1),
        n.children@[k].0@ != single_wildcard(),
        n.children@[k].0@ != trailing_wildcard(),
{
    assert(n.children@[k].1 == n.children@[k].1);
}

/// The subscriptions that a node holds under patterns matching the topic tokens `t`.
pub closed spec fn node_matches(n: TrieNode, t: Seq<Seq<u8>>, x: u128) -> bool {
    exists|p: Seq<Seq<u8>>| #[trigger] node_has(n, p, x) && pattern_matches(p, t)
}

impl TrieNode {
    fn empty() -> (r: TrieNode)
        ensures
            node_wf(r),
            forall|p: Seq<Seq<u8>>, x: u128| !node_has(r, p, x),
            r.subscriptions@.len() == 0,
            r.children@.len() == 0,
            r.any_child is None,
            r.trailing_child is None,
    {
        let r = TrieNode {
            subscriptions: Vec::new(),
            children: Vec::new(),
            any_child: None,
            trailing_child: None,
        };
        assert forall|p: Seq<Seq<u8>>, x: u128| !node_has(r, p, x) by {
            if p.len() == 0 {
                assert(!r.subscriptions@.contains(x));
            }
        }
        r
    }
}

/// Whether `v` holds `x`.
fn vec_contains(v: &Vec<u128>, x: u128) -> (r: bool)
    ensures
        r == v@.contains(x),
{
    let mut i: usize = 0;
    while i < v.len()
        invariant
            i <= v@.len(),
            forall|j: int| 0 <= j < i ==> v@[j] != x,
        decreases v@.len() - i,
    {
        if v[i] == x {
            return true;
        }
        i += 1;
    }
    false
}

/// Add `x` to `v` unless it is there already.
fn push_unique(v: &mut Vec<u128>, x: u128)
    ensures
        forall|y: u128| final(v)@.contains(y) <==> (old(v)@.contains(y) || y == x),
        old(v)@.no_duplicates() ==> final(v)@.no_duplicates(),
{
    if !vec_contains(v, x) {
        v.push(x);
        assert forall|y: u128| old(v)@.contains(y) implies v@.contains(y) by {
            let j = choose|j: int| 0 <= j < old(v)@.len() && old(v)@[j] == y;
            assert(v@[j] == y);
        }
        assert(v@[v@.len() - 1] == x);
        assert forall|y: u128| v@.contains(y) implies (old(v)@.contains(y) || y == x) by {
            let j = choose|j: int| 0 <= j < v@.len() && v@[j] == y;
            if j < old(v)@.len() {
                assert(old(v)@[j] == y);
            }
        }
    }
}

/// Add every element of `src` to `dst`, skipping those already there.
fn extend_unique(dst: &mut Vec<u128>, src: &Vec<u128>)
    requires
        old(dst)@.no_duplicates(),
    ensures
        final(dst)@.no_duplicates(),
        forall|y: u128| final(dst)@.contains(y) <==> (old(dst)@.contains(y) || src@.contains(y)),
{
    let mut i: usize = 0;
    while i < src.len()
        invariant
            i <= src@.len(),
            dst@.no_duplicates(),
            forall|y: u128|
                dst@.contains(y) <==> (old(dst)@.contains(y) || src@.take(i as int).contains(y)),
        decreases src@.len() - i,
    {
        let x = src[i];
        push_unique(dst, x);
        assert forall|y: u128|
            dst@.contains(y) <==> (old(dst)@.contains(y) || src@.take(i + 1).contains(y)) by {
            let prev = src@.take(i as int);
            let next = src@.take(i + 1);
            if next.contains(y) && y != x {
                let j = choose|j: int| 0 <= j < next.len() && #[trigger] next[j] == y;
                assert(prev[j] == y);
            }
            if prev.contains(y) {
                let j = choose|j: int| 0 <= j < prev.len() && #[trigger] prev[j] == y;
                assert(next[j] == y);
            }
            assert(src@.take(i + 1)[i as int] == x);
        }
        i += 1;
    }
    assert(src@.take(src@.len() as int) =~= src@);
}

/// The index of the literal child under `tok`, if there is one.
fn find_child(children: &Vec<(Vec<u8>, TrieNode)>, tok: &Vec<u8>) -> (r: Option<usize>)
    ensures
        match r {
            Some(k) => k < children@.len() && children@[k as int].0@ == tok@,
            None => forall|i: int| 0 <= i < children@.len() ==> children@[i].0@ != tok@,
        },
{
    let mut i: usize = 0;
    while i < children.len()
        invariant
            i <= children@.len(),
            forall|j: int| 0 <= j < i ==> children@[j].0@ != tok@,
        decreases children@.len() - i,
    {
        if bytes_equal(children[i].0.as_slice(), tok.as_slice()) {
            return Some(i);
        }
        i += 1;
    }
    None
}

/// Insert subscription `id` under the pattern tokens `toks[i..]`.
#[verifier::spinoff_prover]
#[verifier::rlimit(40)]
fn insert_rec(node: &mut TrieNode, toks: &Vec<Vec<u8>>, i: usize, id: u128)
    requires
        node_wf(*old(node)),
        i <= toks@.len(),
    ensures
        node_wf(*final(node)),
        forall|p: Seq<Seq<u8>>, x: u128|
            node_has(*final(node), p, x) <==> (node_has(*old(node), p, x) || (p == stored_pattern(
                token_views(toks@).skip(i as int),
            ) && x == id)),
    decreases toks@.len() - i,
{
    proof {
        lemma_wildcards_differ();
    }
    let ghost tv = token_views(toks@);
    let ghost rest = tv.skip(i as int);
    if i == toks.len() {
        assert(rest.len() == 0);
        push_unique(&mut node.subscriptions, id);
        assert forall|p: Seq<Seq<u8>>, x: u128|
            node_has(*node, p, x) <==> (node_has(*old(node), p, x) || (p == stored_pattern(rest)
                && x == id)) by {
            assert(stored_pattern(rest) =~= Seq::<Seq<u8>>::empty());
            if p.len() == 0 {
                assert(p =~= Seq::<Seq<u8>>::empty());
            }
        }
        return ;
    }
    let tok = &toks[i];
    assert(rest[0] == tok@);
    assert(rest.drop_first() =~= tv.skip(i + 1));
    if token_is(tok, 62u8) {
        let mut c = match node.trailing_child.take() {
            Some(b) => *b,
            None => TrieNode::empty(),
        };
        let ghost old_c = c;
        assert(forall|x: u128| #![trigger old_c.subscriptions@.contains(x)]
            old_c.subscriptions@.contains(x) <==> match old(node).trailing_child {
                Some(oc) => oc.subscriptions@.contains(x),
                None => false,
            });
        push_unique(&mut c.subscriptions, id);
        let ghost new_c = c;
        node.trailing_child = Some(Box::new(c));
        assert(stored_pattern(rest) == seq![trailing_wildcard()]);
        assert forall|p: Seq<Seq<u8>>, x: u128|
            node_has(*node, p, x) <==> (node_has(*old(node), p, x) || (p == stored_pattern(rest)
                && x == id)) by {
            if p.len() == 0 {
                assert(node_has(*node, p, x) == node.subscriptions@.contains(x));
                assert(node_has(*old(node), p, x) == old(node).subscriptions@.contains(x));
            } else if p[0] == trailing_wildcard() {
                assert(node_has(*node, p, x) == (p.len() == 1 && new_c.subscriptions@.contains(x)));
                assert(old_c.subscriptions@.contains(x) <==> match old(node).trailing_child {
                    Some(oc) => oc.subscriptions@.contains(x),
                    None => false,
                });
                if p.len() == 1 {
                    assert(p =~= seq![trailing_wildcard()]);
                }
            } else {
                assert(node.children == old(node).children);
                assert(node.any_child == old(node).any_child);
                assert(node.subscriptions == old(node).subscriptions);
                assert(node_has(*node, p, x) == node_has(*old(node), p, x));
                assert(p != stored_pattern(rest));
            }
        }
    } else if token_is(tok, 42u8) {
        let mut c = match node.any_child.take() {
            Some(b) => *b,
            None => TrieNode::empty(),
        };
        let ghost old_c = c;
        assert(node_wf(old_c)) by {
            match old(node).any_child {
                Some(oc) => assert(old_c == *oc),
                None => {},
            }
        }
        insert_rec(&mut c, toks, i + 1, id);
        let ghost new_c = c;
        node.any_child = Some(Box::new(c));
        assert(stored_pattern(rest) == seq![single_wildcard()] + stored_pattern(tv.skip(i + 1)));
        assert forall|p: Seq<Seq<u8>>, x: u128|
            node_has(*node, p, x) <==> (node_has(*old(node), p, x) || (p == stored_pattern(rest)
                && x == id)) by {
            if p.len() > 0 && p[0] == single_wildcard() {
                let q = p.drop_first();
                assert(node_has(*node, p, x) == node_has(new_c, q, x));
                assert(node_has(new_c, q, x) <==> (node_has(old_c, q, x) || (q == stored_pattern(
                    tv.skip(i + 1),
                ) && x == id)));
                match old(node).any_child {
                    Some(oc) => assert(old_c == *oc),
                    None => assert(!node_has(old_c, q, x)),
                }
                if q == stored_pattern(tv.skip(i + 1)) {
                    assert(p =~= seq![single_wildcard()] + q);
                }
            }
            if p == stored_pattern(rest) {
                assert(p[0] == single_wildcard());
                assert(p.drop_first() =~= stored_pattern(tv.skip(i + 1)));
            }
        }
    } else {
        let ghost old_children = node.children@;
        assert(stored_pattern(rest) == seq![tok@] + stored_pattern(tv.skip(i + 1)));
        match find_child(&node.children, tok) {
            Some(k) => {
                let (t, mut c) = node.children.remove(k);
                let ghost old_c = c;
                assert(old_children == old(node).children@);
                proof {
                    lemma_child_wf(*old(node), k as int);
                }
                assert(old_children[k as int].1 == old_c);
                insert_rec(&mut c, toks, i + 1, id);
                let ghost new_c = c;
                node.children.insert(k, (t, c));
                assert(node.children@ =~= old_children.update(k as int, (t, new_c)));
                assert forall|p: Seq<Seq<u8>>, x: u128|
                    node_has(*node, p, x) <==> (node_has(*old(node), p, x) || (p
                        == stored_pattern(rest) && x == id)) by {
                    if p.len() > 0 && p[0] != trailing_wildcard() && p[0] != single_wildcard() {
                        let q = p.drop_first();
                        if p[0] == tok@ {
                            if node_has(*node, p, x) {
                                let j = choose|j: int|
                                    0 <= j < node.children@.len() && #[trigger] node.children@[j].0@
                                        == p[0] && node_has(node.children@[j].1, q, x);
                                assert(j == k);
                            }
                            if node_has(*old(node), p, x) {
                                let j = choose|j: int|
                                    0 <= j < old_children.len() && #[trigger] old_children[j].0@
                                        == p[0] && node_has(old_children[j].1, q, x);
                                assert(j == k);
                                assert(node.children@[k as int].0@ == p[0]);
                            }
                            if q == stored_pattern(tv.skip(i + 1)) && x == id {
                                assert(node.children@[k as int].0@ == p[0]);
                            }
                            assert(node.children@[k as int].0@ == p[0]);
                            if p == stored_pattern(rest) {
                                assert(q =~= stored_pattern(tv.skip(i + 1)));
                            }
                            if q == stored_pattern(tv.skip(i + 1)) {
                                assert(p =~= seq![tok@] + q);
                            }
                        } else {
                            if node_has(*node, p, x) {
                                let j = choose|j: int|
                                    0 <= j < node.children@.len() && #[trigger] node.children@[j].0@
                                        == p[0] && node_has(node.children@[j].1, q, x);
                                assert(j != k);
                                assert(old_children[j] == node.children@[j]);
                            }
                            if node_has(*old(node), p, x) {
                                let j = choose|j: int|
                                    0 <= j < old_children.len() && #[trigger] old_children[j].0@
                                        == p[0] && node_has(old_children[j].1, q, x);
                                assert(j != k);
                                assert(old_children[j] == node.children@[j]);
                            }
                            if p == stored_pattern(rest) {
                                assert(p[0] == tok@);
                            }
                        }
                    } else if p == stored_pattern(rest) {
                        assert(p[0] == tok@);
                    }
                }
                assert forall|a: int, b: int|
                    0 <= a < b < node.children@.len() implies #[trigger] node.children@[a].0@
                    != #[trigger] node.children@[b].0@ by {
                    assert(node.children@[a].0@ == old_children[a].0@);
                    assert(node.children@[b].0@ == old_children[b].0@);
                }
                assert forall|a: int|
                    0 <= a < node.children@.len() implies #[trigger] node_wf(
                    node.children@[a].1,
                ) by {
                    if a != k {
                        assert(node.children@[a] == old_children[a]);
                    }
                }
            },
            None => {
                let mut c = TrieNode::empty();
                let ghost old_c = c;
                insert_rec(&mut c, toks, i + 1, id);
                let ghost new_c = c;
                let t = tok.clone();
                node.children.push((t, c));
                let ghost k = old_children.len() as int;
                assert(node.children@ =~= old_children.push((t, new_c)));
                assert forall|p: Seq<Seq<u8>>, x: u128|
                    node_has(*node, p, x) <==> (node_has(*old(node), p, x) || (p
                        == stored_pattern(rest) && x == id)) by {
                    if p.len() > 0 && p[0] != trailing_wildcard() && p[0] != single_wildcard() {
                        let q = p.drop_first();
                        if node_has(*node, p, x) {
                            let j = choose|j: int|
                                0 <= j < node.children@.len() && #[trigger] node.children@[j].0@
                                    == p[0] && node_has(node.children@[j].1, q, x);
                            if j < k {
                                assert(old_children[j] == node.children@[j]);
                            } else {
                                assert(j == k);
                                assert(!node_has(old_c, q, x));
                                assert(q == stored_pattern(tv.skip(i + 1)) && x == id);
                                assert(p =~= seq![tok@] + q);
                            }
                        }
                        if node_has(*old(node), p, x) {
                            let j = choose|j: int|
                                0 <= j < old_children.len() && #[trigger] old_children[j].0@
                                    == p[0] && node_has(old_children[j].1, q, x);
                            assert(old_children[j] == node.children@[j]);
                        }
                        if p == stored_pattern(rest) && x == id {
                            assert(q =~= stored_pattern(tv.skip(i + 1)));
                            assert(node.children@[k as int].0@ == p[0]);
                            assert(node_has(new_c, q, x));
                        }
                    } else if p == stored_pattern(rest) {
                        assert(p[0] == tok@);
                    }
                }
                assert forall|a: int, b: int|
                    0 <= a < b < node.children@.len() implies #[trigger] node.children@[a].0@
                    != #[trigger] node.children@[b].0@ by {
                    if b == k {
                        assert(old_children[a].0@ != tok@);
                    } else {
                        assert(node.children@[a] == old_children[a]);
                        assert(node.children@[b] == old_children[b]);
                    }
                }
                assert forall|a: int|
                    0 <= a < node.children@.len() implies #[trigger] node_wf(
                    node.children@[a].1,
                ) by {
                    if a != k {
                        assert(node.children@[a] == old_children[a]);
                    }
                }
            },
        }
    }
}

/// Drop `x` from `v`.
fn remove_value(v: &mut Vec<u128>, x: u128) -> (found: bool)
    ensures
        found == old(v)@.contains(x),
        forall|y: u128| final(v)@.contains(y) <==> (old(v)@.contains(y) && y != x),
{
    let mut kept: Vec<u128> = Vec::new();
    let mut found = false;
    let mut i: usize = 0;
    while i < v.len()
        invariant
            i <= v@.len(),
            v@ == old(v)@,
            found == v@.take(i as int).contains(x),
            forall|y: u128| kept@.contains(y) <==> (v@.take(i as int).contains(y) && y != x),
        decreases v@.len() - i,
    {
        let y = v[i];
        let ghost prev = v@.take(i as int);
        let ghost next = v@.take(i + 1);
        assert(next =~= prev.push(y));
        if y == x {
            found = true;
        } else {
            kept.push(y);
        }
        assert forall|z: u128| kept@.contains(z) <==> (next.contains(z) && z != x) by {
            if next.contains(z) && z != y {
                let j = choose|j: int| 0 <= j < next.len() && #[trigger] next[j] == z;
                assert(prev[j] == z);
            }
            if prev.contains(z) {
                let j = choose|j: int| 0 <= j < prev.len() && #[trigger] prev[j] == z;
                assert(next[j] == z);
            }
            if kept@.contains(z) && z != y {
                assert(prev.contains(z));
            }
            assert(next[i as int] == y);
        }
        assert(found == next.contains(x)) by {
            if prev.contains(x) {
                let j = choose|j: int| 0 <= j < prev.len() && #[trigger] prev[j] == x;
                assert(next[j] == x);
            }
            if next.contains(x) && y != x {
                let j = choose|j: int| 0 <= j < next.len() && #[trigger] next[j] == x;
                assert(prev[j] == x);
            }
            assert(next[i as int] == y);
        }
        i += 1;
    }
    assert(v@.take(v@.len() as int) =~= v@);
    *v = kept;
    found
}

/// Whether some pattern of the node holds `x`, split by where that pattern starts.
proof fn lemma_has_some(n: TrieNode, x: u128)
    requires
        node_wf(n),
    ensures
        (exists|p: Seq<Seq<u8>>| node_has(n, p, x)) <==> (n.subscriptions@.contains(x) || (exists|
            j: int,
            q: Seq<Seq<u8>>,
        | 0 <= j < n.children@.len() && #[trigger] node_has(n.children@[j].1, q, x)) || (match n.any_child {
            Some(c) => exists|q: Seq<Seq<u8>>| node_has(*c, q, x),
            None => false,
        }) || (match n.trailing_child {
            Some(c) => c.subscriptions@.contains(x),
            None => false,
        })),
{
    lemma_wildcards_differ();
    if exists|p: Seq<Seq<u8>>| node_has(n, p, x) {
        let p = choose|p: Seq<Seq<u8>>| node_has(n, p, x);
        if p.len() > 0 && p[0] != trailing_wildcard() && p[0] != single_wildcard() {
            let j = choose|j: int|
                0 <= j < n.children@.len() && #[trigger] n.children@[j].0@ == p[0] && node_has(
                    n.children@[j].1,
                    p.drop_first(),
                    x,
                );
            assert(node_has(n.children@[j].1, p.drop_first(), x));
        } else if p.len() > 0 && p[0] == single_wildcard() {
            match n.any_child {
                Some(c) => assert(node_has(*c, p.drop_first(), x)),
                None => {},
            }
        }
    }
    if n.subscriptions@.contains(x) {
        assert(node_has(n, Seq::<Seq<u8>>::empty(), x));
    }
    if exists|j: int, q: Seq<Seq<u8>>|
        0 <= j < n.children@.len() && #[trigger] node_has(n.children@[j].1, q, x) {
        let (j, q) = choose|j: int, q: Seq<Seq<u8>>|
            0 <= j < n.children@.len() && #[trigger] node_has(n.children@[j].1, q, x);
        lemma_child_wf(n, j);
        let p = seq![n.children@[j].0@] + q;
        assert(p.drop_first() =~= q);
        assert(node_has(n, p, x));
    }
    match n.any_child {
        Some(c) => {
            if exists|q: Seq<Seq<u8>>| node_has(*c, q, x) {
                let q = choose|q: Seq<Seq<u8>>| node_has(*c, q, x);
                let p = seq![single_wildcard()] + q;
                assert(p.drop_first() =~= q);
                assert(node_has(n, p, x));
            }
        },
        None => {},
    }
    match n.trailing_child {
        Some(c) => {
            if c.subscriptions@.contains(x) {
                let p = seq![trailing_wildcard()];
                assert(p.len() == 1 && p[0] == trailing_wildcard());
                assert(node_has(n, p, x));
            }
        },
        None => {},
    }
}

/// Remove subscription `id` from every pattern of the node.
fn remove_rec(node: &mut TrieNode, id: u128) -> (found: bool)
    requires
        node_wf(*old(node)),
    ensures
        node_wf(*final(node)),
        forall|p: Seq<Seq<u8>>, x: u128|
            node_has(*final(node), p, x) <==> (node_has(*old(node), p, x) && x != id),
        found == exists|p: Seq<Seq<u8>>| node_has(*old(node), p, id),
    decreases *old(node),
{
    proof {
        lemma_wildcards_differ();
    }
    let ghost o = *node;
    let mut found = remove_value(&mut node.subscriptions, id);
    let ghost subs_after = node.subscriptions;
    let n_children = node.children.len();
    let mut k: usize = 0;
    while k < n_children
        invariant
            node_wf(o),
            o == *old(node),
            n_children == o.children@.len(),
            node.children@.len() == n_children,
            k <= n_children,
            node.subscriptions == subs_after,
            forall|y: u128| subs_after@.contains(y) <==> (o.subscriptions@.contains(y) && y != id),
            node.any_child == o.any_child,
            node.trailing_child == o.trailing_child,
            forall|j: int| 0 <= j < n_children ==> #[trigger] node.children@[j].0@ == o.children@[j].0@,
            forall|j: int| k <= j < n_children ==> #[trigger] node.children@[j] == o.children@[j],
            forall|j: int| 0 <= j < k ==> node_wf(#[trigger] node.children@[j].1),
            forall|j: int, p: Seq<Seq<u8>>, x: u128|
                0 <= j < k ==> (#[trigger] node_has(node.children@[j].1, p, x) <==> (node_has(
                    o.children@[j].1,
                    p,
                    x,
                ) && x != id)),
            found == (o.subscriptions@.contains(id) || exists|j: int, q: Seq<Seq<u8>>|
                0 <= j < k && #[trigger] node_has(o.children@[j].1, q, id)),
        decreases n_children - k,
    {
        let ghost before = node.children@;
        let (t, mut c) = node.children.remove(k);
        assert(c == o.children@[k as int].1);
        proof {
            lemma_child_wf(o, k as int);
        }
        let f = remove_rec(&mut c, id);
        let ghost new_c = c;
        node.children.insert(k, (t, c));
        assert(node.children@ =~= before.update(k as int, (t, new_c)));
        if f {
            found = true;
        }
        assert(found == (o.subscriptions@.contains(id) || exists|j: int, q: Seq<Seq<u8>>|
            0 <= j < k + 1 && #[trigger] node_has(o.children@[j].1, q, id))) by {
            if f {
                let q = choose|q: Seq<Seq<u8>>| node_has(o.children@[k as int].1, q, id);
                assert(node_has(o.children@[k as int].1, q, id));
            }
            if exists|j: int, q: Seq<Seq<u8>>|
                0 <= j < k + 1 && #[trigger] node_has(o.children@[j].1, q, id) {
                let (j, q) = choose|j: int, q: Seq<Seq<u8>>|
                    0 <= j < k + 1 && #[trigger] node_has(o.children@[j].1, q, id);
                if j == k {
                    assert(f);
                } else {
                    assert(0 <= j < k && node_has(o.children@[j].1, q, id));
                }
            }
        }
        k += 1;
    }
    let ghost found_children = found;
    if node.any_child.is_some() {
        let mut c = *node.any_child.take().unwrap();
        assert(c == *o.any_child.unwrap());
        let f = remove_rec(&mut c, id);
        if f {
            found = true;
        }
        node.any_child = Some(Box::new(c));
    }
    assert(node.any_child is Some <==> o.any_child is Some);
    assert(node.any_child is Some ==> node_wf(*node.any_child.unwrap()) && forall|
        q: Seq<Seq<u8>>,
        x: u128,
    |
        #[trigger] node_has(*node.any_child.unwrap(), q, x) <==> (node_has(*o.any_child.unwrap(), q, x) && x
            != id));
    if node.trailing_child.is_some() {
        let mut c = *node.trailing_child.take().unwrap();
        let f = remove_value(&mut c.subscriptions, id);
        if f {
            found = true;
        }
        node.trailing_child = Some(Box::new(c));
    }
    assert(node.trailing_child is Some <==> o.trailing_child is Some);
    assert(node.trailing_child is Some ==> forall|x: u128|
        #[trigger] node.trailing_child.unwrap().subscriptions@.contains(x) <==> (
        o.trailing_child.unwrap().subscriptions@.contains(x) && x != id));
    proof {
        lemma_has_some(o, id);
    }
    assert forall|a: int, b: int|
        0 <= a < b < node.children@.len() implies #[trigger] node.children@[a].0@
        != #[trigger] node.children@[b].0@ by {
        assert(node.children@[a].0@ == o.children@[a].0@);
        assert(node.children@[b].0@ == o.children@[b].0@);
    }
    assert forall|a: int| 0 <= a < node.children@.len() implies #[trigger] node.children@[a].0@
        != single_wildcard() && node.children@[a].0@ != trailing_wildcard() by {
        lemma_child_wf(o, a);
    }
    assert forall|p: Seq<Seq<u8>>, x: u128|
        node_has(*node, p, x) <==> (node_has(o, p, x) && x != id) by {
        if p.len() == 0 {
            assert(node.subscriptions@.contains(x) <==> (o.subscriptions@.contains(x) && x != id));
        } else if p[0] == trailing_wildcard() {
            if node.trailing_child is Some {
                assert(node.trailing_child.unwrap().subscriptions@.contains(x) <==> (
                o.trailing_child.unwrap().subscriptions@.contains(x) && x != id));
            }
        } else if p[0] == single_wildcard() {
            if node.any_child is Some {
                assert(node_has(*node.any_child.unwrap(), p.drop_first(), x) <==> (node_has(
                    *o.any_child.unwrap(),
                    p.drop_first(),
                    x,
                ) && x != id));
            }
        }
        if p.len() > 0 && p[0] != trailing_wildcard() && p[0] != single_wildcard() {
            let q = p.drop_first();
            if node_has(*node, p, x) {
                let j = choose|j: int|
                    0 <= j < node.children@.len() && #[trigger] node.children@[j].0@ == p[0]
                        && node_has(node.children@[j].1, q, x);
                assert(o.children@[j].0@ == p[0]);
                assert(node_has(o.children@[j].1, q, x) && x != id);
                assert(node_has(o, p, x));
            }
            if node_has(o, p, x) && x != id {
                let j = choose|j: int|
                    0 <= j < o.children@.len() && #[trigger] o.children@[j].0@ == p[0] && node_has(
                        o.children@[j].1,
                        q,
                        x,
                    );
                assert(node.children@[j].0@ == p[0]);
                assert(node_has(node.children@[j].1, q, x));
                assert(node_has(*node, p, x));
            }
        }
    }
    assert(o == *old(node));
    assert forall|p: Seq<Seq<u8>>, x: u128|
        node_has(*node, p, x) <==> (node_has(*old(node), p, x) && x != id) by {
        assert(node_has(*node, p, x) <==> (node_has(o, p, x) && x != id));
    }
    found
}

/// Collect into `results` the subscriptions that the node holds under patterns
/// matching the topic tokens from `depth` on.
fn match_rec(node: &TrieNode, toks: &Vec<Vec<u8>>, depth: usize, results: &mut Vec<u128>)
    requires
        node_wf(*node),
        depth <= toks@.len(),
        old(results)@.no_duplicates(),
    ensures
        final(results)@.no_duplicates(),
        forall|x: u128|
            final(results)@.contains(x) <==> (old(results)@.contains(x) || node_matches(
                *node,
                token_views(toks@).skip(depth as int),
                x,
            )),
    decreases toks@.len() - depth,
{
    proof {
        lemma_wildcards_differ();
    }
    let ghost t = token_views(toks@).skip(depth as int);
    if depth == toks.len() {
        let ghost r0 = results@;
        extend_unique(results, &node.subscriptions);
        assert(t.len() == 0);
        assert forall|x: u128| node_matches(*node, t, x) <==> node.subscriptions@.contains(x) by {
            if node.subscriptions@.contains(x) {
                assert(node_has(*node, Seq::<Seq<u8>>::empty(), x));
                assert(pattern_matches(Seq::<Seq<u8>>::empty(), t));
            }
            if node_matches(*node, t, x) {
                let p = choose|p: Seq<Seq<u8>>| #[trigger] node_has(*node, p, x) && pattern_matches(p, t);
                assert(p.len() == 0);
            }
        }
        assert forall|x: u128| results@.contains(x) <==> (r0.contains(x) || node_matches(*node, t, x)) by {
            assert(node_matches(*node, t, x) <==> node.subscriptions@.contains(x));
        }
        return ;
    }
    let tok = &toks[depth];
    let ghost t1 = token_views(toks@).skip(depth + 1);
    assert(t[0] == tok@);
    assert(t.drop_first() =~= t1);
    let ghost r0 = results@;
    let k = find_child(&node.children, tok);
    match k {
        Some(k) => {
            proof {
                lemma_child_wf(*node, k as int);
            }
            match_rec(&node.children[k].1, toks, depth + 1, results);
        },
        None => {},
    }
    let ghost r1 = results@;
    match &node.any_child {
        Some(c) => {
            match_rec(c, toks, depth + 1, results);
        },
        None => {},
    }
    let ghost r2 = results@;
    match &node.trailing_child {
        Some(c) => {
            extend_unique(results, &c.subscriptions);
        },
        None => {},
    }
    assert forall|x: u128|
        results@.contains(x) <==> (r0.contains(x) || node_matches(*node, t, x)) by {
        if node_matches(*node, t, x) {
            let p = choose|p: Seq<Seq<u8>>| #[trigger] node_has(*node, p, x) && pattern_matches(p, t);
            let q = p.drop_first();
            if p[0] == trailing_wildcard() {
                assert(node.trailing_child.unwrap().subscriptions@.contains(x));
            } else if p[0] == single_wildcard() {
                assert(node_has(*node.any_child.unwrap(), q, x) && pattern_matches(q, t1));
                assert(node_matches(*node.any_child.unwrap(), t1, x));
            } else {
                let j = choose|j: int|
                    0 <= j < node.children@.len() && #[trigger] node.children@[j].0@ == p[0]
                        && node_has(node.children@[j].1, q, x);
                assert(k == Some(j as usize));
                assert(node_has(node.children@[j].1, q, x) && pattern_matches(q, t1));
                assert(node_matches(node.children@[j].1, t1, x));
            }
        }
        match k {
            Some(kk) => {
                if node_matches(node.children@[kk as int].1, t1, x) {
                    let q = choose|q: Seq<Seq<u8>>|
                        #[trigger] node_has(node.children@[kk as int].1, q, x) && pattern_matches(q, t1);
                    let p = seq![tok@] + q;
                    assert(p.drop_first() =~= q);
                    lemma_child_wf(*node, kk as int);
                    assert(node_has(*node, p, x));
                    assert(pattern_matches(p, t));
                }
            },
            None => {},
        }
        match node.any_child {
            Some(c) => {
                if node_matches(*c, t1, x) {
                    let q = choose|q: Seq<Seq<u8>>| #[trigger] node_has(*c, q, x) && pattern_matches(q, t1);
                    let p = seq![single_wildcard()] + q;
                    assert(p.drop_first() =~= q);
                    assert(node_has(*node, p, x));
                    assert(pattern_matches(p, t));
                }
            },
            None => {},
        }
        match node.trailing_child {
            Some(c) => {
                if c.subscriptions@.contains(x) {
                    let p = seq![trailing_wildcard()];
                    assert(node_has(*node, p, x));
                    assert(pattern_matches(p, t));
                }
            },
            None => {},
        }
    }
}

/// A trie of topic patterns, each holding the subscriptions registered under it.
#[derive(Debug)]
pub struct TopicTrie {
    root: TrieNode,
}

impl View for TopicTrie {
    /// The pairs of stored pattern (as tokens) and subscription that the trie holds.
    type V = Set<(Seq<Seq<u8>>, u128)>;

    closed spec fn view(&self) -> Set<(Seq<Seq<u8>>, u128)> {
        Set::new(|e: (Seq<Seq<u8>>, u128)| node_has(self.root, e.0, e.1))
    }
}

impl TopicTrie {
    /// The trie's internal invariant.
    pub closed spec fn wf(&self) -> bool {
        node_wf(self.root)
    }

    /// The subscriptions whose pattern matches the topic tokens `t`.
    pub open spec fn matching(&self, t: Seq<Seq<u8>>) -> Set<u128> {
        Set::new(|x: u128| exists|p: Seq<Seq<u8>>| #[trigger] self@.contains((p, x)) && pattern_matches(p, t))
    }

    /// An empty trie.
    pub fn new() -> (r: TopicTrie)
        ensures
            r.wf(),
            r@ == Set::<(Seq<Seq<u8>>, u128)>::empty(),
    {
        let r = TopicTrie { root: TrieNode::empty() };
        assert(r@ =~= Set::<(Seq<Seq<u8>>, u128)>::empty());
        r
    }

    /// Register `subscription_id` under a topic pattern.
    pub fn insert(&mut self, topic_pattern: &str, subscription_id: u128)
        requires
            old(self).wf(),
        ensures
            final(self).wf(),
            final(self)@ == old(self)@.insert(
                (stored_pattern(topic_tokens(topic_pattern)), subscription_id),
            ),
    {
        let toks = split_topic(topic_pattern);
        assert(token_views(toks@).skip(0) =~= topic_tokens(topic_pattern));
        insert_rec(&mut self.root, &toks, 0, subscription_id);
        assert(self@ =~= old(self)@.insert(
            (stored_pattern(topic_tokens(topic_pattern)), subscription_id),
        ));
    }

    /// Remove `subscription_id` from every pattern; tell whether it was there.
    pub fn remove(&mut self, subscription_id: u128) -> (found: bool)
        requires
            old(self).wf(),
        ensures
            final(self).wf(),
            final(self)@ == Set::new(
                |e: (Seq<Seq<u8>>, u128)| old(self)@.contains(e) && e.1 != subscription_id,
            ),
            found == exists|e: (Seq<Seq<u8>>, u128)|
                #[trigger] old(self)@.contains(e) && e.1 == subscription_id,
    {
        let found = remove_rec(&mut self.root, subscription_id);
        assert(self@ =~= Set::new(
            |e: (Seq<Seq<u8>>, u128)| old(self)@.contains(e) && e.1 != subscription_id,
        ));
        proof {
            if found {
                let p = choose|p: Seq<Seq<u8>>| node_has(old(self).root, p, subscription_id);
                assert(old(self)@.contains((p, subscription_id)));
            }
        }
        found
    }

    /// The subscriptions whose pattern matches a literal topic, each once.
    pub fn match_topic(&self, literal_topic: &str) -> (res: Vec<u128>)
        requires
            self.wf(),
        ensures
            res@.no_duplicates(),
            forall|x: u128| res@.contains(x) <==> self.matching(topic_tokens(literal_topic)).contains(x),
    {
        let toks = split_topic(literal_topic);
        let mut results: Vec<u128> = Vec::new();
        assert(token_views(toks@).skip(0) =~= topic_tokens(literal_topic));
        match_rec(&self.root, &toks, 0, &mut results);
        assert forall|x: u128|
            results@.contains(x) <==> self.matching(topic_tokens(literal_topic)).contains(x) by {
            let t = topic_tokens(literal_topic);
            if results@.contains(x) {
                assert(node_matches(self.root, t, x));
                let p = choose|p: Seq<Seq<u8>>| #[trigger] node_has(self.root, p, x) && pattern_matches(p, t);
                assert(self@.contains((p, x)));
            }
            if self.matching(t).contains(x) {
                let p = choose|p: Seq<Seq<u8>>| #[trigger] self@.contains((p, x)) && pattern_matches(p, t);
                assert(node_has(self.root, p, x));
            }
        }
        results
    }
}

} // verus!
