//! Resolution of an entry's stored path to a destination under a root.
//!
//! The archive format records entry paths with a fixed forward-slash
//! separator, independent of the host. Resolution splits the stored name on
//! that separator and joins each non-empty segment, in order, onto the root
//! with a single separator, so the result never depends on how the host would
//! parse the raw stored string.
//!
//! Resolution alone keeps every destination inside the root's subtree only
//! syntactically: a parent-directory segment (`..`) would still escape it
//! once the filesystem interprets the path. Detecting such segments is the
//! job of [`has_dotdot`] / [`name_has_traversal`]; the planner reports an
//! entry that carries one as a distinct error kind instead of resolving it.

use vstd::prelude::*;

verus! {

/// `root` followed by a separator and `seg`, or `root` itself when the
/// segment is empty.
pub open spec fn append_seg(root: Seq<char>, seg: Seq<char>) -> Seq<char> {
    if seg.len() == 0 {
        root
    } else {
        root + seq!['/'] + seg
    }
}

/// Joins the segments of `rest` onto `root`, with `seg` the partial segment
/// read so far: a separator closes the current segment, any other character
/// extends it, and the end of the name closes the last one.
pub open spec fn path_join_from(root: Seq<char>, seg: Seq<char>, rest: Seq<char>) -> Seq<char>
    decreases rest.len(),
{
    if rest.len() == 0 {
        append_seg(root, seg)
    } else if rest[0] == '/' {
        path_join_from(append_seg(root, seg), Seq::empty(), rest.skip(1))
    } else {
        path_join_from(root, seg.push(rest[0]), rest.skip(1))
    }
}

/// The destination for a stored name: every non-empty forward-slash-separated
/// segment of `stored` joined, in order, onto `root` with a single separator.
/// Empty segments (leading, trailing, or doubled separators) contribute
/// nothing, so an absolute stored name still lands under the root.
pub open spec fn path_join(root: Seq<char>, stored: Seq<char>) -> Seq<char> {
    path_join_from(root, Seq::empty(), stored)
}

/// `p` lies within the subtree of `root`, syntactically: it is the root
/// itself, or the root followed by a separator.
pub open spec fn is_under(root: Seq<char>, p: Seq<char>) -> bool {
    p == root || (p.len() > root.len() && p.subrange(0, root.len() + 1 as int) == root + seq!['/'])
}

proof fn lemma_under_trans(a: Seq<char>, b: Seq<char>, c: Seq<char>)
    requires
        is_under(a, b),
        is_under(b, c),
    ensures
        is_under(a, c),
{
    if b == a || c == b {
    } else {
        assert forall|k: int|
            0 <= k < a.len() + 1 implies c.subrange(0, a.len() + 1 as int)[k] == (a
            + seq!['/'])[k] by {
            assert(c.subrange(0, a.len() + 1 as int)[k] == c[k]);
            assert(c.subrange(0, b.len() + 1 as int)[k] == c[k]);
            assert(b.subrange(0, a.len() + 1 as int)[k] == b[k]);
        }
        assert(c.subrange(0, a.len() + 1 as int) =~= a + seq!['/']);
    }
}

proof fn lemma_append_seg_under(root: Seq<char>, seg: Seq<char>)
    ensures
        is_under(root, append_seg(root, seg)),
{
    if seg.len() > 0 {
        assert((root + seq!['/'] + seg).subrange(0, root.len() + 1 as int) =~= root + seq!['/']);
    }
}

proof fn lemma_join_from_under(root: Seq<char>, seg: Seq<char>, rest: Seq<char>)
    ensures
        is_under(root, path_join_from(root, seg, rest)),
    decreases rest.len(),
{
    if rest.len() == 0 {
        lemma_append_seg_under(root, seg);
    } else if rest[0] == '/' {
        lemma_append_seg_under(root, seg);
        lemma_join_from_under(append_seg(root, seg), Seq::empty(), rest.skip(1));
        lemma_under_trans(
            root,
            append_seg(root, seg),
            path_join_from(append_seg(root, seg), Seq::empty(), rest.skip(1)),
        );
    } else {
        lemma_join_from_under(root, seg.push(rest[0]), rest.skip(1));
    }
}

/// Every resolved destination stays within the root's subtree, syntactically:
/// it is the root itself (a name with no non-empty segment) or extends the
/// root with a separator. Escaping the subtree therefore takes a
/// parent-directory segment, which resolution never removes and which the
/// planner rejects separately.
pub proof fn lemma_resolved_stays_under_root(root: Seq<char>, stored: Seq<char>)
    ensures
        is_under(root, path_join(root, stored)),
{
    lemma_join_from_under(root, Seq::empty(), stored);
}

proof fn lemma_append_seg_no_dotdot(a: Seq<char>, seg: Seq<char>)
    requires
        !has_dotdot(a),
        forall|k: int| 0 <= k < seg.len() ==> seg[k] != '/',
        !(seg.len() == 2 && seg[0] == '.' && seg[1] == '.'),
    ensures
        !has_dotdot(append_seg(a, seg)),
{
    if seg.len() == 0 {
    } else {
        let r = a + seq!['/'] + seg;
        assert forall|i: int| !dotdot_at(r, i) by {
            if dotdot_at(r, i) {
                if i + 2 <= a.len() {
                    assert(r[i] == a[i]);
                    assert(r[i + 1] == a[i + 1]);
                    if i > 0 {
                        assert(r[i - 1] == a[i - 1]);
                    }
                    if i + 2 < a.len() {
                        assert(r[i + 2] == a[i + 2]);
                    } else {
                        assert(r[i + 2] == '/');
                    }
                    assert(dotdot_at(a, i));
                } else if i <= a.len() {
                    assert(r[a.len() as int] == '/');
                    assert(i == a.len() || i + 1 == a.len() || i + 2 == a.len());
                } else {
                    let k = i - a.len() - 1;
                    assert(r[i] == seg[k]);
                    assert(r[i + 1] == seg[k + 1]);
                    if k > 0 {
                        assert(r[i - 1] == seg[k - 1]);
                        assert(r[i - 1] != '/');
                    }
                    assert(k == 0);
                    if i + 2 < r.len() {
                        assert(r[i + 2] == seg[k + 2]);
                        assert(r[i + 2] != '/');
                    }
                    assert(i + 2 == r.len());
                    assert(seg.len() == 2 && seg[0] == '.' && seg[1] == '.');
                }
            }
        }
    }
}

proof fn lemma_dotdot_in_suffix(seg: Seq<char>, rest: Seq<char>)
    requires
        rest.len() > 0,
        rest[0] == '/',
        !has_dotdot(seg + rest),
    ensures
        !has_dotdot(rest.skip(1)),
{
    let w = seg + rest;
    let suf = rest.skip(1);
    if has_dotdot(suf) {
        let j = choose|j: int| dotdot_at(suf, j);
        let off = seg.len() + 1;
        assert(w[seg.len() as int] == rest[0]);
        assert forall|m: int| 0 <= m < suf.len() implies w[off + m] == suf[m] by {
            assert(w[off + m] == rest[m + 1]);
        }
        assert(dotdot_at(w, j + off));
    }
}

proof fn lemma_join_from_no_dotdot(root: Seq<char>, seg: Seq<char>, rest: Seq<char>)
    requires
        !has_dotdot(root),
        !has_dotdot(seg + rest),
        forall|k: int| 0 <= k < seg.len() ==> seg[k] != '/',
    ensures
        !has_dotdot(path_join_from(root, seg, rest)),
    decreases rest.len(),
{
    if rest.len() == 0 {
        assert(seg + rest =~= seg);
        if seg.len() == 2 && seg[0] == '.' && seg[1] == '.' {
            assert(dotdot_at(seg, 0));
        }
        lemma_append_seg_no_dotdot(root, seg);
    } else if rest[0] == '/' {
        if seg.len() == 2 && seg[0] == '.' && seg[1] == '.' {
            assert((seg + rest)[0] == '.');
            assert((seg + rest)[1] == '.');
            assert((seg + rest)[2] == '/');
            assert(dotdot_at(seg + rest, 0));
        }
        lemma_append_seg_no_dotdot(root, seg);
        lemma_dotdot_in_suffix(seg, rest);
        assert(Seq::<char>::empty() + rest.skip(1) =~= rest.skip(1));
        lemma_join_from_no_dotdot(append_seg(root, seg), Seq::empty(), rest.skip(1));
    } else {
        assert(seg.push(rest[0]) + rest.skip(1) =~= seg + rest);
        lemma_join_from_no_dotdot(root, seg.push(rest[0]), rest.skip(1));
    }
}

/// A destination resolved from a name free of parent-directory segments,
/// under a root free of them, contains none itself. Together with
/// [`lemma_resolved_stays_under_root`] this makes the resolved path a true
/// descendant of the root: it extends the root and nothing in it can climb
/// back out.
pub proof fn lemma_resolved_has_no_traversal(root: Seq<char>, stored: Seq<char>)
    requires
        !has_dotdot(root),
        !has_dotdot(stored),
    ensures
        !has_dotdot(path_join(root, stored)),
{
    assert(Seq::<char>::empty() + stored =~= stored);
    lemma_join_from_no_dotdot(root, Seq::empty(), stored);
}

/// Resolves a stored entry name against the destination root.
pub fn resolve(root: &str, stored: &str) -> (r: String)
    ensures
        r@ == path_join(root@, stored@),
{
    let n = stored.unicode_len();
    let mut out = String::from_str(root);
    let mut start: usize = 0;
    let mut i: usize = 0;
    proof {
        assert(stored@.subrange(0, 0) =~= Seq::<char>::empty());
        assert(stored@.skip(0) =~= stored@);
    }
    while i < n
        invariant
            n == stored@.len(),
            start <= i <= n,
            path_join(root@, stored@) == path_join_from(
                out@,
                stored@.subrange(start as int, i as int),
                stored@.skip(i as int),
            ),
        decreases n - i,
    {
        let c = stored.get_char(i);
        proof {
            assert(stored@.skip(i as int)[0] == stored@[i as int]);
        }
        if c == '/' {
            let ghost out0 = out@;
            if i > start {
                let seg = stored.substring_char(start, i);
                out.append("/");
                out.append(seg);
                proof {
                    reveal_strlit("/");
                    assert(out@ =~= append_seg(out0, stored@.subrange(start as int, i as int)));
                }
            } else {
                proof {
                    assert(stored@.subrange(start as int, i as int) =~= Seq::<char>::empty());
                    assert(out@ == append_seg(out0, stored@.subrange(start as int, i as int)));
                }
            }
            proof {
                assert(stored@.skip(i as int).skip(1) =~= stored@.skip(i as int + 1));
                assert(stored@.subrange(i as int + 1, i as int + 1) =~= Seq::<char>::empty());
            }
            start = i + 1;
            i = i + 1;
        } else {
            proof {
                assert(stored@.subrange(start as int, i as int).push(stored@[i as int])
                    =~= stored@.subrange(start as int, i as int + 1));
                assert(stored@.skip(i as int).skip(1) =~= stored@.skip(i as int + 1));
            }
            i = i + 1;
        }
    }
    proof {
        assert(stored@.skip(n as int) =~= Seq::<char>::empty());
    }
    let ghost out0 = out@;
    if n > start {
        let seg = stored.substring_char(start, n);
        out.append("/");
        out.append(seg);
        proof {
            reveal_strlit("/");
            assert(out@ =~= append_seg(out0, stored@.subrange(start as int, n as int)));
        }
    } else {
        proof {
            assert(stored@.subrange(start as int, n as int) =~= Seq::<char>::empty());
            assert(out@ == append_seg(out0, stored@.subrange(start as int, n as int)));
        }
    }
    out
}

/// A stored name marks a directory when it ends with the separator.
pub open spec fn dir_marker(s: Seq<char>) -> bool {
    s.len() > 0 && s.last() == '/'
}

/// Decides whether a raw stored name is a directory marker.
pub fn is_dir_marker(s: &str) -> (r: bool)
    ensures
        r == dir_marker(s@),
{
    let n = s.unicode_len();
    if n == 0 {
        false
    } else {
        s.get_char(n - 1) == '/'
    }
}

/// A parent-directory segment stands at position `i` of `s`: two dots alone
/// between separators or the ends of the name.
pub open spec fn dotdot_at(s: Seq<char>, i: int) -> bool {
    &&& 0 <= i
    &&& i + 2 <= s.len()
    &&& s[i] == '.'
    &&& s[i + 1] == '.'
    &&& (i == 0 || s[i - 1] == '/')
    &&& (i + 2 == s.len() || s[i + 2] == '/')
}

/// The name contains a parent-directory segment somewhere.
pub open spec fn has_dotdot(s: Seq<char>) -> bool {
    exists|i: int| dotdot_at(s, i)
}

/// Decides whether a decoded entry name contains a parent-directory segment,
/// which resolution would otherwise carry into the destination path.
pub fn name_has_traversal(s: &str) -> (r: bool)
    ensures
        r == has_dotdot(s@),
{
    let n = s.unicode_len();
    let mut i: usize = 0;
    while i < n
        invariant
            n == s@.len(),
            i <= n,
            forall|j: int| 0 <= j < i ==> !dotdot_at(s@, j),
        decreases n - i,
    {
        if n >= 2 && i <= n - 2 && s.get_char(i) == '.' && s.get_char(i + 1) == '.' && (i == 0
            || s.get_char(i - 1) == '/') && (i + 2 == n || s.get_char(i + 2) == '/') {
            proof {
                assert(dotdot_at(s@, i as int));
            }
            return true;
        }
        proof {
            assert(!dotdot_at(s@, i as int));
        }
        i = i + 1;
    }
    proof {
        assert(forall|j: int| dotdot_at(s@, j) ==> 0 <= j < n);
    }
    false
}

/// The stored name with its final, file-name segment removed: everything up
/// to and including the last separator, or the empty name when there is none.
pub open spec fn drop_last_segment(s: Seq<char>) -> Seq<char>
    decreases s.len(),
{
    if s.len() == 0 {
        s
    } else if s.last() == '/' {
        s
    } else {
        drop_last_segment(s.drop_last())
    }
}

/// Index at which the final, file-name segment of `s` starts; everything
/// before it is the parent part of the name.
pub fn parent_cut(s: &str) -> (k: usize)
    ensures
        k <= s@.len(),
        s@.take(k as int) == drop_last_segment(s@),
{
    let n = s.unicode_len();
    let mut k: usize = n;
    proof {
        assert(s@.take(n as int) =~= s@);
    }
    while k > 0
        invariant
            n == s@.len(),
            k <= n,
            drop_last_segment(s@) == drop_last_segment(s@.take(k as int)),
        ensures
            k <= n,
            drop_last_segment(s@) == drop_last_segment(s@.take(k as int)),
            k == 0 || s@[k - 1] == '/',
        decreases k,
    {
        if s.get_char(k - 1) == '/' {
            break ;
        }
        proof {
            assert(s@.take(k as int).last() == s@[k - 1]);
            assert(s@.take(k as int).drop_last() =~= s@.take(k as int - 1));
        }
        k = k - 1;
    }
    proof {
        if k == 0 {
            assert(s@.take(0) =~= Seq::<char>::empty());
        } else {
            assert(s@.take(k as int).last() == s@[k - 1]);
        }
    }
    k
}

} // verus!
