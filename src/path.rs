//! Path arithmetic on character sequences: segment normalization and directories.
use vstd::prelude::*;

verus! {

/// The views of a sequence of character vectors.
pub open spec fn views(s: Seq<Vec<char>>) -> Seq<Seq<char>> {
    s.map_values(|v: Vec<char>| v@)
}

/// Adds one path segment to a stack of segments: empty and `.` segments vanish,
/// `..` drops the last segment (if any), every other segment is pushed.
pub open spec fn push_segment(stack: Seq<Seq<char>>, seg: Seq<char>) -> Seq<Seq<char>> {
    if seg.len() == 0 || seg == seq!['.'] {
        stack
    } else if seg == seq!['.', '.'] {
        if stack.len() > 0 {
            stack.drop_last()
        } else {
            stack
        }
    } else {
        stack.push(seg)
    }
}

/// The segment stack and the pending segment after reading `s` from left to right.
pub open spec fn walk(s: Seq<char>) -> (Seq<Seq<char>>, Seq<char>)
    decreases s.len(),
{
    if s.len() == 0 {
        (Seq::empty(), Seq::empty())
    } else {
        let w = walk(s.drop_last());
        if s.last() == '/' {
            (push_segment(w.0, w.1), Seq::empty())
        } else {
            (w.0, w.1.push(s.last()))
        }
    }
}

/// The normalized segments of a path.
pub open spec fn segments_of(s: Seq<char>) -> Seq<Seq<char>> {
    push_segment(walk(s).0, walk(s).1)
}

/// `/a/b/c` for the segments `a`, `b`, `c`.
pub open spec fn join_abs(segs: Seq<Seq<char>>) -> Seq<char>
    decreases segs.len(),
{
    if segs.len() == 0 {
        Seq::empty()
    } else {
        join_abs(segs.drop_last()) + seq!['/'] + segs.last()
    }
}

/// The absolute, normalized form of a path: `/` when no segment is left.
pub open spec fn normalize_path(s: Seq<char>) -> Seq<char> {
    if segments_of(s).len() == 0 {
        seq!['/']
    } else {
        join_abs(segments_of(s))
    }
}

/// Everything before the last `/` of `p`; empty when `p` has no `/`.
pub open spec fn dir_of(p: Seq<char>) -> Seq<char>
    decreases p.len(),
{
    if p.len() == 0 {
        p
    } else if p.last() == '/' {
        p.drop_last()
    } else {
        dir_of(p.drop_last())
    }
}

fn push_seg(stack: &mut Vec<Vec<char>>, seg: Vec<char>)
    ensures
        views(final(stack)@) == push_segment(views(old(stack)@), seg@),
{
    let ghost old_views = views(stack@);
    let n = seg.len();
    if n == 0 || (n == 1 && seg[0] == '.') {
        proof {
            if n == 1 {
                assert(seg@ =~= seq!['.']);
            }
        }
    } else if n == 2 && seg[0] == '.' && seg[1] == '.' {
        assert(seg@ =~= seq!['.', '.']);
        if stack.len() > 0 {
            stack.pop();
            assert(views(stack@) =~= old_views.drop_last());
        }
    } else {
        assert(seg@ != seq!['.']) by {
            if n == 1 {
                assert(seg@[0] != seq!['.'][0]);
            }
        }
        assert(seg@ != seq!['.', '.']) by {
            if n == 2 {
                assert(seg@[0] != '.' || seg@[1] != '.');
            }
        }
        stack.push(seg);
        assert(views(stack@) =~= old_views.push(seg@));
    }
}

fn join_segments(stack: &Vec<Vec<char>>) -> (r: Vec<char>)
    ensures
        r@ == join_abs(views(stack@)),
{
    let mut out: Vec<char> = Vec::new();
    let mut i: usize = 0;
    while i < stack.len()
        invariant
            i <= stack@.len(),
            out@ == join_abs(views(stack@).take(i as int)),
        decreases stack@.len() - i,
    {
        let ghost prev = out@;
        out.push('/');
        crate::text::push_all(&mut out, &stack[i]);
        i = i + 1;
        let ghost t = views(stack@).take(i as int);
        assert(t.drop_last() =~= views(stack@).take(i - 1));
        assert(out@ =~= join_abs(t));
    }
    assert(views(stack@).take(i as int) =~= views(stack@));
    out
}

/// The absolute, normalized form of `p`.
pub fn normalize(p: &Vec<char>) -> (r: Vec<char>)
    ensures
        r@ == normalize_path(p@),
{
    let mut stack: Vec<Vec<char>> = Vec::new();
    let mut cur: Vec<char> = Vec::new();
    let mut i: usize = 0;
    assert(views(stack@) =~= Seq::<Seq<char>>::empty());
    while i < p.len()
        invariant
            i <= p@.len(),
            walk(p@.take(i as int)) == (views(stack@), cur@),
        decreases p@.len() - i,
    {
        let c = p[i];
        assert(p@.take(i + 1).drop_last() =~= p@.take(i as int));
        if c == '/' {
            let seg = cur;
            cur = Vec::new();
            push_seg(&mut stack, seg);
        } else {
            cur.push(c);
        }
        i = i + 1;
        assert(walk(p@.take(i as int)) == (views(stack@), cur@));
    }
    assert(p@.take(i as int) =~= p@);
    push_seg(&mut stack, cur);
    if stack.len() == 0 {
        let r = vec!['/'];
        assert(r@ =~= seq!['/']);
        r
    } else {
        join_segments(&stack)
    }
}

/// Everything before the last `/` of `p`.
pub fn dir(p: &Vec<char>) -> (r: Vec<char>)
    ensures
        r@ == dir_of(p@),
{
    let mut i: usize = p.len();
    assert(p@.take(i as int) =~= p@);
    while i > 0 && p[i - 1] != '/'
        invariant
            i <= p@.len(),
            dir_of(p@.take(i as int)) == dir_of(p@),
        decreases i,
    {
        assert(p@.take(i as int).drop_last() =~= p@.take(i - 1));
        i = i - 1;
    }
    let mut out: Vec<char> = Vec::new();
    if i > 0 {
        assert(p@.take(i as int).drop_last() =~= p@.take(i - 1));
        let mut j: usize = 0;
        while j < i - 1
            invariant
                0 < i <= p@.len(),
                j <= i - 1,
                out@ == p@.take(j as int),
            decreases i - 1 - j,
        {
            out.push(p[j]);
            j = j + 1;
            assert(out@ =~= p@.take(j as int));
        }
    } else {
        assert(p@.take(0) =~= Seq::<char>::empty());
    }
    out
}

} // verus!
