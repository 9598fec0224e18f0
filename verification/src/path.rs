//! Slash-separated paths: joining, and the final component.

use vstd::prelude::*;

use crate::text::chars_of;

verus! {

/// `p` with its trailing slashes removed.
pub open spec fn strip_trailing_slashes(p: Seq<char>) -> Seq<char>
    decreases p.len(),
{
    if p.len() > 0 && p.last() == '/' {
        strip_trailing_slashes(p.drop_last())
    } else {
        p
    }
}

/// The characters after the last slash of `p`.
pub open spec fn last_segment(p: Seq<char>) -> Seq<char>
    decreases p.len(),
{
    if p.len() == 0 || p.last() == '/' {
        Seq::empty()
    } else {
        last_segment(p.drop_last()).push(p.last())
    }
}

pub proof fn lemma_strip_len(p: Seq<char>)
    ensures
        strip_trailing_slashes(p).len() <= p.len(),
        strip_trailing_slashes(p) == p.take(strip_trailing_slashes(p).len() as int),
        strip_trailing_slashes(p).len() > 0 ==> strip_trailing_slashes(p).last() != '/',
    decreases p.len(),
{
    if p.len() > 0 && p.last() == '/' {
        lemma_strip_len(p.drop_last());
        let s = strip_trailing_slashes(p.drop_last());
        assert(p.drop_last().take(s.len() as int) =~= p.take(s.len() as int));
    } else {
        assert(p.take(p.len() as int) =~= p);
    }
}

pub proof fn lemma_last_segment_len(p: Seq<char>)
    ensures
        last_segment(p).len() <= p.len(),
        last_segment(p) == p.skip(p.len() - last_segment(p).len()),
        last_segment(p).len() < p.len() ==> p[p.len() - last_segment(p).len() - 1] == '/',
    decreases p.len(),
{
    if p.len() == 0 {
        assert(p.skip(0) =~= p);
    } else if p.last() == '/' {
        assert(p.skip(p.len() as int) =~= Seq::<char>::empty());
    } else {
        lemma_last_segment_len(p.drop_last());
        let s = last_segment(p.drop_last());
        assert(p.skip(p.len() - s.len() - 1) =~= p.drop_last().skip(p.len() - 1 - s.len()).push(p.last()));
    }
}

/// The final component of a path, as `Path::file_name` gives it: the last
/// component that is neither empty nor `.`, unless that component is `..`;
/// `None` when there is no such component.
pub open spec fn file_name(p: Seq<char>) -> Option<Seq<char>>
    decreases p.len(),
{
    let t = strip_trailing_slashes(p);
    if t.len() == 0 {
        None
    } else {
        let seg = last_segment(t);
        proof {
            lemma_strip_len(p);
            lemma_last_segment_len(t);
        }
        if seg == seq!['.'] {
            file_name(t.take(t.len() - 1))
        } else if seg == seq!['.', '.'] {
            None
        } else {
            Some(seg)
        }
    }
}

/// The final component of `path`, as `Path::file_name` gives it.
pub fn path_file_name(path: &str) -> (r: Option<String>)
    ensures
        r.deep_view() == file_name(path@),
{
    let c = chars_of(path);
    let ghost p = path@;
    let mut end: usize = c.len();
    assert(p.take(end as int) =~= p);
    loop
        invariant
            c@ == p,
            p == path@,
            end <= c.len(),
            file_name(p) == file_name(p.take(end as int)),
        decreases end,
    {
        let ghost before = p.take(end as int);
        let ghost e0 = end;
        while end > 0 && c[end - 1] == '/'
            invariant
                c@ == p,
                end <= e0,
                e0 <= c.len(),
                strip_trailing_slashes(before) == strip_trailing_slashes(p.take(end as int)),
                file_name(before) == file_name(p.take(end as int)),
            decreases end,
        {
            assert(p.take(end as int).drop_last() =~= p.take(end as int - 1));
            end = end - 1;
        }
        assert(strip_trailing_slashes(p.take(end as int)) == p.take(end as int));
        if end == 0 {
            return None;
        }
        let mut start: usize = end;
        while start > 0 && c[start - 1] != '/'
            invariant
                c@ == p,
                start <= end <= c.len(),
                last_segment(p.take(end as int)) == last_segment(p.take(start as int)) + p.subrange(start as int, end as int),
            decreases start,
        {
            assert(p.take(start as int).drop_last() =~= p.take(start as int - 1));
            assert(p.take(start as int).last() == p[start as int - 1]);
            assert(p.subrange(start as int - 1, end as int) =~= seq![p[start as int - 1]] + p.subrange(start as int, end as int));
            assert(last_segment(p.take(start as int)) =~= last_segment(p.take(start as int - 1)).push(p[start as int - 1]));
            assert(last_segment(p.take(end as int)) =~= last_segment(p.take(start as int - 1)) + p.subrange(start as int - 1, end as int));
            start = start - 1;
        }
        assert(last_segment(p.take(start as int)) =~= Seq::<char>::empty());
        let ghost t = p.take(end as int);
        let ghost seg = p.subrange(start as int, end as int);
        assert(last_segment(t) =~= seg);
        let len = end - start;
        if len == 1 && c[start] == '.' {
            assert(seg =~= seq!['.']);
            assert(t.take(t.len() - 1) =~= p.take(end as int - 1));
            end = end - 1;
        } else if len == 2 && c[start] == '.' && c[start + 1] == '.' {
            assert(seg =~= seq!['.', '.']);
            return None;
        } else {
            assert(seg != seq!['.']) by {
                if seg == seq!['.'] {
                    assert(seg.len() == 1 && seg[0] == '.');
                }
            }
            assert(seg != seq!['.', '.']) by {
                if seg == seq!['.', '.'] {
                    assert(seg[0] == '.' && seg[1] == '.');
                }
            }
            let s = path.substring_char(start, end).to_string();
            return Some(s);
        }
    }
}

/// `p` joined onto `base`, as `Path::join` does: an absolute `p` replaces
/// `base`; otherwise a slash separates them unless `base` is empty or already
/// ends with one.
pub open spec fn join_path(base: Seq<char>, p: Seq<char>) -> Seq<char> {
    if p.len() > 0 && p[0] == '/' {
        p
    } else if base.len() == 0 || base.last() == '/' {
        base + p
    } else {
        base + seq!['/'] + p
    }
}

/// Joins `p` onto `base`.
pub fn path_join(base: &str, p: &str) -> (r: String)
    ensures
        r@ == join_path(base@, p@),
{
    let pc = chars_of(p);
    let bc = chars_of(base);
    if pc.len() > 0 && pc[0] == '/' {
        return p.to_string();
    }
    let mut r = base.to_string();
    if bc.len() > 0 && bc[bc.len() - 1] != '/' {
        r.append("/");
    }
    r.append(p);
    proof {
        reveal_strlit("/");
    }
    r
}

/// Number of leading slashes of `p`.
pub open spec fn leading_slashes(p: Seq<char>) -> nat
    decreases p.len(),
{
    if p.len() > 0 && p[0] == '/' {
        1 + leading_slashes(p.drop_first())
    } else {
        0
    }
}

/// `p` without its leading slashes, as `trim_start_matches('/')` gives it.
pub fn trim_leading_slashes(p: &str) -> (r: String)
    ensures
        r@ == p@.skip(leading_slashes(p@) as int),
{
    let c = chars_of(p);
    let mut i: usize = 0;
    assert(p@.skip(0) =~= p@);
    while i < c.len() && c[i] == '/'
        invariant
            c@ == p@,
            i <= c.len(),
            i + leading_slashes(p@.skip(i as int)) == leading_slashes(p@),
        decreases c.len() - i,
    {
        assert(p@.skip(i as int).drop_first() =~= p@.skip(i as int + 1));
        i = i + 1;
    }
    p.substring_char(i, c.len()).to_string()
}

} // verus!
