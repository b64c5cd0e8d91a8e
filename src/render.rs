//! Joining the elements of a path into one line.
use vstd::prelude::*;
use vstd::string::*;
use crate::segment::{Path, PathView, strs_view};
use crate::style::MutliSegmentJoiner;

verus! {

/// The elements written one after the other, with `sep` between neighbours.
pub open spec fn joined(s: Seq<Seq<char>>, sep: Seq<char>) -> Seq<char>
    decreases s.len(),
{
    if s.len() == 0 {
        Seq::empty()
    } else if s.len() == 1 {
        s[0]
    } else {
        joined(s.drop_last(), sep) + sep + s.last()
    }
}

/// The first `n` elements of `s`, or all of them where `s` has fewer.
pub open spec fn bounded(s: Seq<Seq<char>>, n: nat) -> Seq<Seq<char>> {
    if n < s.len() {
        s.take(n as int)
    } else {
        s
    }
}

/// The line rendered for a path under a separator and an element bound.
pub open spec fn rendered(p: PathView, sep: Seq<char>, max_elems: nat) -> Seq<char> {
    joined(bounded(p.elements(), max_elems), sep)
}

/// The summed length of the elements.
pub open spec fn total_len(s: Seq<Seq<char>>) -> nat
    decreases s.len(),
{
    if s.len() == 0 {
        0
    } else {
        total_len(s.drop_last()) + s.last().len()
    }
}

proof fn lemma_joined_shape(s: Seq<Seq<char>>, sep: Seq<char>)
    requires
        s.len() > 0,
    ensures
        joined(s, sep).len() == total_len(s) + (s.len() - 1) * sep.len(),
        s[0].len() <= joined(s, sep).len(),
        joined(s, sep).take(s[0].len() as int) == s[0],
        joined(s, sep).skip(joined(s, sep).len() - s.last().len()) == s.last(),
    decreases s.len(),
{
    let j = joined(s, sep);
    if s.len() == 1 {
        assert(s.drop_last() =~= Seq::<Seq<char>>::empty());
        assert(total_len(s.drop_last()) == 0);
        assert(j.take(s[0].len() as int) =~= s[0]);
        assert(j.skip(0) =~= s.last());
    } else {
        let d = s.drop_last();
        lemma_joined_shape(d, sep);
        let k = s.len() as int;
        assert(j.len() == total_len(s) + (k - 1) * sep.len()) by (nonlinear_arith)
            requires
                j.len() == joined(d, sep).len() + sep.len() + s.last().len(),
                joined(d, sep).len() == total_len(d) + (k - 2) * sep.len(),
                total_len(s) == total_len(d) + s.last().len(),
        ;
        assert(d[0] == s[0]);
        let jd = joined(d, sep);
        assert(j == jd + sep + s.last());
        assert(j.take(s[0].len() as int) =~= jd.take(d[0].len() as int));
        assert(j.skip(j.len() - s.last().len()) =~= s.last());
    }
}

/// The bounded join shows exactly the first `min(n, |s|)` elements of `s`,
/// in order, with one separator between each two neighbours: its text starts
/// with the first shown element, ends with the last one, and is as long as
/// the shown elements and one separator fewer than them.
pub proof fn lemma_bounded_join(s: Seq<Seq<char>>, sep: Seq<char>, n: nat)
    ensures
        bounded(s, n).len() == if n < s.len() { n } else { s.len() },
        forall|i: int| 0 <= i < bounded(s, n).len() ==> bounded(s, n)[i] == s[i],
        bounded(s, n).len() > 0 ==> {
            let b = bounded(s, n);
            let j = joined(b, sep);
            &&& j.len() == total_len(b) + (b.len() - 1) * sep.len()
            &&& j.take(s[0].len() as int) == s[0]
            &&& j.skip(j.len() - b.last().len()) == b.last()
        },
{
    if bounded(s, n).len() > 0 {
        lemma_joined_shape(bounded(s, n), sep);
    }
}

/// With a bound of zero, or no elements, the join is empty.
pub proof fn lemma_empty_join(s: Seq<Seq<char>>, sep: Seq<char>, n: nat)
    requires
        n == 0 || s.len() == 0,
    ensures
        joined(bounded(s, n), sep) == Seq::<char>::empty(),
{
}

/// Rendering is a function of the path, the home setting and the joiner:
/// rendering the same inputs twice gives the same line.
pub proof fn lemma_render_deterministic(a: PathView, b: PathView, sep: Seq<char>, n: nat)
    requires
        a.path == b.path,
        a.show_home == b.show_home,
        a.home == b.home,
    ensures
        rendered(a, sep, n) == rendered(b, sep, n),
{
    assert(a == b);
}

proof fn lemma_joined_extend(s: Seq<Seq<char>>, sep: Seq<char>, i: int)
    requires
        0 < i < s.len(),
    ensures
        joined(s.take(i + 1), sep) == joined(s.take(i), sep) + sep + s[i],
{
    assert(s.take(i + 1).drop_last() =~= s.take(i));
}

/// Writes the displayed elements of `seg` to `out`: at most
/// `joiner.max_elems` of them, from the front, with the separator between
/// neighbours and nothing before the first or after the last.
pub fn write_multi_segment(out: &mut String, seg: &Path, joiner: &MutliSegmentJoiner<&str>)
    ensures
        final(out)@ == old(out)@ + rendered(seg@, joiner.separator@, joiner.max_elems as nat),
        joiner.max_elems == 0 || seg@.elements().len() == 0 ==> final(out)@ == old(out)@,
{
    let elems = seg.elements();
    let ghost s = strs_view(elems@);
    let ghost start = out@;
    let n: usize = if joiner.max_elems < elems.len() { joiner.max_elems } else { elems.len() };
    let mut i: usize = 0;
    while i < n
        invariant
            n <= elems.len(),
            i <= n,
            s == strs_view(elems@),
            out@ == start + joined(s.take(i as int), joiner.separator@),
        decreases n - i,
    {
        if i > 0 {
            out.append(joiner.separator);
            proof {
                lemma_joined_extend(s, joiner.separator@, i as int);
            }
        } else {
            assert(s.take(1).drop_last() =~= s.take(0));
        }
        out.append(elems[i].as_str());
        i = i + 1;
    }
    assert(s.take(n as int) =~= bounded(s, joiner.max_elems as nat));
    assert(s.take(0) =~= Seq::<Seq<char>>::empty());
}

/// Relies on itertools::join: the items' text in order, with `sep` between
/// neighbours.
#[verifier::external_body]
fn join_strings(items: &Vec<String>, sep: &str) -> (r: String)
    ensures
        r@ == joined(strs_view(items@), sep@),
{
    itertools::join(items, sep)
}

/// Every displayed element of `seg`, with `sep` between neighbours.
pub fn join_elements(seg: &Path, sep: &str) -> (r: String)
    ensures
        r@ == joined(seg@.elements(), sep@),
{
    let elems = seg.elements();
    join_strings(&elems, sep)
}

/// The outcome of a styled render: the render's own error where it failed,
/// else the outcome of resetting the style.
pub fn finish_styled<E>(render: Result<(), E>, reset: Result<(), E>) -> (r: Result<(), E>)
    ensures
        render is Err ==> r == render,
        render is Ok ==> r == reset,
{
    match render {
        Err(e) => Err(e),
        Ok(()) => reset,
    }
}

} // verus!
