use vstd::prelude::*;

verus! {

/// An output the compositor advertised: its object id, its registry name,
/// and its scale factor.
#[derive(Clone, Copy, PartialEq, Eq, Structural, Debug)]
pub struct Output {
    pub id: u32,
    pub reg_name: u32,
    pub scale: u32,
}

/// The largest scale among the outputs whose id is in `visible`; 0 when
/// there is none.
pub open spec fn max_visible_scale(outs: Seq<Output>, visible: Seq<u32>) -> int
    decreases outs.len(),
{
    if outs.len() == 0 {
        0
    } else {
        let prev = max_visible_scale(outs.drop_last(), visible);
        let o = outs.last();
        if visible.contains(o.id) && o.scale as int > prev {
            o.scale as int
        } else {
            prev
        }
    }
}

/// The scale to render at: the surface's own preferred scale where the
/// surface reports one (version 6 and later), otherwise the largest scale of
/// the outputs the surface is visible on, or 1 when it is visible on none.
pub open spec fn resolved_scale(
    version: u32,
    surface_scale: u32,
    outs: Seq<Output>,
    visible: Seq<u32>,
) -> int {
    if version >= 6 {
        surface_scale as int
    } else if max_visible_scale(outs, visible) == 0 {
        1
    } else {
        max_visible_scale(outs, visible)
    }
}

/// Every output has a positive scale.
pub open spec fn scales_positive(outs: Seq<Output>) -> bool {
    forall|i: int| 0 <= i < outs.len() ==> #[trigger] outs[i].scale >= 1
}

pub proof fn lemma_max_bounded(outs: Seq<Output>, visible: Seq<u32>)
    ensures
        0 <= max_visible_scale(outs, visible) <= u32::MAX,
    decreases outs.len(),
{
    if outs.len() > 0 {
        lemma_max_bounded(outs.drop_last(), visible);
    }
}

/// Removing an output the surface is not visible on leaves the largest
/// visible scale as it was.
pub proof fn lemma_remove_invisible(outs: Seq<Output>, visible: Seq<u32>, i: int)
    requires
        0 <= i < outs.len(),
        !visible.contains(outs[i].id),
    ensures
        max_visible_scale(outs.remove(i), visible) == max_visible_scale(outs, visible),
    decreases outs.len(),
{
    if i == outs.len() - 1 {
        assert(outs.remove(i) =~= outs.drop_last());
    } else {
        lemma_remove_invisible(outs.drop_last(), visible, i);
        assert(outs.remove(i).drop_last() =~= outs.drop_last().remove(i));
        assert(outs.remove(i).last() == outs.last());
    }
}

/// Removing an output that the surface was never visible on leaves the
/// resolved scale as it was.
pub proof fn lemma_unseen_removal_keeps_scale(
    version: u32,
    surface_scale: u32,
    outs: Seq<Output>,
    visible: Seq<u32>,
    i: int,
)
    requires
        0 <= i < outs.len(),
        !visible.contains(outs[i].id),
    ensures
        resolved_scale(version, surface_scale, outs.remove(i), visible) == resolved_scale(
            version,
            surface_scale,
            outs,
            visible,
        ),
{
    lemma_remove_invisible(outs, visible, i);
}

/// Whether `x` is in `v`.
pub fn contains_id(v: &Vec<u32>, x: u32) -> (r: bool)
    ensures
        r == v@.contains(x),
{
    let mut i: usize = 0;
    while i < v.len()
        invariant
            i <= v@.len(),
            forall|j: int| 0 <= j < i ==> v@[j] != x,
        decreases v@.len() - i,
    {
        if v[i] == x {
            return true;
        }
        i = i + 1;
    }
    false
}

/// The ids of `v` but `x`, in order.
pub fn without_id(v: &Vec<u32>, x: u32) -> (r: Vec<u32>)
    ensures
        forall|y: u32| r@.contains(y) <==> (v@.contains(y) && y != x),
{
    let mut r: Vec<u32> = Vec::new();
    let mut i: usize = 0;
    while i < v.len()
        invariant
            i <= v@.len(),
            forall|y: u32| r@.contains(y) <==> (v@.take(i as int).contains(y) && y != x),
        decreases v@.len() - i,
    {
        let ghost old_r = r@;
        if v[i] != x {
            r.push(v[i]);
            assert(r@ =~= old_r.push(v@[i as int]));
        }
        proof {
            let t = v@.take(i + 1);
            assert forall|y: u32| #[trigger] r@.contains(y) <==> (t.contains(y) && y != x) by {
                if r@.contains(y) {
                    let k = choose|k: int| 0 <= k < r@.len() && r@[k] == y;
                    if k < old_r.len() {
                        assert(old_r.contains(y));
                        let k2 = choose|k2: int| 0 <= k2 < i && v@.take(i as int)[k2] == y;
                        assert(t[k2] == y);
                    } else {
                        assert(t[i as int] == y);
                    }
                }
                if t.contains(y) && y != x {
                    let k = choose|k: int| 0 <= k < t.len() && t[k] == y;
                    if k < i {
                        assert(v@.take(i as int)[k] == y);
                        assert(old_r.contains(y));
                        let k2 = choose|k2: int| 0 <= k2 < old_r.len() && old_r[k2] == y;
                        assert(r@[k2] == y);
                    } else {
                        assert(r@[r@.len() - 1] == y);
                    }
                }
            }
        }
        i = i + 1;
    }
    assert(v@.take(i as int) =~= v@);
    r
}

/// The largest scale among the outputs whose id is in `visible`, 0 when
/// there is none.
pub fn max_visible(outs: &Vec<Output>, visible: &Vec<u32>) -> (r: u32)
    ensures
        r == max_visible_scale(outs@, visible@),
{
    let mut m: u32 = 0;
    let mut i: usize = 0;
    while i < outs.len()
        invariant
            i <= outs@.len(),
            m == max_visible_scale(outs@.take(i as int), visible@),
        decreases outs@.len() - i,
    {
        assert(outs@.take(i + 1).drop_last() =~= outs@.take(i as int));
        let o = outs[i];
        if contains_id(visible, o.id) && o.scale > m {
            m = o.scale;
        }
        i = i + 1;
    }
    assert(outs@.take(i as int) =~= outs@);
    m
}

/// The scale to render at; see `resolved_scale`.
pub fn resolve_scale(version: u32, surface_scale: u32, outs: &Vec<Output>, visible: &Vec<u32>) -> (r: u32)
    ensures
        r == resolved_scale(version, surface_scale, outs@, visible@),
{
    if version >= 6 {
        surface_scale
    } else {
        let m = max_visible(outs, visible);
        if m == 0 {
            1
        } else {
            m
        }
    }
}

} // verus!
