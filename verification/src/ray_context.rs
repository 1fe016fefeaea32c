//! The per-ray recursion context: the remaining bounce budget and the set
//! of refractive media the ray is currently inside, keyed by the stable
//! object id each refractive object gets at scene-build time.
use vstd::prelude::*;

verus! {

use crate::SCALE;
use crate::fx::spec_mul_fx;
use crate::material::{INDEX_BOUND, INDEX_PROD_CAP};

/// One active medium: the object's scene id and its refractive index.
pub type Medium = (usize, i128);

/// Strictly increasing ids: the set holds each object at most once.
pub open spec fn sorted_media(s: Seq<Medium>) -> bool {
    forall|i: int, j: int| 0 <= i < j < s.len() ==> (#[trigger] s[i]).0 < (#[trigger] s[j]).0
}

/// Every stored index is a legal refractive index.
pub open spec fn valid_media(s: Seq<Medium>) -> bool {
    forall|i: int| 0 <= i < s.len() ==> SCALE <= (#[trigger] s[i]).1 <= INDEX_BOUND
}

/// One step of the combined-index product, capped at `INDEX_PROD_CAP`.
pub open spec fn spec_prod_step(p: int, idx: int) -> int {
    let q = spec_mul_fx(p, idx);
    if q > INDEX_PROD_CAP {
        INDEX_PROD_CAP as int
    } else {
        q
    }
}

/// The combined refractive index of a set of media: the capped product of
/// their indices, starting from one.
pub open spec fn spec_media_product(s: Seq<Medium>) -> int
    decreases s.len(),
{
    if s.len() == 0 {
        SCALE as int
    } else {
        spec_prod_step(spec_media_product(s.drop_last()), s.last().1 as int)
    }
}

/// Toggling membership in a sorted media set: the entry with id `id` is
/// removed if present, and `(id, idx)` is inserted in order if absent.
pub open spec fn spec_toggle(s: Seq<Medium>, id: usize, idx: i128) -> Seq<Medium>
    decreases s.len(),
{
    if s.len() == 0 {
        seq![(id, idx)]
    } else if s.first().0 < id {
        seq![s.first()] + spec_toggle(s.drop_first(), id, idx)
    } else if s.first().0 == id {
        s.drop_first()
    } else {
        seq![(id, idx)] + s
    }
}

/// Tracks the recursion budget and the nested refractive media of one ray.
#[derive(Debug)]
pub struct RayContext {
    /// Remaining bounces.
    pub refl_limit: u32,
    /// The combined index of all active media.
    pub refr_index: i128,
    /// The active media, sorted by object id.
    pub refr_objs: Vec<Medium>,
}

impl RayContext {
    pub open spec fn wf(self) -> bool {
        &&& self.refl_limit <= 255
        &&& sorted_media(self.refr_objs@)
        &&& valid_media(self.refr_objs@)
        &&& self.refr_index == spec_media_product(self.refr_objs@)
        &&& SCALE <= self.refr_index <= INDEX_PROD_CAP
    }

    /// A fresh context: full budget, outside every medium, combined index one.
    pub fn new(refl_limit: u32) -> (c: RayContext)
        requires
            refl_limit <= 255,
        ensures
            c.refl_limit == refl_limit,
            c.refr_index == SCALE,
            c.refr_objs@ =~= Seq::<Medium>::empty(),
            c.wf(),
    {
        let c = RayContext { refl_limit, refr_index: SCALE, refr_objs: Vec::new() };
        proof {
            assert(c.refr_objs@ =~= Seq::<Medium>::empty());
        }
        c
    }

    /// The hard recursion stop: no bounce budget left.
    pub fn limit_reached(&self) -> (b: bool)
        ensures
            b == (self.refl_limit == 0),
    {
        self.refl_limit == 0
    }

    /// The context of a reflected sub-ray: one bounce less, same media.
    pub fn reflected_subray_context(&self) -> (c: RayContext)
        requires
            self.wf(),
            self.refl_limit > 0,
        ensures
            c.refl_limit == self.refl_limit - 1,
            c.refr_index == self.refr_index,
            c.refr_objs@ == self.refr_objs@,
            c.wf(),
    {
        let objs = copy_from(&self.refr_objs, 0);
        proof {
            assert(self.refr_objs@.subrange(0, self.refr_objs@.len() as int) =~= self.refr_objs@);
        }
        RayContext { refl_limit: self.refl_limit - 1, refr_index: self.refr_index, refr_objs: objs }
    }

    /// The context of a refracted sub-ray crossing the boundary of the
    /// object `id` with refractive index `idx`: the object's membership in
    /// the active media is toggled, the budget drops by one, and the
    /// combined index is recomputed from the new set.
    pub fn refracted_subray_context(&self, id: usize, idx: i128) -> (c: RayContext)
        requires
            self.wf(),
            self.refl_limit > 0,
            SCALE <= idx <= INDEX_BOUND,
        ensures
            c.refl_limit == self.refl_limit - 1,
            c.refr_objs@ == spec_toggle(self.refr_objs@, id, idx),
            c.refr_index == spec_media_product(c.refr_objs@),
            c.wf(),
    {
        let objs = toggle_from(&self.refr_objs, 0, id, idx);
        proof {
            assert(self.refr_objs@.subrange(0, self.refr_objs@.len() as int) =~= self.refr_objs@);
            lemma_toggle_wf(self.refr_objs@, id, idx);
        }
        let refr_index = media_product(&objs);
        RayContext { refl_limit: self.refl_limit - 1, refr_index, refr_objs: objs }
    }
}

/// The exec mirror of `spec_toggle`, over the tail of `v` from `i` on.
fn toggle_from(v: &Vec<Medium>, i: usize, id: usize, idx: i128) -> (out: Vec<Medium>)
    requires
        i <= v@.len(),
    ensures
        out@ == spec_toggle(v@.subrange(i as int, v@.len() as int), id, idx),
    decreases v@.len() - i,
{
    let ghost tail = v@.subrange(i as int, v@.len() as int);
    if i == v.len() {
        let mut out: Vec<Medium> = Vec::new();
        out.push((id, idx));
        proof {
            assert(tail =~= Seq::<Medium>::empty());
            assert(out@ =~= spec_toggle(tail, id, idx));
        }
        out
    } else {
        let e = v[i];
        proof {
            assert(tail.first() == e);
            assert(tail.drop_first() =~= v@.subrange(i + 1, v@.len() as int));
        }
        if e.0 < id {
            let mut rest = toggle_from(v, i + 1, id, idx);
            let mut out: Vec<Medium> = Vec::new();
            out.push(e);
            out.append(&mut rest);
            proof {
                assert(out@ =~= seq![tail.first()] + spec_toggle(tail.drop_first(), id, idx));
            }
            out
        } else if e.0 == id {
            let out = copy_from(v, i + 1);
            proof {
                assert(out@ =~= tail.drop_first());
            }
            out
        } else {
            let mut out: Vec<Medium> = Vec::new();
            out.push((id, idx));
            let mut rest = copy_from(v, i);
            out.append(&mut rest);
            proof {
                assert(out@ =~= seq![(id, idx)] + tail);
            }
            out
        }
    }
}

/// Copies the tail of `v` from `i` on.
fn copy_from(v: &Vec<Medium>, i: usize) -> (out: Vec<Medium>)
    requires
        i <= v@.len(),
    ensures
        out@ == v@.subrange(i as int, v@.len() as int),
{
    let mut out: Vec<Medium> = Vec::new();
    let mut k: usize = i;
    while k < v.len()
        invariant
            i <= k <= v@.len(),
            out@ == v@.subrange(i as int, k as int),
        decreases v@.len() - k,
    {
        out.push(v[k]);
        proof {
            assert(v@.subrange(i as int, k + 1 as int) =~= v@.subrange(i as int, k as int).push(
                v@[k as int],
            ));
        }
        k += 1;
    }
    proof {
        assert(out@ =~= v@.subrange(i as int, v@.len() as int));
    }
    out
}

/// The exec mirror of `spec_media_product`.
fn media_product(v: &Vec<Medium>) -> (p: i128)
    requires
        valid_media(v@),
    ensures
        p == spec_media_product(v@),
        SCALE <= p <= INDEX_PROD_CAP,
{
    let mut p: i128 = SCALE;
    let mut k: usize = 0;
    proof {
        assert(v@.take(0) =~= Seq::<Medium>::empty());
    }
    while k < v.len()
        invariant
            0 <= k <= v@.len(),
            valid_media(v@),
            p == spec_media_product(v@.take(k as int)),
            SCALE <= p <= INDEX_PROD_CAP,
        decreases v@.len() - k,
    {
        let e = v[k];
        proof {
            assert(v@.take(k + 1 as int).drop_last() =~= v@.take(k as int));
            assert(v@.take(k + 1 as int).last() == v@[k as int]);
            crate::fx::lemma_mul_fx_bound(p as int, e.1 as int, INDEX_PROD_CAP as int, INDEX_BOUND as int);
            assert(spec_mul_fx(p as int, e.1 as int) >= SCALE) by (nonlinear_arith)
                requires
                    SCALE <= p,
                    SCALE <= e.1,
                    SCALE as int == 65536,
            ;
        }
        let q = crate::fx::mul_fx(p, e.1);
        p = if q > INDEX_PROD_CAP {
            INDEX_PROD_CAP
        } else {
            q
        };
        k += 1;
    }
    proof {
        assert(v@.take(v@.len() as int) =~= v@);
    }
    p
}

/// Toggling keeps the media set sorted and its indices valid.
pub proof fn lemma_toggle_wf(s: Seq<Medium>, id: usize, idx: i128)
    requires
        sorted_media(s),
        valid_media(s),
        SCALE <= idx <= INDEX_BOUND,
    ensures
        sorted_media(spec_toggle(s, id, idx)),
        valid_media(spec_toggle(s, id, idx)),
    decreases s.len(),
{
    let t = spec_toggle(s, id, idx);
    if s.len() == 0 {
    } else if s.first().0 < id {
        assert(sorted_media(s.drop_first()));
        assert(valid_media(s.drop_first()));
        lemma_toggle_wf(s.drop_first(), id, idx);
        let rest = spec_toggle(s.drop_first(), id, idx);
        assert forall|i: int, j: int| 0 <= i < j < t.len() implies (#[trigger] t[i]).0 < (
        #[trigger] t[j]).0 by {
            if i == 0 {
                lemma_toggle_min(s.drop_first(), id, idx, s.first().0);
                assert(t[j] == rest[j - 1]);
            } else {
                assert(t[i] == rest[i - 1] && t[j] == rest[j - 1]);
            }
        }
        assert forall|i: int| 0 <= i < t.len() implies SCALE <= (#[trigger] t[i]).1
            <= INDEX_BOUND by {
            if i > 0 {
                assert(t[i] == rest[i - 1]);
            }
        }
    } else if s.first().0 == id {
        assert(sorted_media(s.drop_first()));
        assert(valid_media(s.drop_first()));
    } else {
        assert forall|i: int, j: int| 0 <= i < j < t.len() implies (#[trigger] t[i]).0 < (
        #[trigger] t[j]).0 by {
            if i == 0 {
                assert(t[j] == s[j - 1]);
                if j > 1 {
                    assert(s[0].0 < s[j - 1].0);
                }
            } else {
                assert(t[i] == s[i - 1] && t[j] == s[j - 1]);
            }
        }
        assert forall|i: int| 0 <= i < t.len() implies SCALE <= (#[trigger] t[i]).1
            <= INDEX_BOUND by {
            if i > 0 {
                assert(t[i] == s[i - 1]);
            }
        }
    }
}

/// Every id in a toggled set is at least the smallest id that bounded the
/// original set and the toggled id.
proof fn lemma_toggle_min(s: Seq<Medium>, id: usize, idx: i128, lo: usize)
    requires
        sorted_media(s),
        lo < id,
        forall|i: int| 0 <= i < s.len() ==> lo < (#[trigger] s[i]).0,
    ensures
        forall|i: int|
            0 <= i < spec_toggle(s, id, idx).len() ==> lo < (#[trigger] spec_toggle(
                s,
                id,
                idx,
            )[i]).0,
    decreases s.len(),
{
    let t = spec_toggle(s, id, idx);
    if s.len() == 0 {
    } else if s.first().0 < id {
        assert(sorted_media(s.drop_first()));
        lemma_toggle_min(s.drop_first(), id, idx, lo);
        let rest = spec_toggle(s.drop_first(), id, idx);
        assert forall|i: int| 0 <= i < t.len() implies lo < (#[trigger] t[i]).0 by {
            if i > 0 {
                assert(t[i] == rest[i - 1]);
            }
        }
    } else if s.first().0 == id {
    } else {
        assert forall|i: int| 0 <= i < t.len() implies lo < (#[trigger] t[i]).0 by {
            if i > 0 {
                assert(t[i] == s[i - 1]);
            }
        }
    }
}

/// Entering and then exiting the same refractive object restores the media
/// set, and with it the combined refractive index, exactly.
pub proof fn lemma_toggle_round_trip(s: Seq<Medium>, id: usize, idx: i128)
    requires
        sorted_media(s),
        forall|i: int| 0 <= i < s.len() && (#[trigger] s[i]).0 == id ==> s[i].1 == idx,
    ensures
        spec_toggle(spec_toggle(s, id, idx), id, idx) == s,
        spec_media_product(spec_toggle(spec_toggle(s, id, idx), id, idx)) == spec_media_product(s),
    decreases s.len(),
{
    let t = spec_toggle(s, id, idx);
    if s.len() == 0 {
        assert(t == seq![(id, idx)]);
        assert(t.first().0 == id);
        assert(spec_toggle(t, id, idx) =~= s);
    } else if s.first().0 < id {
        assert(sorted_media(s.drop_first()));
        lemma_toggle_round_trip(s.drop_first(), id, idx);
        let rest = spec_toggle(s.drop_first(), id, idx);
        assert(t =~= seq![s.first()] + rest);
        if rest.len() == 0 {
            assert(spec_toggle(rest, id, idx) == s.drop_first());
            assert(t.len() == 1);
            assert(t.first() == s.first());
            assert(t.first().0 < id);
            assert(spec_toggle(t, id, idx) =~= seq![t.first()] + spec_toggle(
                t.drop_first(),
                id,
                idx,
            ));
            assert(t.drop_first() =~= rest);
            assert(spec_toggle(t, id, idx) =~= seq![s.first()] + s.drop_first());
            assert(spec_toggle(t, id, idx) =~= s);
        } else {
            assert(t.first() == s.first());
            assert(t.first().0 < id);
            assert(t.drop_first() =~= rest);
            assert(spec_toggle(t, id, idx) =~= seq![s.first()] + spec_toggle(rest, id, idx));
            assert(spec_toggle(t, id, idx) =~= seq![s.first()] + s.drop_first());
            assert(spec_toggle(t, id, idx) =~= s);
        }
    } else if s.first().0 == id {
        assert(s.first().1 == idx);
        let t2 = s.drop_first();
        if t2.len() == 0 {
            assert(spec_toggle(t2, id, idx) =~= seq![(id, idx)]);
            assert(s =~= seq![(id, idx)]);
        } else {
            assert(s[0].0 < t2[0].0) by {
                assert(t2[0] == s[1]);
            }
            assert(t2.first().0 > id);
            assert(spec_toggle(t2, id, idx) =~= seq![(id, idx)] + t2);
            assert(s =~= seq![(id, idx)] + t2) by {
                assert(s.first() == (id, idx));
            }
        }
    } else {
        assert(t =~= seq![(id, idx)] + s);
        assert(t.first().0 == id);
        assert(spec_toggle(t, id, idx) =~= t.drop_first());
        assert(t.drop_first() =~= s);
    }
}

} // verus!
