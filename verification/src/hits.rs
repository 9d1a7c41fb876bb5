//! Per-frame bookkeeping of the sensor's rays: where each ray points across
//! the beam, which rays hit a reflector, and the history of hit distances
//! keyed by the entity that was hit and the ray that hit it.
//!
//! Entities are held as their 64-bit identifiers, and a distance as the bit
//! pattern of the `f32` that the physics query measured: integers that stand
//! for those values and find them again.
use vstd::prelude::*;

verus! {

/// The position of ray `ray` across a beam of `ray_count` rays, as the
/// fraction `ray / (ray_count - 1)` from one edge of the beam (0) to the other
/// (1); `None` for a beam of a single ray, which points straight ahead.
pub fn beam_fraction(ray: usize, ray_count: usize) -> (fraction: Option<(usize, usize)>)
    requires
        ray < ray_count,
    ensures
        ray_count > 1 ==> fraction == Some((ray, (ray_count - 1) as usize)),
        ray_count <= 1 ==> fraction is None,
        fraction matches Some(f) ==> f.0 <= f.1 && f.1 > 0,
{
    if ray_count > 1 {
        Some((ray, ray_count - 1))
    } else {
        None
    }
}

/// What one ray's cast gave in a frame: the entity it hit and the measured
/// distance, or nothing when the ray missed.
pub type RayCast = Option<(u64, u32)>;

/// The indices of the rays that hit something, in ray order.
pub open spec fn spec_hit_rays(casts: Seq<RayCast>) -> Seq<usize>
    decreases casts.len(),
{
    if casts.len() == 0 {
        Seq::empty()
    } else {
        let earlier = spec_hit_rays(casts.drop_last());
        if casts.last() is Some {
            earlier.push((casts.len() - 1) as usize)
        } else {
            earlier
        }
    }
}

/// The history that a frame leaves: for each ray `i` that hit entity `e`
/// at distance `d`, the key `(e, i)` maps to `d`; nothing else is in it.
pub open spec fn frame_history(casts: Seq<RayCast>) -> Map<(u64, usize), u32> {
    Map::new(
        |k: (u64, usize)| 0 <= k.1 < casts.len() && casts[k.1 as int] is Some && casts[k.1 as int].unwrap().0 == k.0,
        |k: (u64, usize)| casts[k.1 as int].unwrap().1,
    )
}

/// The indices of the rays that hit something in this frame, in ray order:
/// the order in which the frame's hits are listed.
pub fn hit_rays(casts: &Vec<RayCast>) -> (rays: Vec<usize>)
    ensures
        rays@ == spec_hit_rays(casts@),
{
    let mut rays: Vec<usize> = Vec::new();
    let mut i: usize = 0;
    while i < casts.len()
        invariant
            i <= casts.len(),
            rays@ == spec_hit_rays(casts@.take(i as int)),
        decreases casts.len() - i,
    {
        assert(casts@.take(i + 1).drop_last() =~= casts@.take(i as int));
        if casts[i].is_some() {
            rays.push(i);
        }
        i = i + 1;
    }
    assert(casts@.take(casts.len() as int) =~= casts@);
    rays
}

/// A ray is listed among the frame's hits exactly when the history that the
/// frame leaves holds an entry for that ray; its entity is the one the ray
/// hit, and no ray holds two entries.
pub proof fn lemma_hits_agree_with_history(casts: Seq<RayCast>, ray: usize)
    requires
        casts.len() <= usize::MAX,
    ensures
        spec_hit_rays(casts).contains(ray) <==> (ray < casts.len() && casts[ray as int] is Some),
        spec_hit_rays(casts).contains(ray) <==> frame_history(casts).dom().contains(
            (casts[ray as int].unwrap().0, ray),
        ),
        forall|e: u64| #[trigger] frame_history(casts).dom().contains((e, ray)) ==> e == casts[ray as int].unwrap().0,
    decreases casts.len(),
{
    if casts.len() > 0 {
        lemma_hits_agree_with_history(casts.drop_last(), ray);
        let earlier = spec_hit_rays(casts.drop_last());
        let last = (casts.len() - 1) as usize;
        if casts.last() is Some {
            if ray == last {
                assert(spec_hit_rays(casts)[earlier.len() as int] == ray);
            } else {
                assert(spec_hit_rays(casts).contains(ray) ==> earlier.contains(ray)) by {
                    if spec_hit_rays(casts).contains(ray) {
                        let j = choose|j: int| 0 <= j < spec_hit_rays(casts).len() && spec_hit_rays(casts)[j] == ray;
                        assert(j < earlier.len());
                    }
                }
                assert(earlier.contains(ray) ==> spec_hit_rays(casts).contains(ray)) by {
                    if earlier.contains(ray) {
                        let j = choose|j: int| 0 <= j < earlier.len() && earlier[j] == ray;
                        assert(spec_hit_rays(casts)[j] == ray);
                    }
                }
            }
        } else {
            if ray < casts.len() && ray != last {
                assert(casts.drop_last()[ray as int] == casts[ray as int]);
            }
        }
        if ray < last {
            assert(casts.drop_last()[ray as int] == casts[ray as int]);
        }
    }
}

/// The frame's hits are listed in strictly increasing ray order, each one
/// once: every listed ray is a ray of the frame that hit something, and every
/// ray that hit something is listed.
pub proof fn lemma_hit_rays_exact(casts: Seq<RayCast>)
    requires
        casts.len() <= usize::MAX,
    ensures
        forall|k: int|
            0 <= k < spec_hit_rays(casts).len() ==> {
                &&& #[trigger] spec_hit_rays(casts)[k] < casts.len()
                &&& casts[spec_hit_rays(casts)[k] as int] is Some
            },
        forall|k: int, l: int|
            0 <= k < l < spec_hit_rays(casts).len() ==> #[trigger] spec_hit_rays(casts)[k]
                < #[trigger] spec_hit_rays(casts)[l],
        forall|i: int|
            0 <= i < casts.len() && (#[trigger] casts[i]) is Some ==> spec_hit_rays(casts).contains(
                i as usize,
            ),
    decreases casts.len(),
{
    if casts.len() > 0 {
        let prefix = casts.drop_last();
        lemma_hit_rays_exact(prefix);
        let earlier = spec_hit_rays(prefix);
        let r = spec_hit_rays(casts);
        let last = (casts.len() - 1) as usize;
        assert forall|k: int| 0 <= k < earlier.len() implies #[trigger] earlier[k] < last by {
            assert(earlier[k] < prefix.len());
        }
        assert forall|k: int| 0 <= k < earlier.len() implies r[k] == earlier[k] by {}
        assert forall|k: int|
            0 <= k < r.len() implies #[trigger] r[k] < casts.len() && casts[r[k] as int] is Some by {
            if k < earlier.len() {
                assert(r[k] == earlier[k]);
                assert(prefix[earlier[k] as int] == casts[earlier[k] as int]);
            }
        }
        assert forall|k: int, l: int| 0 <= k < l < r.len() implies #[trigger] r[k] < #[trigger] r[l] by {
            assert(r[k] == earlier[k]);
            if l < earlier.len() {
                assert(r[l] == earlier[l]);
            } else {
                assert(earlier[k] < last);
            }
        }
        assert forall|i: int| 0 <= i < casts.len() && (#[trigger] casts[i]) is Some implies r.contains(
            i as usize,
        ) by {
            if i < casts.len() - 1 {
                assert(prefix[i] == casts[i]);
                assert(earlier.contains(i as usize));
                let j = choose|j: int| 0 <= j < earlier.len() && earlier[j] == i as usize;
                assert(r[j] == i as usize);
            } else {
                assert(r[earlier.len() as int] == i as usize);
            }
        }
    }
}

/// The history that a frame leaves holds, for each ray, exactly what that ray
/// measured: ray `i` that hit entity `e` at distance `d` gives the entry
/// `(e, i) -> d`, whatever the other rays hit, and a key is present only for
/// a ray of the frame that hit that entity.
pub proof fn lemma_frame_history_per_ray(casts: Seq<RayCast>, e: u64, i: usize, d: u32)
    ensures
        (i < casts.len() && casts[i as int] == Some((e, d))) ==> {
            &&& frame_history(casts).dom().contains((e, i))
            &&& frame_history(casts)[(e, i)] == d
        },
        frame_history(casts).dom().contains((e, i)) ==> {
            &&& i < casts.len()
            &&& casts[i as int] is Some
            &&& casts[i as int].unwrap().0 == e
            &&& casts[i as int] == Some((e, frame_history(casts)[(e, i)]))
        },
{
}

/// The key of a history entry: the entity that was hit and the ray that hit it.
pub type HitKey = (u64, usize);

/// One remembered hit.
#[derive(Clone, Copy, Debug, PartialEq, Eq, Structural)]
pub struct HistoryEntry {
    pub entity: u64,
    pub ray: usize,
    pub distance: u32,
}

impl HistoryEntry {
    pub open spec fn key(self) -> HitKey {
        (self.entity, self.ray)
    }
}

/// The distances measured in a frame, by entity and ray: a map in which each
/// key occurs once.
#[derive(Clone, Debug)]
pub struct HitHistory {
    entries: Vec<HistoryEntry>,
}

/// Whether some entry of `s` has key `k`.
pub open spec fn has_key(s: Seq<HistoryEntry>, k: HitKey) -> bool {
    exists|i: int| 0 <= i < s.len() && (#[trigger] s[i]).key() == k
}

/// The map that a sequence of entries with distinct keys stands for.
pub open spec fn entries_map(s: Seq<HistoryEntry>) -> Map<HitKey, u32> {
    Map::new(
        |k: HitKey| has_key(s, k),
        |k: HitKey| s[choose|i: int| 0 <= i < s.len() && (#[trigger] s[i]).key() == k].distance,
    )
}

/// No key occurs twice.
pub open spec fn distinct_keys(s: Seq<HistoryEntry>) -> bool {
    forall|i: int, j: int|
        0 <= i < s.len() && 0 <= j < s.len() && i != j ==> (#[trigger] s[i]).key() != (#[trigger] s[j]).key()
}

/// In a sequence with distinct keys, the entry at `i` gives the map's value
/// at its key.
proof fn lemma_entry_value(s: Seq<HistoryEntry>, i: int)
    requires
        distinct_keys(s),
        0 <= i < s.len(),
    ensures
        entries_map(s).dom().contains(s[i].key()),
        entries_map(s)[s[i].key()] == s[i].distance,
{
    let k = s[i].key();
    assert(has_key(s, k));
    let j = choose|j: int| 0 <= j < s.len() && (#[trigger] s[j]).key() == k;
    assert(j == i);
}

impl View for HitHistory {
    type V = Map<HitKey, u32>;

    closed spec fn view(&self) -> Map<HitKey, u32> {
        entries_map(self.entries@)
    }
}

impl HitHistory {
    /// The history's well-formedness: each key occurs once.
    pub closed spec fn wf(&self) -> bool {
        distinct_keys(self.entries@)
    }

    /// An empty history.
    pub fn new() -> (history: Self)
        ensures
            history.wf(),
            history@ == Map::<HitKey, u32>::empty(),
    {
        let history = HitHistory { entries: Vec::new() };
        assert(history@ =~= Map::<HitKey, u32>::empty());
        history
    }

    /// The position of the entry with key `(entity, ray)`, if there is one.
    fn find(&self, entity: u64, ray: usize) -> (index: Option<usize>)
        requires
            self.wf(),
        ensures
            index matches Some(i) ==> i < self.entries.len() && self.entries@[i as int].key() == (
            entity, ray),
            index is None ==> !has_key(self.entries@, (entity, ray)),
    {
        let mut i: usize = 0;
        while i < self.entries.len()
            invariant
                i <= self.entries.len(),
                forall|j: int| 0 <= j < i ==> (#[trigger] self.entries@[j]).key() != (entity, ray),
            decreases self.entries.len() - i,
        {
            let e = self.entries[i];
            if e.entity == entity && e.ray == ray {
                return Some(i);
            }
            i = i + 1;
        }
        None
    }

    /// The distance remembered for `entity` and `ray`.
    pub fn get(&self, entity: u64, ray: usize) -> (distance: Option<u32>)
        requires
            self.wf(),
        ensures
            distance == (if self@.dom().contains((entity, ray)) {
                Some(self@[(entity, ray)])
            } else {
                None
            }),
    {
        match self.find(entity, ray) {
            Some(i) => {
                proof {
                    lemma_entry_value(self.entries@, i as int);
                }
                Some(self.entries[i].distance)
            },
            None => None,
        }
    }

    /// Remembers `distance` for `entity` and `ray`, replacing what was
    /// remembered for that pair before.
    pub fn insert(&mut self, entity: u64, ray: usize, distance: u32)
        requires
            old(self).wf(),
        ensures
            final(self).wf(),
            final(self)@ == old(self)@.insert((entity, ray), distance),
    {
        let k: HitKey = (entity, ray);
        let ghost s0 = self.entries@;
        let entry = HistoryEntry { entity, ray, distance };
        match self.find(entity, ray) {
            Some(i) => {
                self.entries.set(i, entry);
                let ghost s1 = self.entries@;
                assert(distinct_keys(s1));
                assert forall|q: HitKey| #[trigger] has_key(s1, q) == has_key(s0, q) by {
                    if has_key(s0, q) {
                        let j = choose|j: int| 0 <= j < s0.len() && (#[trigger] s0[j]).key() == q;
                        assert(s1[j].key() == q);
                    }
                    if has_key(s1, q) {
                        let j = choose|j: int| 0 <= j < s1.len() && (#[trigger] s1[j]).key() == q;
                        assert(s0[j].key() == q);
                    }
                }
                assert forall|q: HitKey| has_key(s1, q) implies #[trigger] entries_map(s1)[q] == (
                if q == k {
                    distance
                } else {
                    entries_map(s0)[q]
                }) by {
                    let j = choose|j: int| 0 <= j < s1.len() && (#[trigger] s1[j]).key() == q;
                    lemma_entry_value(s1, j);
                    lemma_entry_value(s0, j);
                }
                assert(entries_map(s1) =~= entries_map(s0).insert(k, distance));
            },
            None => {
                self.entries.push(entry);
                let ghost s1 = self.entries@;
                assert(distinct_keys(s1));
                assert forall|q: HitKey| #[trigger] has_key(s1, q) == (has_key(s0, q) || q == k) by {
                    if has_key(s0, q) {
                        let j = choose|j: int| 0 <= j < s0.len() && (#[trigger] s0[j]).key() == q;
                        assert(s1[j].key() == q);
                    }
                    if q == k {
                        assert(s1[s0.len() as int].key() == q);
                    }
                    if has_key(s1, q) && q != k {
                        let j = choose|j: int| 0 <= j < s1.len() && (#[trigger] s1[j]).key() == q;
                        assert(s0[j].key() == q);
                    }
                }
                assert forall|q: HitKey| has_key(s1, q) implies #[trigger] entries_map(s1)[q] == (
                if q == k {
                    distance
                } else {
                    entries_map(s0)[q]
                }) by {
                    let j = choose|j: int| 0 <= j < s1.len() && (#[trigger] s1[j]).key() == q;
                    lemma_entry_value(s1, j);
                    if j < s0.len() {
                        lemma_entry_value(s0, j);
                    }
                }
                assert(entries_map(s1) =~= entries_map(s0).insert(k, distance));
            },
        }
    }

    /// Replaces the history with the hits of the frame just cast: ray `i` of
    /// `casts` that hit entity `e` at distance `d` leaves the entry
    /// `(e, i) -> d`, and nothing of the earlier history stays.
    pub fn record_frame(&mut self, casts: &Vec<RayCast>)
        requires
            old(self).wf(),
        ensures
            final(self).wf(),
            final(self)@ == frame_history(casts@),
    {
        let mut next = HitHistory::new();
        let mut i: usize = 0;
        while i < casts.len()
            invariant
                i <= casts.len(),
                next.wf(),
                next@ == frame_history(casts@.take(i as int)),
            decreases casts.len() - i,
        {
            match casts[i] {
                Some((entity, distance)) => {
                    next.insert(entity, i, distance);
                },
                None => {},
            }
            assert(next@ =~= frame_history(casts@.take(i + 1)));
            i = i + 1;
        }
        assert(casts@.take(casts.len() as int) =~= casts@);
        *self = next;
    }
}

} // verus!
