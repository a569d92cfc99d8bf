use vstd::prelude::*;

verus! {

/// The nearest hit of a linear scan: the position of the hit geometry in the
/// scene's list, and its distance key.
///
/// Distances are compared through a `u32` key that orders as the distances
/// do. For non-negative single-precision distances the IEEE-754 bit pattern
/// is such a key.
#[derive(Clone, Copy, Debug, PartialEq, Eq, Structural)]
pub struct Hit {
    pub index: usize,
    pub key: u32,
}

/// Whether `key` is no farther than every hit in `keys`.
pub open spec fn no_farther_than_all(keys: Seq<Option<u32>>, key: u32) -> bool {
    forall|j: int|
        0 <= j < keys.len() ==> match #[trigger] keys[j] {
            Some(k) => key <= k,
            None => true,
        }
}

/// Whether every hit before position `index` is strictly farther than `key`:
/// on equal distances the first geometry in scan order wins.
pub open spec fn strictly_nearer_than_earlier(keys: Seq<Option<u32>>, index: int, key: u32) -> bool {
    forall|j: int|
        0 <= j < index ==> match #[trigger] keys[j] {
            Some(k) => key < k,
            None => true,
        }
}

/// Whether no geometry was hit at all.
pub open spec fn all_missed(keys: Seq<Option<u32>>) -> bool {
    forall|j: int| 0 <= j < keys.len() ==> (#[trigger] keys[j]) is None
}

/// Whether `h` is the hit that the nearest-hit query selects from `keys`.
pub open spec fn is_nearest(keys: Seq<Option<u32>>, h: Hit) -> bool {
    &&& h.index < keys.len()
    &&& keys[h.index as int] == Some(h.key)
    &&& no_farther_than_all(keys, h.key)
    &&& strictly_nearer_than_earlier(keys, h.index as int, h.key)
}

/// The nearest-hit query over the per-geometry results of one ray, in scene
/// order (`None` where the geometry is missed): a linear scan that keeps the
/// smallest distance seen so far, replacing it only on a strictly smaller one.
pub fn nearest_hit(keys: &Vec<Option<u32>>) -> (r: Option<Hit>)
    ensures
        r is None <==> all_missed(keys@),
        match r {
            Some(h) => is_nearest(keys@, h),
            None => true,
        },
{
    let mut best: Option<Hit> = None;
    let mut i: usize = 0;
    while i < keys.len()
        invariant
            i <= keys.len(),
            best is None <==> all_missed(keys@.subrange(0, i as int)),
            match best {
                Some(h) => is_nearest(keys@.subrange(0, i as int), h),
                None => true,
            },
        decreases keys.len() - i,
    {
        let ghost prev = keys@.subrange(0, i as int);
        let ghost next = keys@.subrange(0, i as int + 1);
        assert(next =~= prev.push(keys@[i as int]));
        match keys[i] {
            Some(k) => {
                let replace = match best {
                    Some(h) => k < h.key,
                    None => true,
                };
                if replace {
                    best = Some(Hit { index: i, key: k });
                }
            },
            None => {},
        }
        i = i + 1;
    }
    assert(keys@.subrange(0, keys.len() as int) =~= keys@);
    best
}

} // verus!
