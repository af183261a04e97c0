//! The pixel scan of the triangle rasteriser.
//!
//! A triangle is rasterised by asking, for every pixel of its bounding box,
//! whether the pixel is covered and with what interpolated values. That
//! question is numeric work on real-valued weights and is the caller's; the
//! scan itself, its order and its completeness are fixed here.

use vstd::prelude::*;

verus! {

/// What the scan found at one covered pixel.
#[derive(Debug)]
pub struct Sample<T> {
    pub x: i32,
    pub y: i32,
    pub value: T,
}

/// Whether `(x, y)` lies in the box, bounds included.
pub open spec fn in_box(min_x: int, min_y: int, max_x: int, max_y: int, x: int, y: int) -> bool {
    min_x <= x <= max_x && min_y <= y <= max_y
}

/// Whether pixel `(ax, ay)` comes before `(bx, by)` in a scan that goes row
/// by row and, within a row, column by column.
pub open spec fn scanned_before(ax: int, ay: int, bx: int, by: int) -> bool {
    ay < by || (ay == by && ax < bx)
}

/// Whether the samples hold one for pixel `(x, y)`.
pub open spec fn has_sample<T>(samples: Seq<Sample<T>>, x: int, y: int) -> bool {
    exists|k: int| 0 <= k < samples.len() && (#[trigger] samples[k]).x == x && samples[k].y == y
}

/// Whether `samples` is a scan of the box with `cover`: each sample is what
/// `cover` gave for a pixel of the box, the samples stand in scan order (so no
/// pixel has two), and `cover` gave nothing for every pixel of the box
/// without a sample.
pub open spec fn is_scan_of<T, F: Fn(i32, i32) -> Option<T>>(
    samples: Seq<Sample<T>>,
    min_x: int,
    min_y: int,
    max_x: int,
    max_y: int,
    cover: F,
) -> bool {
    &&& forall|k: int|
        0 <= k < samples.len() ==> in_box(
            min_x,
            min_y,
            max_x,
            max_y,
            (#[trigger] samples[k]).x as int,
            samples[k].y as int,
        ) && call_ensures(cover, (samples[k].x, samples[k].y), Some(samples[k].value))
    &&& forall|k: int, m: int|
        0 <= k < m < samples.len() ==> scanned_before(
            (#[trigger] samples[k]).x as int,
            samples[k].y as int,
            (#[trigger] samples[m]).x as int,
            samples[m].y as int,
        )
    &&& forall|x: i32, y: i32|
        in_box(min_x, min_y, max_x, max_y, x as int, y as int) ==> #[trigger] has_sample(
            samples,
            x as int,
            y as int,
        ) || call_ensures(cover, (x, y), None::<T>)
}

/// Whether `samples` is the scan of the rows above `y` and of the pixels of
/// row `y` left of `x`.
pub open spec fn scanned_to<T, F: Fn(i32, i32) -> Option<T>>(
    samples: Seq<Sample<T>>,
    min_x: int,
    min_y: int,
    max_x: int,
    x: int,
    y: int,
    cover: F,
) -> bool {
    &&& forall|k: int|
        0 <= k < samples.len() ==> in_box(
            min_x,
            min_y,
            max_x,
            y,
            (#[trigger] samples[k]).x as int,
            samples[k].y as int,
        ) && scanned_before(samples[k].x as int, samples[k].y as int, x, y) && call_ensures(
            cover,
            (samples[k].x, samples[k].y),
            Some(samples[k].value),
        )
    &&& forall|k: int, m: int|
        0 <= k < m < samples.len() ==> scanned_before(
            (#[trigger] samples[k]).x as int,
            samples[k].y as int,
            (#[trigger] samples[m]).x as int,
            samples[m].y as int,
        )
    &&& forall|p: i32, q: i32|
        in_box(min_x, min_y, max_x, y, p as int, q as int) && scanned_before(
            p as int,
            q as int,
            x,
            y,
        ) ==> #[trigger] has_sample(samples, p as int, q as int) || call_ensures(
            cover,
            (p, q),
            None::<T>,
        )
}

/// Where `cover` covers no pixel of the box, the scan holds no sample: a
/// triangle without area, whose weights cover nothing, emits nothing.
pub proof fn lemma_nothing_covered_nothing_emitted<T, F: Fn(i32, i32) -> Option<T>>(
    samples: Seq<Sample<T>>,
    min_x: int,
    min_y: int,
    max_x: int,
    max_y: int,
    cover: F,
)
    requires
        is_scan_of(samples, min_x, min_y, max_x, max_y, cover),
        forall|x: i32, y: i32, value: T|
            in_box(min_x, min_y, max_x, max_y, x as int, y as int) ==> !#[trigger] call_ensures(
                cover,
                (x, y),
                Some(value),
            ),
    ensures
        samples.len() == 0,
{
    if samples.len() > 0 {
        let first = samples[0];
        assert(call_ensures(cover, (first.x, first.y), Some(first.value)));
    }
}

/// The scan holds at most one sample for each pixel.
pub proof fn lemma_one_sample_per_pixel<T, F: Fn(i32, i32) -> Option<T>>(
    samples: Seq<Sample<T>>,
    min_x: int,
    min_y: int,
    max_x: int,
    max_y: int,
    cover: F,
    k: int,
    m: int,
)
    requires
        is_scan_of(samples, min_x, min_y, max_x, max_y, cover),
        0 <= k < samples.len(),
        0 <= m < samples.len(),
        samples[k].x == samples[m].x,
        samples[k].y == samples[m].y,
    ensures
        k == m,
{
}

/// Scans the box from `(min_x, min_y)` to `(max_x, max_y)`, bounds included,
/// row by row, and collects what `cover` gives for the pixels that it
/// covers. An empty box gives no sample.
pub fn scan_box<T, F: Fn(i32, i32) -> Option<T>>(
    min_x: i32,
    min_y: i32,
    max_x: i32,
    max_y: i32,
    cover: F,
) -> (samples: Vec<Sample<T>>)
    requires
        forall|x: i32, y: i32|
            in_box(min_x as int, min_y as int, max_x as int, max_y as int, x as int, y as int)
                ==> #[trigger] call_requires(cover, (x, y)),
    ensures
        is_scan_of(samples@, min_x as int, min_y as int, max_x as int, max_y as int, cover),
{
    let mut samples: Vec<Sample<T>> = Vec::new();
    if min_x > max_x || min_y > max_y {
        return samples;
    }
    let mut y: i32 = min_y;
    loop
        invariant_except_break
            is_scan_of(samples@, min_x as int, min_y as int, max_x as int, y - 1, cover),
        invariant
            min_x <= max_x,
            min_y <= y <= max_y,
            forall|x: i32, y: i32|
                in_box(min_x as int, min_y as int, max_x as int, max_y as int, x as int, y as int)
                    ==> #[trigger] call_requires(cover, (x, y)),
        ensures
            is_scan_of(samples@, min_x as int, min_y as int, max_x as int, max_y as int, cover),
        decreases max_y - y,
    {
        let mut x: i32 = min_x;
        loop
            invariant_except_break
                scanned_to(samples@, min_x as int, min_y as int, max_x as int, x as int, y as int, cover),
            invariant
                min_x <= x <= max_x,
                min_y <= y <= max_y,
                forall|x: i32, y: i32|
                    in_box(
                        min_x as int,
                        min_y as int,
                        max_x as int,
                        max_y as int,
                        x as int,
                        y as int,
                    ) ==> #[trigger] call_requires(cover, (x, y)),
            ensures
                is_scan_of(samples@, min_x as int, min_y as int, max_x as int, y as int, cover),
            decreases max_x - x,
        {
            let ghost before = samples@;
            let found = cover(x, y);
            match found {
                Some(value) => {
                    samples.push(Sample { x, y, value });
                    proof {
                        let k = before.len() as int;
                        assert(samples@[k].x == x && samples@[k].y == y);
                        assert forall|p: i32, q: i32| has_sample(before, p as int, q as int)
                            implies has_sample(samples@, p as int, q as int) by {
                            let w = choose|w: int|
                                0 <= w < before.len() && (#[trigger] before[w]).x == p
                                    && before[w].y == q;
                            assert(samples@[w] == before[w]);
                        }
                        assert(has_sample(samples@, x as int, y as int));
                    }
                },
                None => {},
            }
            proof {
                let now = samples@;
                assert forall|k: int| 0 <= k < now.len() implies in_box(
                    min_x as int,
                    min_y as int,
                    max_x as int,
                    y as int,
                    (#[trigger] now[k]).x as int,
                    now[k].y as int,
                ) && scanned_before(now[k].x as int, now[k].y as int, x + 1, y as int)
                    && call_ensures(cover, (now[k].x, now[k].y), Some(now[k].value)) by {
                    if k < before.len() {
                        assert(now[k] == before[k]);
                    }
                }
                assert forall|k: int, m: int| 0 <= k < m < now.len() implies scanned_before(
                    (#[trigger] now[k]).x as int,
                    now[k].y as int,
                    (#[trigger] now[m]).x as int,
                    now[m].y as int,
                ) by {
                    assert(now[k] == before[k]);
                    if m < before.len() {
                        assert(now[m] == before[m]);
                    }
                }
                assert forall|p: i32, q: i32|
                    in_box(min_x as int, min_y as int, max_x as int, y as int, p as int, q as int)
                        && scanned_before(p as int, q as int, x + 1, y as int) implies #[trigger] has_sample(
                    now,
                    p as int,
                    q as int,
                ) || call_ensures(cover, (p, q), None::<T>) by {
                    if p == x && q == y {
                    } else {
                        assert(scanned_before(p as int, q as int, x as int, y as int));
                        assert(has_sample(before, p as int, q as int) || call_ensures(
                            cover,
                            (p, q),
                            None::<T>,
                        ));
                    }
                }
            }
            if x == max_x {
                break ;
            }
            x += 1;
        }
        if y == max_y {
            break ;
        }
        y += 1;
    }
    samples
}

} // verus!
