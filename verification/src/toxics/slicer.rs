use vstd::prelude::*;

use bytes::Bytes;
use crate::buffer::{bytes_len, bytes_split_to, bytes_view};
use crate::rng::{rng_for_seed, rng_gen_range_inclusive, seeded_range_inclusive, EntropyError, ToxicRng};

verus! {

/// How the slicer picks the size of each slice
pub enum SliceIterKind {
    /// Every slice has the average size
    ConstantSized,
    /// Each slice has the average size, plus or minus a random variation
    VariableSized { size_variation: usize, rand_gen: ToxicRng },
}

/// Cuts one chunk of data into slices
pub struct SliceIter {
    data: Option<Bytes>,
    average_size: usize,
    kind: SliceIterKind,
}

/// The bytes of an optional chunk
pub open spec fn chunk_opt_view(o: Option<Bytes>) -> Option<Seq<u8>> {
    match o {
        Some(b) => Some(bytes_view(b)),
        None => None,
    }
}

/// Cutting a slice of `position` bytes off the data: the slice that comes out,
/// and the data that is left. When the data is no longer than `position`, all of
/// it comes out (if there is any) and nothing is left.
pub open spec fn slice_outcome(data: Option<Seq<u8>>, position: int) -> (
    Option<Seq<u8>>,
    Option<Seq<u8>>,
) {
    match data {
        Some(v) => if v.len() > position {
            (Some(v.take(position)), Some(v.skip(position)))
        } else if v.len() > 0 {
            (Some(v), None)
        } else {
            (None, None)
        },
        None => (None, None),
    }
}

/// The size of a slice of a slicer with this average and variation, for the random draw `k`
pub open spec fn varied_size(average: int, k: int, variation: int) -> int {
    average + 2 * k - variation
}

/// The sizes of a varied slicer move in steps of two bytes with the draw, so
/// distinct draws give distinct sizes; the draws from 1 to the variation give
/// sizes from `average - variation + 2` to `average + variation`, paired around
/// the average (the draws `k` and `variation - k` give sizes that add up to
/// twice the average).
pub proof fn law_varied_size(average: int, k1: int, k2: int, variation: int)
    ensures
        varied_size(average, k2, variation) - varied_size(average, k1, variation) == 2 * (k2
            - k1),
        k1 != k2 ==> varied_size(average, k1, variation) != varied_size(average, k2, variation),
        varied_size(average, k1, variation) + varied_size(average, variation - k1, variation) == 2
            * average,
        1 <= k1 <= variation ==> average - variation + 2 <= varied_size(average, k1, variation)
            <= average + variation,
{
}

/// Cutting `position` bytes off data that holds some gives a slice of the first
/// `min(len, position)` bytes, and the slice followed by what is left is the
/// data; data that holds nothing gives no slice.
pub proof fn law_slice_outcome(data: Seq<u8>, position: int)
    requires
        0 <= position,
    ensures
        data.len() == 0 ==> slice_outcome(Some(data), position) == (
            None::<Seq<u8>>,
            None::<Seq<u8>>,
        ),
        data.len() > 0 ==> match slice_outcome(Some(data), position) {
            (Some(slice), rest) => {
                &&& slice.len() == if data.len() < position {
                    data.len() as int
                } else {
                    position
                }
                &&& slice == data.take(slice.len() as int)
                &&& slice + left_over(rest) == data
            },
            (None, _) => false,
        },
{
    if data.len() > position {
        assert(data.take(position) + data.skip(position) =~= data);
    } else if data.len() > 0 {
        assert(data.take(data.len() as int) =~= data);
        assert(data + Seq::<u8>::empty() =~= data);
    }
}

/// The bytes that are left, none when no data is held
pub open spec fn left_over(o: Option<Seq<u8>>) -> Seq<u8> {
    match o {
        Some(rest) => rest,
        None => Seq::empty(),
    }
}

impl SliceIter {
    /// The data that has not been sliced yet, if any is held
    pub closed spec fn data_view(&self) -> Option<Seq<u8>> {
        chunk_opt_view(self.data)
    }

    /// The average size of a slice
    pub closed spec fn average(&self) -> usize {
        self.average_size
    }

    /// The size variation, for a slicer of variable sizes
    pub closed spec fn variation(&self) -> Option<usize> {
        match self.kind {
            SliceIterKind::ConstantSized => None,
            SliceIterKind::VariableSized { size_variation, .. } => Some(size_variation),
        }
    }

    /// The sizes of the slicer cannot overflow: a variation of at least one and at
    /// most the average size plus two, and the largest slice size fits in `usize`
    pub open spec fn sizes_fit(average: int, variation: Option<usize>) -> bool {
        match variation {
            None => true,
            Some(v) => 1 <= v && v <= average + 2 && average + 2 * v <= usize::MAX,
        }
    }

    /// Whether a slicer of this average size and variation can be made: both fit
    /// in `usize`, and its sizes fit
    pub fn sizes_fit_check(average_size: u64, size_variation: u64) -> (r: bool)
        ensures
            r == (average_size <= usize::MAX && size_variation <= usize::MAX && Self::sizes_fit(
                average_size as int,
                if size_variation > 0 {
                    Some(size_variation as usize)
                } else {
                    None
                },
            )),
    {
        if average_size > usize::MAX as u64 || size_variation > usize::MAX as u64 {
            return false;
        }
        if size_variation == 0 {
            return true;
        }
        let average = average_size as u128;
        let variation = size_variation as u128;
        variation <= average + 2 && average + 2 * variation <= usize::MAX as u128
    }

    /// The seed of the generator of the variation; `None` when there is no
    /// variation or the operating system seeded it
    pub closed spec fn seed(&self) -> Option<u64> {
        match self.kind {
            SliceIterKind::ConstantSized => None,
            SliceIterKind::VariableSized { rand_gen, .. } => rand_gen.seed(),
        }
    }

    /// The ranges of the draws of the variation made so far
    pub closed spec fn draws(&self) -> Seq<(u64, u64)> {
        match self.kind {
            SliceIterKind::ConstantSized => Seq::empty(),
            SliceIterKind::VariableSized { rand_gen, .. } => rand_gen.inclusive_draws(),
        }
    }

    /// The generator of the variation makes draws of one kind only
    pub closed spec fn draws_of_one_kind(&self) -> bool {
        match self.kind {
            SliceIterKind::ConstantSized => true,
            SliceIterKind::VariableSized { rand_gen, .. } => rand_gen.uniform_draws().len() == 0,
        }
    }

    /// Well-formedness: the sizes fit, and the generator makes draws of one kind
    pub open spec fn wf(&self) -> bool {
        Self::sizes_fit(self.average() as int, self.variation()) && self.draws_of_one_kind()
    }

    /// A slicer over `data` cutting slices of `average_size` bytes, varied by up
    /// to `size_variation` bytes when that is not zero. The variation comes from
    /// a generator seeded with `rand_seed` when there is one, from the operating
    /// system otherwise; only that seeding from the operating system can fail.
    pub fn new(data: Bytes, average_size: u64, size_variation: u64, rand_seed: Option<u64>) -> (r:
        Result<SliceIter, EntropyError>)
        requires
            average_size <= usize::MAX,
            size_variation <= usize::MAX,
            Self::sizes_fit(
                average_size as int,
                if size_variation > 0 {
                    Some(size_variation as usize)
                } else {
                    None
                },
            ),
        ensures
            match r {
                Ok(it) => {
                    &&& it.wf()
                    &&& it.data_view() == Some(bytes_view(data))
                    &&& it.average() == average_size
                    &&& it.variation() == (if size_variation > 0 {
                        Some(size_variation as usize)
                    } else {
                        None
                    })
                    &&& size_variation > 0 ==> it.seed() == rand_seed
                    &&& it.draws().len() == 0
                },
                Err(_) => size_variation > 0 && rand_seed is None,
            },
    {
        let kind = if size_variation > 0 {
            match rng_for_seed(rand_seed) {
                Ok(rand_gen) => SliceIterKind::VariableSized {
                    size_variation: size_variation as usize,
                    rand_gen,
                },
                Err(e) => {
                    return Err(e);
                },
            }
        } else {
            SliceIterKind::ConstantSized
        };
        Ok(SliceIter { data: Some(data), average_size: average_size as usize, kind })
    }

    /// Cut a slice of `position` bytes off the data (or the rest of the data,
    /// when no more than that is left)
    fn slice_data(&mut self, position: usize) -> (r: Option<Bytes>)
        ensures
            (chunk_opt_view(r), final(self).data_view()) == slice_outcome(
                old(self).data_view(),
                position as int,
            ),
            final(self).average() == old(self).average(),
            final(self).kind == old(self).kind,
    {
        match self.data.take() {
            Some(mut data) => {
                if bytes_len(&data) > position {
                    let slice = bytes_split_to(&mut data, position);
                    self.data = Some(data);
                    Some(slice)
                } else if bytes_len(&data) > 0 {
                    Some(data)
                } else {
                    None
                }
            },
            None => None,
        }
    }

    /// The next slice: `average` bytes for a slicer of constant sizes; for a
    /// slicer of variable sizes, `average + 2 * k - variation` bytes for a random
    /// `k` from 1 to `variation`. Slicing never loses or reorders bytes: the slice
    /// followed by what is left is what was left before. On a seeded generator,
    /// `k` is the draw that the seed and the draws made before give, so a seed
    /// makes the slice sizes repeatable.
    pub fn next(&mut self) -> (r: Option<Bytes>)
        requires
            old(self).wf(),
        ensures
            final(self).wf(),
            final(self).average() == old(self).average(),
            final(self).variation() == old(self).variation(),
            match old(self).variation() {
                None => (chunk_opt_view(r), final(self).data_view()) == slice_outcome(
                    old(self).data_view(),
                    old(self).average() as int,
                ),
                Some(v) => exists|k: int|
                    1 <= k <= v && (chunk_opt_view(r), final(self).data_view()) == slice_outcome(
                        old(self).data_view(),
                        #[trigger] varied_size(old(self).average() as int, k, v as int),
                    ),
            },
            match r {
                Some(s) => old(self).data_view() matches Some(d) && d == bytes_view(s) + left_over(
                    final(self).data_view(),
                ),
                None => final(self).data_view() is None,
            },
            final(self).seed() == old(self).seed(),
            match old(self).variation() {
                Some(v) => if old(self).data_view() is Some {
                    &&& final(self).draws() == old(self).draws().push((1u64, v as u64))
                    &&& match old(self).seed() {
                        Some(seed) => (chunk_opt_view(r), final(self).data_view()) == slice_outcome(
                            old(self).data_view(),
                            varied_size(
                                old(self).average() as int,
                                seeded_range_inclusive(
                                    seed,
                                    old(self).draws().push((1u64, v as u64)),
                                ) as int,
                                v as int,
                            ),
                        ),
                        None => true,
                    }
                } else {
                    final(self).draws() == old(self).draws()
                },
                None => final(self).draws() == old(self).draws(),
            },
            match (old(self).variation(), old(self).data_view(), old(self).seed()) {
                (Some(v), Some(d), Some(seed)) => {
                    let k = seeded_range_inclusive(
                        seed,
                        old(self).draws().push((1u64, v as u64)),
                    ) as int;
                    let size = old(self).average() + 2 * k - v;
                    &&& 1 <= k <= v
                    &&& match r {
                        Some(sl) => d.len() > 0 && bytes_view(sl) == if d.len() > size {
                            d.take(size)
                        } else {
                            d
                        },
                        None => d.len() == 0,
                    }
                },
                (None, Some(d), _) => match r {
                    Some(sl) => d.len() > 0 && bytes_view(sl) == if d.len() > old(self).average() {
                        d.take(old(self).average() as int)
                    } else {
                        d
                    },
                    None => d.len() == 0,
                },
                _ => true,
            },
    {
        if self.data.is_none() {
            proof {
                if let Some(v) = self.variation() {
                    let _ = varied_size(self.average() as int, 1, v as int);
                }
            }
            return None;
        }
        let average = self.average_size;
        let size = match &mut self.kind {
            SliceIterKind::ConstantSized => average,
            SliceIterKind::VariableSized { size_variation, rand_gen } => {
                let variation = *size_variation;
                let k = rng_gen_range_inclusive(rand_gen, 1, variation as u64) as usize;
                average + 2 * k - variation
            },
        };
        let r = self.slice_data(size);
        proof {
            if let Some(v) = old(self).variation() {
                let k = (size + v - average) / 2;
                assert(varied_size(average as int, k as int, v as int) == size);
            }
            if let Some(d) = old(self).data_view() {
                if d.len() > size {
                    assert(d == d.take(size as int) + d.skip(size as int));
                } else if d.len() > 0 {
                    assert(d == d + Seq::<u8>::empty());
                }
            }
        }
        r
    }
}

} // verus!
