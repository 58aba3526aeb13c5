//! Image histograms read back from the GPU.
use vstd::prelude::*;

verus! {

/// Per-channel histograms of an image; each holds `num_bins` meaningful bins
/// out of `ImageHistogram::max_bins()`.
pub struct ImageHistogram {
    pub r: Vec<u32>,
    pub g: Vec<u32>,
    pub b: Vec<u32>,
    pub luma: Vec<u32>,
    pub num_bins: u32,
}

/// The largest value of `s`, or 0 when `s` is empty.
pub open spec fn seq_max(s: Seq<u32>) -> u32
    decreases s.len(),
{
    if s.len() == 0 {
        0
    } else {
        let m = seq_max(s.drop_last());
        if s.last() > m {
            s.last()
        } else {
            m
        }
    }
}

pub proof fn lemma_seq_max(s: Seq<u32>)
    ensures
        forall|i: int| 0 <= i < s.len() ==> s[i] <= seq_max(s),
        s.len() == 0 ==> seq_max(s) == 0,
        s.len() > 0 ==> exists|i: int| 0 <= i < s.len() && s[i] == seq_max(s),
    decreases s.len(),
{
    if s.len() > 0 {
        lemma_seq_max(s.drop_last());
        assert forall|i: int| 0 <= i < s.len() implies s[i] <= seq_max(s) by {
            if i < s.len() - 1 {
                assert(s[i] == s.drop_last()[i]);
            }
        }
        if s.drop_last().len() > 0 && s.last() <= seq_max(s.drop_last()) {
            let i = choose|i: int| 0 <= i < s.drop_last().len() && s.drop_last()[i] == seq_max(s.drop_last());
            assert(s[i] == s.drop_last()[i]);
        } else {
            assert(s[s.len() - 1] == seq_max(s));
        }
    }
}

pub open spec fn max_u32(a: u32, b: u32) -> u32 {
    if a > b {
        a
    } else {
        b
    }
}

/// `max` folded over `v`, starting from `acc`.
fn fold_max(acc: u32, v: &Vec<u32>) -> (r: u32)
    ensures
        r == max_u32(acc, seq_max(v@)),
{
    let mut max = acc;
    let mut i: usize = 0;
    while i < v.len()
        invariant
            i <= v@.len(),
            max == max_u32(acc, seq_max(v@.take(i as int))),
        decreases v@.len() - i,
    {
        proof {
            assert(v@.take(i + 1).drop_last() == v@.take(i as int));
            assert(v@.take(i + 1).last() == v@[i as int]);
        }
        if v[i] > max {
            max = v[i];
        }
        i = i + 1;
    }
    assert(v@.take(v@.len() as int) == v@);
    max
}

impl ImageHistogram {
    pub open spec fn spec_max_bins() -> usize {
        256
    }

    /// The number of bins each channel's vector holds.
    pub fn max_bins() -> (r: usize)
        ensures
            r == Self::spec_max_bins(),
    {
        256
    }

    /// The number of bins to compute for an image of the given dimensions.
    pub fn num_bins_for(_dimensions: (u32, u32)) -> (r: usize)
        ensures
            r == 100,
    {
        100
    }

    /// The largest count over all four channels (0 when all are empty).
    pub open spec fn spec_max_value(self) -> u32 {
        max_u32(max_u32(max_u32(seq_max(self.r@), seq_max(self.g@)), seq_max(self.b@)), seq_max(self.luma@))
    }

    pub fn max_value(&self) -> (r: u32)
        ensures
            r == self.spec_max_value(),
    {
        let mut max = 0u32;
        max = fold_max(max, &self.r);
        max = fold_max(max, &self.g);
        max = fold_max(max, &self.b);
        max = fold_max(max, &self.luma);
        max
    }

    /// Reads a histogram laid out as the red, green, blue and luma bins
    /// (`max_bins()` each) followed by the number of bins.
    pub fn from_u32_slice(data: &[u32]) -> (r: Self)
        requires
            data@.len() > 4 * Self::spec_max_bins(),
        ensures
            r.r@ == data@.subrange(0, 256),
            r.g@ == data@.subrange(256, 512),
            r.b@ == data@.subrange(512, 768),
            r.luma@ == data@.subrange(768, 1024),
            r.num_bins == data@[1024],
    {
        let n = ImageHistogram::max_bins();
        let r = copy_range(data, n * 0, n * 1);
        let g = copy_range(data, n * 1, n * 2);
        let b = copy_range(data, n * 2, n * 3);
        let luma = copy_range(data, n * 3, n * 4);
        let num_bins = data[n * 4];
        ImageHistogram { r, g, b, luma, num_bins }
    }
}

/// `data[start..end].to_vec()`
fn copy_range(data: &[u32], start: usize, end: usize) -> (r: Vec<u32>)
    requires
        start <= end <= data@.len(),
    ensures
        r@ == data@.subrange(start as int, end as int),
{
    let mut r: Vec<u32> = Vec::new();
    let mut i: usize = start;
    while i < end
        invariant
            start <= i <= end,
            end <= data@.len(),
            r@ == data@.subrange(start as int, i as int),
        decreases end - i,
    {
        r.push(data[i]);
        i = i + 1;
        assert(r@ =~= data@.subrange(start as int, i as int));
    }
    r
}

/// What the editor reads back after a run.
pub struct DataForEditor {
    pub histogram_final: ImageHistogram,
}

impl DataForEditor {
    /// Reads the data from the contents of the buffer that the run wrote.
    pub fn from_buffer(buffer_ints: &[u32]) -> (r: Self)
        requires
            buffer_ints@.len() > 4 * ImageHistogram::spec_max_bins(),
        ensures
            r.histogram_final.r@ == buffer_ints@.subrange(0, 256),
            r.histogram_final.g@ == buffer_ints@.subrange(256, 512),
            r.histogram_final.b@ == buffer_ints@.subrange(512, 768),
            r.histogram_final.luma@ == buffer_ints@.subrange(768, 1024),
            r.histogram_final.num_bins == buffer_ints@[1024],
    {
        DataForEditor { histogram_final: ImageHistogram::from_u32_slice(buffer_ints) }
    }
}

} // verus!
