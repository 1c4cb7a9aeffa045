//! An in-memory RGB pixel grid: 8-bit samples in row-major order, three per
//! pixel (red, green, blue).

use vstd::prelude::*;

verus! {

/// What a pixel grid is, mathematically: its dimensions and its samples.
pub struct GridView {
    pub width: nat,
    pub height: nat,
    /// Row-major samples; pixel `k` owns `samples[3k]` (red), `samples[3k + 1]`
    /// (green) and `samples[3k + 2]` (blue).
    pub samples: Seq<u8>,
}

impl GridView {
    /// There are exactly three samples for each of the `width * height` pixels.
    pub open spec fn wf(self) -> bool {
        self.samples.len() == 3 * (self.width * self.height)
    }

    /// Number of pixels.
    pub open spec fn pixel_count(self) -> nat {
        self.width * self.height
    }
}

/// An owned RGB image buffer. Every value of this type holds exactly
/// `3 * width * height` samples.
#[derive(Debug, PartialEq, Eq)]
pub struct PixelGrid {
    width: u32,
    height: u32,
    data: Vec<u8>,
}

impl View for PixelGrid {
    type V = GridView;

    closed spec fn view(&self) -> GridView {
        GridView { width: self.width as nat, height: self.height as nat, samples: self.data@ }
    }
}

impl Clone for PixelGrid {
    fn clone(&self) -> (copy: PixelGrid)
        ensures
            copy@ == self@,
    {
        proof {
            use_type_invariant(self);
        }
        PixelGrid { width: self.width, height: self.height, data: self.data.clone() }
    }
}

/// Number of samples in a `width` by `height` grid, when a `usize` can hold it.
fn sample_count(width: u32, height: u32) -> (n: Option<usize>)
    ensures
        match n {
            Some(n) => n == 3 * (width * height),
            None => 3 * (width * height) > usize::MAX,
        },
{
    match (width as usize).checked_mul(height as usize) {
        Some(pixels) => pixels.checked_mul(3),
        None => None,
    }
}

impl PixelGrid {
    #[verifier::type_invariant]
    spec fn inv(self) -> bool {
        self.data@.len() == 3 * (self.width * self.height)
    }

    /// A grid of the given dimensions with every sample zero, or `None` when
    /// its samples would not fit in memory.
    pub fn new(width: u32, height: u32) -> (r: Option<PixelGrid>)
        ensures
            r is Some <==> 3 * (width * height) <= usize::MAX,
            r matches Some(g) ==> {
                &&& g@.wf()
                &&& g@.width == width
                &&& g@.height == height
                &&& forall|j: int| 0 <= j < g@.samples.len() ==> g@.samples[j] == 0
            },
    {
        match sample_count(width, height) {
            Some(n) => Some(PixelGrid { width, height, data: vec![0u8; n] }),
            None => None,
        }
    }

    /// Wraps row-major RGB samples as a grid. Gives `None` unless `data` holds
    /// exactly three samples for each of the `width * height` pixels.
    pub fn from_raw(width: u32, height: u32, data: Vec<u8>) -> (r: Option<PixelGrid>)
        ensures
            r is Some <==> data@.len() == 3 * (width * height),
            r matches Some(g) ==> g@ == (GridView {
                width: width as nat,
                height: height as nat,
                samples: data@,
            }),
    {
        let len = data.len();
        match sample_count(width, height) {
            Some(n) => {
                if len == n {
                    Some(PixelGrid { width, height, data })
                } else {
                    None
                }
            },
            None => None,
        }
    }

    /// Rebuilds a grid around samples that are known to fit the dimensions.
    pub(crate) fn from_parts(width: u32, height: u32, data: Vec<u8>) -> (g: PixelGrid)
        requires
            data@.len() == 3 * (width * height),
        ensures
            g@ == (GridView { width: width as nat, height: height as nat, samples: data@ }),
    {
        PixelGrid { width, height, data }
    }

    /// Number of pixels in a row.
    pub fn width(&self) -> (w: u32)
        ensures
            w == self@.width,
            self@.wf(),
    {
        proof {
            use_type_invariant(self);
        }
        self.width
    }

    /// Number of rows.
    pub fn height(&self) -> (h: u32)
        ensures
            h == self@.height,
            self@.wf(),
    {
        proof {
            use_type_invariant(self);
        }
        self.height
    }

    /// Number of pixels.
    pub fn pixel_count(&self) -> (n: usize)
        ensures
            n == self@.pixel_count(),
            self@.wf(),
    {
        proof {
            use_type_invariant(self);
        }
        self.data.len() / 3
    }

    /// The samples, row-major, three per pixel.
    pub fn as_raw(&self) -> (data: &Vec<u8>)
        ensures
            data@ == self@.samples,
            self@.wf(),
    {
        proof {
            use_type_invariant(self);
        }
        &self.data
    }

    /// Gives up the grid for its samples.
    pub fn into_raw(self) -> (data: Vec<u8>)
        ensures
            data@ == self@.samples,
            self@.wf(),
    {
        proof {
            use_type_invariant(&self);
        }
        self.data
    }
}

} // verus!
