use vstd::prelude::*;
use vstd::pervasive::VecAdditionalExecFns;
use crate::float_bits::{F32_ZERO_BITS, f32_order_key, order_key, lemma_f32_order_key_injective};

verus! {

/// Three single-precision bit patterns, used for the physical half-extents
/// of a volume along its local axes. The library never does arithmetic on
/// them; they travel bit-exactly between the file format, the host model
/// and the device wire encoding.
#[derive(Clone, Copy, PartialEq, Eq, Structural, Debug)]
pub struct Vec3Bits {
    pub x: u32,
    pub y: u32,
    pub z: u32,
}

/// An integer triple: per-axis cell counts of the density grid, or a cell
/// coordinate inside it.
#[derive(Clone, Copy, PartialEq, Eq, Structural, Debug)]
pub struct IVec3 {
    pub x: i32,
    pub y: i32,
    pub z: i32,
}

/// Largest per-axis cell count: counts up to 2^24 survive the trip through
/// the device wire encoding (which stores them as integer-valued floats)
/// bit-exactly.
pub const MAX_RESOLUTION: i32 = 0x100_0000;

/// A 3D scalar density field: half-extents `radii`, per-axis cell counts
/// `res`, and the flat density grid `data` (single-precision bit patterns),
/// row-major with X fastest, then Y, then Z.
pub struct Volume {
    pub radii: Vec3Bits,
    pub res: IVec3,
    pub data: Vec<u32>,
}

impl Volume {
    /// Every axis has between 1 and 2^24 cells and the grid holds exactly
    /// one sample per cell.
    pub open spec fn wf(self) -> bool {
        &&& 1 <= self.res.x <= MAX_RESOLUTION
        &&& 1 <= self.res.y <= MAX_RESOLUTION
        &&& 1 <= self.res.z <= MAX_RESOLUTION
        &&& self.data@.len() == self.cell_count()
    }

    /// Total number of grid cells.
    pub open spec fn cell_count(self) -> int {
        (self.res.x * self.res.y) * self.res.z
    }

    pub open spec fn in_bounds(self, coord: IVec3) -> bool {
        &&& 0 <= coord.x < self.res.x
        &&& 0 <= coord.y < self.res.y
        &&& 0 <= coord.z < self.res.z
    }

    /// Flat index of a cell: X fastest, then Y, then Z.
    pub open spec fn idx(self, coord: IVec3) -> int {
        (coord.z * self.res.x) * self.res.y + coord.y * self.res.x + coord.x
    }

    /// An all-zero volume with the given half-extents and cell counts.
    pub fn new(radii: Vec3Bits, res: IVec3) -> (r: Volume)
        requires
            1 <= res.x <= MAX_RESOLUTION,
            1 <= res.y <= MAX_RESOLUTION,
            1 <= res.z <= MAX_RESOLUTION,
            (res.x * res.y) * res.z <= usize::MAX,
        ensures
            r.wf(),
            r.radii == radii,
            r.res == res,
            r.data@ == Seq::new(((res.x * res.y) * res.z) as nat, |i: int| F32_ZERO_BITS),
    {
        proof {
            assert(res.x * res.y <= (res.x * res.y) * res.z) by (nonlinear_arith)
                requires
                    res.x >= 1,
                    res.y >= 1,
                    res.z >= 1,
            ;
        }
        let count: usize = ((res.x as usize) * (res.y as usize)) * (res.z as usize);
        let mut data: Vec<u32> = Vec::new();
        let mut i: usize = 0;
        while i < count
            invariant
                i <= count,
                data@ == Seq::new(i as nat, |j: int| F32_ZERO_BITS),
            decreases count - i,
        {
            data.push(F32_ZERO_BITS);
            i = i + 1;
            proof {
                assert(data@ =~= Seq::new(i as nat, |j: int| F32_ZERO_BITS));
            }
        }
        Volume { radii, res, data }
    }

    /// Overwrites the density sample of one cell.
    pub fn set(&mut self, coord: IVec3, value: u32)
        requires
            old(self).wf(),
            old(self).in_bounds(coord),
        ensures
            final(self).wf(),
            final(self).radii == old(self).radii,
            final(self).res == old(self).res,
            final(self).data@ == old(self).data@.update(old(self).idx(coord), value),
    {
        let data_len = self.data.len();
        proof {
            self.lemma_idx_in_range(coord);
        }
        let rx: usize = self.res.x as usize;
        let ry: usize = self.res.y as usize;
        let idx: usize = ((coord.z as usize) * rx) * ry + (coord.y as usize) * rx
            + (coord.x as usize);
        self.data.set(idx, value);
    }

    /// Reads the density sample of one cell.
    pub fn get(&self, coord: IVec3) -> (r: u32)
        requires
            self.wf(),
            self.in_bounds(coord),
        ensures
            r == self.data@[self.idx(coord)],
    {
        let data_len = self.data.len();
        proof {
            self.lemma_idx_in_range(coord);
        }
        let rx: usize = self.res.x as usize;
        let ry: usize = self.res.y as usize;
        let idx: usize = ((coord.z as usize) * rx) * ry + (coord.y as usize) * rx
            + (coord.x as usize);
        self.data[idx]
    }

    /// The flat index of an in-bounds cell lies inside the grid, as do the
    /// partial products formed on the way to it.
    proof fn lemma_idx_in_range(self, coord: IVec3)
        requires
            self.wf(),
            self.in_bounds(coord),
        ensures
            0 <= self.idx(coord) < self.cell_count(),
            (coord.z * self.res.x) * self.res.y + coord.y * self.res.x
                <= self.cell_count(),
            coord.z * self.res.x <= self.cell_count(),
            self.res.x * self.res.y <= self.cell_count(),
    {
        assert((coord.z * self.res.x) * self.res.y + coord.y * self.res.x + coord.x
            < (self.res.x * self.res.y) * self.res.z
            && 0 <= (coord.z * self.res.x) * self.res.y + coord.y * self.res.x + coord.x
            && coord.z * self.res.x <= (self.res.x * self.res.y) * self.res.z
            && (coord.z * self.res.x) * self.res.y + coord.y * self.res.x
                <= (self.res.x * self.res.y) * self.res.z
            && self.res.x * self.res.y <= (self.res.x * self.res.y) * self.res.z)
            by (nonlinear_arith)
            requires
                0 <= coord.x < self.res.x,
                0 <= coord.y < self.res.y,
                0 <= coord.z < self.res.z,
        ;
    }

    /// All density samples hold one and the same bit pattern, the input on
    /// which a min-max normalization would divide by zero.
    pub open spec fn is_constant(self) -> bool {
        forall|i: int| 0 <= i < self.data@.len() ==> #[trigger] self.data@[i] == self.data@[0]
    }

    /// The degenerate-input guard and the scan half of min-max
    /// normalization: `None` when every sample is equal (the caller must
    /// leave the volume unchanged rather than divide by the zero range);
    /// otherwise the pair of the minimum and maximum sample bit patterns
    /// under the single-precision total order. The arithmetic half — the
    /// per-sample `(v - min) / (max - min)` rewrite — is floating point and
    /// stays with the application.
    pub fn normalize_range(&self) -> (r: Option<(u32, u32)>)
        requires
            self.wf(),
        ensures
            match r {
                None => self.is_constant(),
                Some((mn, mx)) => {
                    &&& !self.is_constant()
                    &&& mn != mx
                    &&& exists|i: int| 0 <= i < self.data@.len() && self.data@[i] == mn
                    &&& exists|i: int| 0 <= i < self.data@.len() && self.data@[i] == mx
                    &&& forall|i: int|
                        0 <= i < self.data@.len() ==> f32_order_key(mn)
                            <= #[trigger] f32_order_key(self.data@[i]) <= f32_order_key(mx)
                },
            },
    {
        proof {
            assert(self.cell_count() >= 1) by (nonlinear_arith)
                requires
                    self.res.x >= 1,
                    self.res.y >= 1,
                    self.res.z >= 1,
            ;
        }
        let len = self.data.len();
        let mut mn: u32 = self.data[0];
        let mut mx: u32 = self.data[0];
        let mut mn_key: u32 = order_key(mn);
        let mut mx_key: u32 = order_key(mx);
        let mut i: usize = 1;
        while i < len
            invariant
                1 <= i <= len,
                len == self.data@.len(),
                mn_key == f32_order_key(mn),
                mx_key == f32_order_key(mx),
                exists|j: int| 0 <= j < i && self.data@[j] == mn,
                exists|j: int| 0 <= j < i && self.data@[j] == mx,
                forall|j: int|
                    0 <= j < i ==> mn_key <= #[trigger] f32_order_key(self.data@[j])
                        <= mx_key,
            decreases len - i,
        {
            let v = self.data[i];
            let k = order_key(v);
            if k < mn_key {
                mn = v;
                mn_key = k;
            }
            if k > mx_key {
                mx = v;
                mx_key = k;
            }
            i = i + 1;
        }
        if mn == mx {
            proof {
                assert forall|j: int| 0 <= j < self.data@.len()
                    implies #[trigger] self.data@[j] == self.data@[0] by {
                    lemma_f32_order_key_injective(self.data@[j], mn);
                    lemma_f32_order_key_injective(self.data@[0], mn);
                }
            }
            None
        } else {
            proof {
                let j0 = choose|j: int| 0 <= j < self.data@.len() && self.data@[j] == mn;
                let j1 = choose|j: int| 0 <= j < self.data@.len() && self.data@[j] == mx;
                if self.is_constant() {
                    assert(self.data@[j0] == self.data@[0]);
                    assert(self.data@[j1] == self.data@[0]);
                    assert(false);
                }
            }
            Some((mn, mx))
        }
    }
}

} // verus!
