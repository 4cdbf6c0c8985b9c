use crate::types::{add_checked, mul_checked, CLResult, CLVec, MemError};
use vstd::prelude::*;

verus! {

/// A rectangular copy between two linear memory spans: the extent of the
/// region in pixels, rows and slices, and for each side the origin and the
/// distances between rows and between slices.
#[derive(Clone, Copy, Debug, PartialEq, Eq, Structural)]
pub struct SwCopy {
    pub region: CLVec,
    pub src_origin: CLVec,
    pub src_row_pitch: usize,
    pub src_slice_pitch: usize,
    pub dst_origin: CLVec,
    pub dst_row_pitch: usize,
    pub dst_slice_pitch: usize,
    pub pixel_size: u8,
}

/// Offset in a span of the first byte of row `y` of slice `z` of a region
/// that starts at `origin`.
pub open spec fn row_offset(
    origin: CLVec,
    y: int,
    z: int,
    pixel_size: int,
    row_pitch: int,
    slice_pitch: int,
) -> int {
    origin.x * pixel_size + (origin.y + y) * row_pitch + (origin.z + z) * slice_pitch
}

/// `dst` with the `n` bytes from offset `d` on replaced by the `n` bytes of
/// `src` from offset `s` on.
pub open spec fn copy_row(dst: Seq<u8>, src: Seq<u8>, d: int, s: int, n: int) -> Seq<u8> {
    Seq::new(
        dst.len(),
        |i: int|
            if d <= i < d + n {
                src[s + (i - d)]
            } else {
                dst[i]
            },
    )
}

impl SwCopy {
    /// Number of bytes in one row of the region.
    pub open spec fn row_len(self) -> int {
        self.region.x * self.pixel_size
    }

    /// Offset in the source of row `y` of slice `z`.
    pub open spec fn src_offset(self, y: int, z: int) -> int {
        row_offset(
            self.src_origin,
            y,
            z,
            self.pixel_size as int,
            self.src_row_pitch as int,
            self.src_slice_pitch as int,
        )
    }

    /// Offset in the destination of row `y` of slice `z`.
    pub open spec fn dst_offset(self, y: int, z: int) -> int {
        row_offset(
            self.dst_origin,
            y,
            z,
            self.pixel_size as int,
            self.dst_row_pitch as int,
            self.dst_slice_pitch as int,
        )
    }

    /// The region has at least one row.
    pub open spec fn has_rows(self) -> bool {
        self.region.y >= 1 && self.region.z >= 1
    }

    /// Every row of the region lies inside a source of `src_len` bytes and a
    /// destination of `dst_len` bytes: its last row does.
    pub open spec fn fits(self, src_len: int, dst_len: int) -> bool {
        self.has_rows() ==> {
            &&& self.src_offset(self.region.y - 1, self.region.z - 1) + self.row_len() <= src_len
            &&& self.dst_offset(self.region.y - 1, self.region.z - 1) + self.row_len() <= dst_len
        }
    }

    /// The destination after the first `z` slices and the first `y` rows of
    /// the next slice have been copied, row after row, a later row over an
    /// earlier one where they overlap.
    pub open spec fn after(self, dst: Seq<u8>, src: Seq<u8>, z: nat, y: nat) -> Seq<u8>
        decreases z, y,
    {
        if y > 0 {
            copy_row(
                self.after(dst, src, z, (y - 1) as nat),
                src,
                self.dst_offset(y - 1, z as int),
                self.src_offset(y - 1, z as int),
                self.row_len(),
            )
        } else if z > 0 {
            self.after(dst, src, (z - 1) as nat, self.region.y as nat)
        } else {
            dst
        }
    }

    /// The destination after the whole region has been copied.
    pub open spec fn result(self, dst: Seq<u8>, src: Seq<u8>) -> Seq<u8> {
        self.after(dst, src, self.region.z as nat, 0)
    }

    /// Copying never changes the length of the destination.
    pub proof fn lemma_after_len(self, dst: Seq<u8>, src: Seq<u8>, z: nat, y: nat)
        ensures
            self.after(dst, src, z, y).len() == dst.len(),
        decreases z, y,
    {
        if y > 0 {
            self.lemma_after_len(dst, src, z, (y - 1) as nat);
        } else if z > 0 {
            self.lemma_after_len(dst, src, (z - 1) as nat, self.region.y as nat);
        }
    }

    /// A region without rows leaves the destination as it was.
    pub proof fn lemma_no_rows(self, dst: Seq<u8>, src: Seq<u8>, z: nat)
        requires
            self.region.y == 0,
        ensures
            self.after(dst, src, z, 0) == dst,
        decreases z,
    {
        if z > 0 {
            self.lemma_no_rows(dst, src, (z - 1) as nat);
        }
    }

    /// A row of the region starts no later than its last row, on both sides.
    pub proof fn lemma_row_before_last(self, y: int, z: int)
        requires
            0 <= y < self.region.y,
            0 <= z < self.region.z,
        ensures
            0 <= self.src_offset(y, z) <= self.src_offset(self.region.y - 1, self.region.z - 1),
            0 <= self.dst_offset(y, z) <= self.dst_offset(self.region.y - 1, self.region.z - 1),
            0 <= self.row_len(),
    {
        lemma_offset_monotone(
            self.src_origin,
            y,
            z,
            self.region.y - 1,
            self.region.z - 1,
            self.pixel_size as int,
            self.src_row_pitch as int,
            self.src_slice_pitch as int,
        );
        lemma_offset_monotone(
            self.dst_origin,
            y,
            z,
            self.region.y - 1,
            self.region.z - 1,
            self.pixel_size as int,
            self.dst_row_pitch as int,
            self.dst_slice_pitch as int,
        );
        let w = self.region.x as int;
        let p = self.pixel_size as int;
        assert(w * p >= 0) by (nonlinear_arith)
            requires
                w >= 0,
                p >= 0,
        ;
    }
}

/// The offset of a row grows with the row and with the slice.
pub proof fn lemma_offset_monotone(
    origin: CLVec,
    y: int,
    z: int,
    y2: int,
    z2: int,
    ps: int,
    rp: int,
    sp: int,
)
    requires
        0 <= y <= y2,
        0 <= z <= z2,
        0 <= ps,
        0 <= rp,
        0 <= sp,
    ensures
        0 <= row_offset(origin, y, z, ps, rp, sp) <= row_offset(origin, y2, z2, ps, rp, sp),
        row_offset(origin, y, z, ps, rp, sp) == origin.x * ps + origin.y * rp + y * rp + origin.z
            * sp + z * sp,
        0 <= origin.x * ps,
        0 <= origin.y * rp,
        0 <= y * rp,
        0 <= origin.z * sp,
        0 <= z * sp,
{
    let ox = origin.x as int;
    let oy = origin.y as int;
    let oz = origin.z as int;
    assert(ox * ps >= 0 && oy * rp >= 0 && y * rp >= 0 && oz * sp >= 0 && z * sp >= 0)
        by (nonlinear_arith)
        requires
            ox >= 0,
            oy >= 0,
            oz >= 0,
            y >= 0,
            z >= 0,
            ps >= 0,
            rp >= 0,
            sp >= 0,
    ;
    assert((oy + y) * rp == oy * rp + y * rp && (oz + z) * sp == oz * sp + z * sp)
        by (nonlinear_arith);
    assert((oy + y) * rp <= (oy + y2) * rp) by (nonlinear_arith)
        requires
            y <= y2,
            rp >= 0,
    ;
    assert((oz + z) * sp <= (oz + z2) * sp) by (nonlinear_arith)
        requires
            z <= z2,
            sp >= 0,
    ;
}

impl SwCopy {
    /// The rows of the destination lie apart: a row ends before the next one
    /// starts, and a slice before the next slice.
    pub open spec fn rows_apart(self) -> bool {
        self.dst_row_pitch >= self.row_len() && self.dst_slice_pitch >= self.region.y
            * self.dst_row_pitch
    }

    /// Row `y1` of slice `z1` is copied before row `y` of slice `z`.
    pub open spec fn copied_before(self, y1: int, z1: int, y: int, z: int) -> bool {
        0 <= y1 < self.region.y && 0 <= z1 && (z1 < z || (z1 == z && y1 < y))
    }

    /// Byte `i` of the destination lies in row `y` of slice `z`.
    pub open spec fn in_row(self, i: int, y: int, z: int) -> bool {
        self.dst_offset(y, z) <= i < self.dst_offset(y, z) + self.row_len()
    }

    /// Byte `i` of the destination lies in a row that is copied before row
    /// `y` of slice `z`.
    pub open spec fn written_before(self, i: int, y: int, z: int) -> bool {
        exists|y1: int, z1: int| self.copied_before(y1, z1, y, z) && #[trigger] self.in_row(i, y1, z1)
    }

    /// Where the rows of the destination lie apart, a row that is copied
    /// earlier ends before a row that is copied later starts.
    pub proof fn lemma_rows_in_order(self, y1: int, z1: int, y: int, z: int)
        requires
            self.rows_apart(),
            self.copied_before(y1, z1, y, z),
            0 <= y <= self.region.y,
        ensures
            self.dst_offset(y1, z1) + self.row_len() <= self.dst_offset(y, z),
            0 <= self.dst_offset(y1, z1),
            0 <= self.row_len(),
    {
        lemma_offset_monotone(
            self.dst_origin,
            y1,
            z1,
            y1,
            z1,
            self.pixel_size as int,
            self.dst_row_pitch as int,
            self.dst_slice_pitch as int,
        );
        lemma_offset_monotone(
            self.dst_origin,
            y,
            z,
            y,
            z,
            self.pixel_size as int,
            self.dst_row_pitch as int,
            self.dst_slice_pitch as int,
        );
        let rp = self.dst_row_pitch as int;
        let sp = self.dst_slice_pitch as int;
        let ry = self.region.y as int;
        let w = self.region.x as int;
        let ps = self.pixel_size as int;
        assert(w * ps >= 0) by (nonlinear_arith)
            requires
                w >= 0,
                ps >= 0,
        ;
        if z1 == z {
            assert(y * rp - y1 * rp >= rp) by (nonlinear_arith)
                requires
                    y1 < y,
                    rp >= 0,
            ;
        } else {
            assert(z * sp - z1 * sp >= sp) by (nonlinear_arith)
                requires
                    z1 < z,
                    sp >= 0,
            ;
            assert(y1 * rp - y * rp <= ry * rp - rp) by (nonlinear_arith)
                requires
                    y1 <= ry - 1,
                    y >= 0,
                    rp >= 0,
            ;
        }
    }

    /// Where the rows of the destination lie apart, the copy of the rows
    /// before row `y` of slice `z` has put each of them in its place, and has
    /// left every byte outside of them as it was.
    pub proof fn lemma_after_apart(self, dst: Seq<u8>, src: Seq<u8>, z: nat, y: nat)
        requires
            self.rows_apart(),
            self.fits(src.len() as int, dst.len() as int),
            y <= self.region.y,
            z < self.region.z || (z == self.region.z && y == 0),
        ensures
            self.after(dst, src, z, y).len() == dst.len(),
            forall|i: int, y1: int, z1: int|
                self.copied_before(y1, z1, y as int, z as int) && #[trigger] self.in_row(i, y1, z1)
                    ==> 0 <= i < dst.len() && self.after(dst, src, z, y)[i] == src[self.src_offset(
                    y1,
                    z1,
                ) + (i - self.dst_offset(y1, z1))],
            forall|i: int|
                0 <= i < dst.len() && !self.written_before(i, y as int, z as int) ==> self.after(
                    dst,
                    src,
                    z,
                    y,
                )[i] == dst[i],
        decreases z, y,
    {
        let now = self.after(dst, src, z, y);
        self.lemma_after_len(dst, src, z, y);
        if y > 0 {
            let prev = self.after(dst, src, z, (y - 1) as nat);
            self.lemma_after_apart(dst, src, z, (y - 1) as nat);
            self.lemma_after_len(dst, src, z, (y - 1) as nat);
            let d = self.dst_offset(y - 1, z as int);
            let s = self.src_offset(y - 1, z as int);
            let n = self.row_len();
            self.lemma_row_before_last(y - 1, z as int);
            assert(self.has_rows());
            assert(0 <= d && d + n <= dst.len());
            assert forall|i: int, y1: int, z1: int|
                self.copied_before(y1, z1, y as int, z as int) && #[trigger] self.in_row(
                    i,
                    y1,
                    z1,
                ) implies 0 <= i < dst.len() && now[i] == src[self.src_offset(y1, z1) + (i
                - self.dst_offset(y1, z1))] by {
                if z1 == z && y1 == y - 1 {
                } else {
                    assert(self.copied_before(y1, z1, y - 1, z as int));
                    self.lemma_rows_in_order(y1, z1, y - 1, z as int);
                    assert(now[i] == prev[i]);
                }
            }
            assert forall|i: int|
                0 <= i < dst.len() && !self.written_before(i, y as int, z as int) implies now[i]
                == dst[i] by {
                if self.in_row(i, y - 1, z as int) {
                    assert(self.copied_before(y - 1, z as int, y as int, z as int));
                }
                if self.written_before(i, y - 1, z as int) {
                    let (y1, z1) = choose|y1: int, z1: int|
                        self.copied_before(y1, z1, y - 1, z as int) && #[trigger] self.in_row(
                            i,
                            y1,
                            z1,
                        );
                    assert(self.copied_before(y1, z1, y as int, z as int));
                }
                assert(now[i] == prev[i]);
            }
        } else if z > 0 {
            let prev = self.after(dst, src, (z - 1) as nat, self.region.y as nat);
            self.lemma_after_apart(dst, src, (z - 1) as nat, self.region.y as nat);
            assert forall|i: int, y1: int, z1: int|
                self.copied_before(y1, z1, y as int, z as int) && #[trigger] self.in_row(
                    i,
                    y1,
                    z1,
                ) implies 0 <= i < dst.len() && now[i] == src[self.src_offset(y1, z1) + (i
                - self.dst_offset(y1, z1))] by {
                assert(self.copied_before(y1, z1, self.region.y as int, z - 1));
            }
            assert forall|i: int|
                0 <= i < dst.len() && !self.written_before(i, y as int, z as int) implies now[i]
                == dst[i] by {
                if self.written_before(i, self.region.y as int, z - 1) {
                    let (y1, z1) = choose|y1: int, z1: int|
                        self.copied_before(y1, z1, self.region.y as int, z - 1)
                            && #[trigger] self.in_row(i, y1, z1);
                    assert(self.copied_before(y1, z1, y as int, z as int));
                }
            }
        } else {
        }
    }

    /// Where the rows of the destination lie apart, the copy puts every
    /// byte of every row of the region in its place in the destination, and
    /// leaves every byte of the destination outside of these rows as it was.
    pub proof fn lemma_copy_apart(self, dst: Seq<u8>, src: Seq<u8>)
        requires
            self.rows_apart(),
            self.fits(src.len() as int, dst.len() as int),
        ensures
            self.result(dst, src).len() == dst.len(),
            forall|i: int, y: int, z: int|
                0 <= y < self.region.y && 0 <= z < self.region.z && #[trigger] self.in_row(i, y, z)
                    ==> 0 <= i < dst.len() && self.result(dst, src)[i] == src[self.src_offset(y, z)
                    + (i - self.dst_offset(y, z))],
            forall|i: int|
                0 <= i < dst.len() && !(exists|y: int, z: int|
                    0 <= y < self.region.y && 0 <= z < self.region.z && #[trigger] self.in_row(
                        i,
                        y,
                        z,
                    )) ==> self.result(dst, src)[i] == dst[i],
    {
        self.lemma_after_apart(dst, src, self.region.z as nat, 0);
        let r = self.result(dst, src);
        assert forall|i: int, y: int, z: int|
            0 <= y < self.region.y && 0 <= z < self.region.z && #[trigger] self.in_row(
                i,
                y,
                z,
            ) implies 0 <= i < dst.len() && r[i] == src[self.src_offset(y, z) + (i
            - self.dst_offset(y, z))] by {
            assert(self.copied_before(y, z, 0, self.region.z as int));
        }
        assert forall|i: int|
            0 <= i < dst.len() && !(exists|y: int, z: int|
                0 <= y < self.region.y && 0 <= z < self.region.z && #[trigger] self.in_row(
                    i,
                    y,
                    z,
                )) implies r[i] == dst[i] by {
            if self.written_before(i, 0, self.region.z as int) {
                let (y1, z1) = choose|y1: int, z1: int|
                    self.copied_before(y1, z1, 0, self.region.z as int) && #[trigger] self.in_row(
                        i,
                        y1,
                        z1,
                    );
                assert(0 <= y1 < self.region.y && 0 <= z1 < self.region.z && self.in_row(
                    i,
                    y1,
                    z1,
                ));
            }
        }
    }
}

/// Computes the offset of row `y` of slice `z`, which is known to lie below
/// `limit`.
fn row_start(
    origin: &CLVec,
    y: usize,
    z: usize,
    pixel_size: usize,
    row_pitch: usize,
    slice_pitch: usize,
    limit: usize,
) -> (r: usize)
    requires
        row_offset(*origin, y as int, z as int, pixel_size as int, row_pitch as int, slice_pitch as int)
            <= limit,
    ensures
        r == row_offset(
            *origin,
            y as int,
            z as int,
            pixel_size as int,
            row_pitch as int,
            slice_pitch as int,
        ),
{
    proof {
        lemma_offset_monotone(
            *origin,
            y as int,
            z as int,
            y as int,
            z as int,
            pixel_size as int,
            row_pitch as int,
            slice_pitch as int,
        );
    }
    let a = origin.x * pixel_size;
    let b = origin.y * row_pitch;
    let c = y * row_pitch;
    let d = origin.z * slice_pitch;
    let e = z * slice_pitch;
    a + b + c + d + e
}

/// Whether every row of the copy lies inside a source of `src_len` bytes and
/// a destination of `dst_len` bytes.
pub fn copy_fits(params: &SwCopy, src_len: usize, dst_len: usize) -> (r: bool)
    ensures
        r == params.fits(src_len as int, dst_len as int),
{
    if params.region.y == 0 || params.region.z == 0 {
        return true;
    }
    let s = side_fits(
        &params.src_origin,
        &params.region,
        params.pixel_size,
        params.src_row_pitch,
        params.src_slice_pitch,
        src_len,
    );
    let d = side_fits(
        &params.dst_origin,
        &params.region,
        params.pixel_size,
        params.dst_row_pitch,
        params.dst_slice_pitch,
        dst_len,
    );
    s && d
}

/// Whether the last row of a region ends inside a span of `len` bytes.
fn side_fits(
    origin: &CLVec,
    region: &CLVec,
    pixel_size: u8,
    row_pitch: usize,
    slice_pitch: usize,
    len: usize,
) -> (r: bool)
    requires
        region.y >= 1,
        region.z >= 1,
    ensures
        r == (row_offset(
            *origin,
            region.y - 1,
            region.z - 1,
            pixel_size as int,
            row_pitch as int,
            slice_pitch as int,
        ) + region.x * pixel_size <= len),
{
    let ps = pixel_size as usize;
    proof {
        lemma_offset_monotone(
            *origin,
            region.y - 1,
            region.z - 1,
            region.y - 1,
            region.z - 1,
            ps as int,
            row_pitch as int,
            slice_pitch as int,
        );
        let w = region.x as int;
        let p = ps as int;
        assert(w * p >= 0) by (nonlinear_arith)
            requires
                w >= 0,
                p >= 0,
        ;
    }
    match last_row_end(origin, region, ps, row_pitch, slice_pitch) {
        Ok(end) => end <= len,
        Err(_) => false,
    }
}

/// Offset of the byte after the last row of a region, where it fits the
/// machine word.
fn last_row_end(
    origin: &CLVec,
    region: &CLVec,
    ps: usize,
    row_pitch: usize,
    slice_pitch: usize,
) -> (r: CLResult<usize>)
    requires
        region.y >= 1,
        region.z >= 1,
        0 <= origin.x * ps,
        0 <= origin.y * row_pitch,
        0 <= (region.y - 1) * row_pitch,
        0 <= origin.z * slice_pitch,
        0 <= (region.z - 1) * slice_pitch,
        0 <= region.x * ps,
    ensures
        r == (if origin.x * ps + origin.y * row_pitch + (region.y - 1) * row_pitch + origin.z
            * slice_pitch + (region.z - 1) * slice_pitch + region.x * ps <= usize::MAX {
            Ok::<usize, MemError>(
                (origin.x * ps + origin.y * row_pitch + (region.y - 1) * row_pitch + origin.z
                    * slice_pitch + (region.z - 1) * slice_pitch + region.x * ps) as usize,
            )
        } else {
            Err(MemError::OutOfHostMemory)
        }),
{
    let a = mul_checked(origin.x, ps)?;
    let b = mul_checked(origin.y, row_pitch)?;
    let c = mul_checked(region.y - 1, row_pitch)?;
    let d = mul_checked(origin.z, slice_pitch)?;
    let e = mul_checked(region.z - 1, slice_pitch)?;
    let f = mul_checked(region.x, ps)?;
    let ab = add_checked(a, b)?;
    let abc = add_checked(ab, c)?;
    let abcd = add_checked(abc, d)?;
    let abcde = add_checked(abcd, e)?;
    add_checked(abcde, f)
}

/// Copies the first `size` bytes of `src` to the start of `dst`.
pub fn copy_linear(src: &[u8], dst: &mut [u8], size: usize)
    requires
        size <= src@.len(),
        size <= old(dst)@.len(),
    ensures
        final(dst)@ == copy_row(old(dst)@, src@, 0, 0, size as int),
        final(dst)@.subrange(0, size as int) == src@.subrange(0, size as int),
{
    let ghost start = dst@;
    let mut i: usize = 0;
    while i < size
        invariant
            i <= size,
            size <= src@.len(),
            size <= dst@.len(),
            dst@.len() == start.len(),
            dst@ =~= copy_row(start, src@, 0, 0, i as int),
        decreases size - i,
    {
        dst[i] = src[i];
        i += 1;
    }
    assert(dst@.subrange(0, size as int) =~= src@.subrange(0, size as int));
}

/// Copies a region of up to three dimensions from `src` to `dst`, row by
/// row. The two sides have their own origin and pitches; a pixel is
/// `pixel_size` bytes wide.
pub fn sw_copy(
    src: &[u8],
    dst: &mut [u8],
    region: &CLVec,
    src_origin: &CLVec,
    src_row_pitch: usize,
    src_slice_pitch: usize,
    dst_origin: &CLVec,
    dst_row_pitch: usize,
    dst_slice_pitch: usize,
    pixel_size: u8,
)
    requires
        (SwCopy {
            region: *region,
            src_origin: *src_origin,
            src_row_pitch,
            src_slice_pitch,
            dst_origin: *dst_origin,
            dst_row_pitch,
            dst_slice_pitch,
            pixel_size,
        }).fits(src@.len() as int, old(dst)@.len() as int),
    ensures
        final(dst)@ == (SwCopy {
            region: *region,
            src_origin: *src_origin,
            src_row_pitch,
            src_slice_pitch,
            dst_origin: *dst_origin,
            dst_row_pitch,
            dst_slice_pitch,
            pixel_size,
        }).result(old(dst)@, src@),
{
    let ghost p = SwCopy {
        region: *region,
        src_origin: *src_origin,
        src_row_pitch,
        src_slice_pitch,
        dst_origin: *dst_origin,
        dst_row_pitch,
        dst_slice_pitch,
        pixel_size,
    };
    let ghost start = dst@;
    if region.y == 0 || region.z == 0 {
        proof {
            if region.y == 0 {
                p.lemma_no_rows(start, src@, region.z as nat);
            }
        }
        return ;
    }
    let ps = pixel_size as usize;
    let src_len = src.len();
    let dst_len = dst.len();
    proof {
        p.lemma_row_before_last(0, 0);
        assert(p.has_rows());
        assert(p.row_len() <= src_len);
    }
    let row_len = region.x * ps;
    let mut z: usize = 0;
    while z < region.z
        invariant
            z <= region.z,
            region.y >= 1,
            ps == pixel_size,
            row_len == p.row_len(),
            p == (SwCopy {
                region: *region,
                src_origin: *src_origin,
                src_row_pitch,
                src_slice_pitch,
                dst_origin: *dst_origin,
                dst_row_pitch,
                dst_slice_pitch,
                pixel_size,
            }),
            p.fits(src@.len() as int, start.len() as int),
            src_len == src@.len(),
            dst_len == start.len(),
            dst@.len() == start.len(),
            dst@ == p.after(start, src@, z as nat, 0),
        decreases region.z - z,
    {
        let mut y: usize = 0;
        while y < region.y
            invariant
                y <= region.y,
                z < region.z,
                region.y >= 1,
                ps == pixel_size,
                row_len == p.row_len(),
                p == (SwCopy {
                    region: *region,
                    src_origin: *src_origin,
                    src_row_pitch,
                    src_slice_pitch,
                    dst_origin: *dst_origin,
                    dst_row_pitch,
                    dst_slice_pitch,
                    pixel_size,
                }),
                p.fits(src@.len() as int, start.len() as int),
                src_len == src@.len(),
                dst_len == start.len(),
                dst@.len() == start.len(),
                dst@ == p.after(start, src@, z as nat, y as nat),
            decreases region.y - y,
        {
            proof {
                p.lemma_row_before_last(y as int, z as int);
            }
            let s = row_start(src_origin, y, z, ps, src_row_pitch, src_slice_pitch, src_len);
            let d = row_start(dst_origin, y, z, ps, dst_row_pitch, dst_slice_pitch, dst_len);
            let ghost prev = dst@;
            let mut x: usize = 0;
            while x < row_len
                invariant
                    x <= row_len,
                    s + row_len <= src_len,
                    d + row_len <= dst_len,
                    src_len == src@.len(),
                    dst_len == prev.len(),
                    dst@.len() == prev.len(),
                    dst@ =~= copy_row(prev, src@, d as int, s as int, x as int),
                decreases row_len - x,
            {
                dst[d + x] = src[s + x];
                x += 1;
            }
            y += 1;
        }
        z += 1;
    }
}

} // verus!
