//! The parts of a scene that are decided without arithmetic: how deep the
//! view reaches, and which colour each shape gets.
use crate::rasterizer::Color;
use crate::scalar::Scalar;
use vstd::prelude::*;

verus! {

/// How far a shape reaches along the axis of the view: from `min_z` to
/// `max_z`.
#[derive(Debug, Clone, Copy, PartialEq, Eq, Structural)]
pub struct DepthBounds {
    pub min_z: Scalar,
    pub max_z: Scalar,
}

/// The frustum of the view: the ratio of its width to its height, the angle
/// that it opens vertically, and the distances between which shapes are seen.
#[derive(Debug, Clone, Copy, PartialEq, Eq, Structural)]
pub struct SceneProjection {
    pub aspect: Scalar,
    pub fovy: Scalar,
    pub znear: Scalar,
    pub zfar: Scalar,
}

/// The near distance of a view without shapes: 1.
pub open spec fn znear_default() -> Scalar {
    Scalar { bits: 0x3f80_0000 }
}

/// The far distance of a view without shapes: 100.
pub open spec fn zfar_default() -> Scalar {
    Scalar { bits: 0x42c8_0000 }
}

/// The least of the near ends of the first `count` shapes, which there must
/// be: taken one after the other, where what is no number yields to a number.
pub open spec fn nearest_end(bounds: Seq<DepthBounds>, count: int) -> Scalar
    decreases count,
{
    if count <= 1 {
        bounds[0].min_z
    } else {
        nearest_end(bounds, count - 1).spec_min(bounds[count - 1].min_z)
    }
}

/// The greatest of the far ends of the first `count` shapes, which there
/// must be.
pub open spec fn farthest_end(bounds: Seq<DepthBounds>, count: int) -> Scalar
    decreases count,
{
    if count <= 1 {
        bounds[0].max_z
    } else {
        farthest_end(bounds, count - 1).spec_max(bounds[count - 1].max_z)
    }
}

/// If all ends are numbers, no shape begins before the nearest end or ends
/// behind the farthest, and each of the two is the end of some shape.
pub proof fn lemma_ends_bound(bounds: Seq<DepthBounds>, count: int)
    requires
        1 <= count <= bounds.len(),
        forall|i: int|
            0 <= i < count ==> !(#[trigger] bounds[i]).min_z.spec_is_nan()
                && !bounds[i].max_z.spec_is_nan(),
    ensures
        forall|i: int|
            0 <= i < count ==> nearest_end(bounds, count).spec_le((#[trigger] bounds[i]).min_z)
                && bounds[i].max_z.spec_le(farthest_end(bounds, count)),
        exists|i: int| 0 <= i < count && (#[trigger] bounds[i]).min_z == nearest_end(bounds, count),
        exists|i: int| 0 <= i < count && (#[trigger] bounds[i]).max_z == farthest_end(bounds, count),
    decreases count,
{
    if count > 1 {
        lemma_ends_bound(bounds, count - 1);
        let i = choose|i: int|
            0 <= i < count - 1 && (#[trigger] bounds[i]).min_z == nearest_end(bounds, count - 1);
        let j = choose|j: int|
            0 <= j < count - 1 && (#[trigger] bounds[j]).max_z == farthest_end(bounds, count - 1);
        assert(bounds[count - 1].min_z == nearest_end(bounds, count) || bounds[i].min_z
            == nearest_end(bounds, count));
        assert(bounds[count - 1].max_z == farthest_end(bounds, count) || bounds[j].max_z
            == farthest_end(bounds, count));
    } else {
        assert(bounds[0].min_z == nearest_end(bounds, count));
        assert(bounds[0].max_z == farthest_end(bounds, count));
    }
}

impl SceneProjection {
    /// The frustum with the given distances, ratio and angle.
    pub fn new(znear: Scalar, zfar: Scalar, aspect_ratio: Scalar, fovy: Scalar) -> (projection:
        SceneProjection)
        ensures
            projection == (SceneProjection { aspect: aspect_ratio, fovy, znear, zfar }),
    {
        SceneProjection { aspect: aspect_ratio, fovy, znear, zfar }
    }

    /// Fits the distances between which shapes are seen to the shapes: from
    /// the nearest near end to the farthest far end. Without shapes the
    /// distances are 1 and 100.
    pub fn update_for_shapes(&mut self, bounds: &[DepthBounds])
        ensures
            final(self).aspect == old(self).aspect,
            final(self).fovy == old(self).fovy,
            final(self).znear == (if bounds@.len() == 0 {
                znear_default()
            } else {
                nearest_end(bounds@, bounds@.len() as int)
            }),
            final(self).zfar == (if bounds@.len() == 0 {
                zfar_default()
            } else {
                farthest_end(bounds@, bounds@.len() as int)
            }),
    {
        if bounds.len() == 0 {
            self.znear = Scalar::from_bits(0x3f80_0000);
            self.zfar = Scalar::from_bits(0x42c8_0000);
        } else {
            let mut znear: Scalar = bounds[0].min_z;
            let mut zfar: Scalar = bounds[0].max_z;
            let mut i: usize = 1;
            while i < bounds.len()
                invariant
                    1 <= i <= bounds@.len(),
                    znear == nearest_end(bounds@, i as int),
                    zfar == farthest_end(bounds@, i as int),
                decreases bounds@.len() - i,
            {
                znear = znear.min(bounds[i].min_z);
                zfar = zfar.max(bounds[i].max_z);
                i += 1;
            }
            self.znear = znear;
            self.zfar = zfar;
        }
    }
}

/// The colours that shapes are given in turn.
pub open spec fn palette() -> Seq<Color> {
    seq![Color::Red, Color::Green, Color::Yellow, Color::Blue, Color::Magenta, Color::Cyan]
}

/// Gives the shapes colours that tell neighbours apart: the colours of the
/// palette in turn, beginning anew after the last.
pub fn recolor(colors: &mut Vec<Color>)
    ensures
        final(colors)@.len() == old(colors)@.len(),
        forall|i: int| 0 <= i < final(colors)@.len() ==> #[trigger] final(colors)@[i] == palette()[i % 6],
{
    let ordering: [Color; 6] = [
        Color::Red,
        Color::Green,
        Color::Yellow,
        Color::Blue,
        Color::Magenta,
        Color::Cyan,
    ];
    assert(ordering@ =~= palette());
    let count: usize = colors.len();
    let mut i: usize = 0;
    while i < count
        invariant
            0 <= i <= count,
            colors@.len() == count,
            ordering@ == palette(),
            forall|k: int| 0 <= k < i ==> #[trigger] colors@[k] == palette()[k % 6],
        decreases count - i,
    {
        let color: Color = ordering[i % 6];
        colors[i] = color;
        i += 1;
    }
}

} // verus!
