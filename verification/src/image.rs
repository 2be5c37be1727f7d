//! The integer side of plot images: checking raster data, labels, and the
//! order of a quad's corners and texture coordinates.

use vstd::prelude::*;

verus! {

/// Errors in the configuration of a plotted shape.
#[derive(Debug, Clone, Copy, PartialEq, Eq, Structural)]
pub enum SeriesError {
    /// An image has zero width or zero height.
    InvalidImageDimensions,
    /// An image's RGBA data does not hold four bytes per pixel.
    InvalidImageDataLength { expected: usize, actual: usize },
    /// An image's center, size or UV rectangle is not finite, or its size is
    /// not positive.
    InvalidImageGeometry,
}

/// Number of bytes of a `width` x `height` RGBA8 image.
pub open spec fn rgba_len(width: u32, height: u32) -> int {
    width * height * 4
}

/// The outcome of validating an image of `width` x `height` pixels with
/// `data_len` bytes of RGBA data whose geometry is `geometry_ok`: the
/// dimensions are checked first, then the data length, then the geometry.
pub open spec fn image_validation(width: u32, height: u32, data_len: usize, geometry_ok: bool) -> Result<
    (),
    SeriesError,
> {
    if width == 0 || height == 0 {
        Err(SeriesError::InvalidImageDimensions)
    } else if data_len != rgba_len(width, height) {
        Err(
            SeriesError::InvalidImageDataLength {
                expected: rgba_len(width, height) as usize,
                actual: data_len,
            },
        )
    } else if !geometry_ok {
        Err(SeriesError::InvalidImageGeometry)
    } else {
        Ok(())
    }
}

/// Validates an image: `width` and `height` in pixels, `data_len` bytes of RGBA
/// data, and `geometry_ok` telling whether its center, size and UV rectangle
/// are finite with a positive size.
pub fn validate_image(width: u32, height: u32, data_len: usize, geometry_ok: bool) -> (res: Result<
    (),
    SeriesError,
>)
    requires
        width == 0 || height == 0 || rgba_len(width, height) <= usize::MAX,
    ensures
        res == image_validation(width, height, data_len, geometry_ok),
{
    if width == 0 || height == 0 {
        return Err(SeriesError::InvalidImageDimensions);
    }
    proof {
        assert(width * height <= width * height * 4) by (nonlinear_arith);
        assert((width as usize) * (height as usize) == width * height) by (nonlinear_arith)
            requires
                width * height <= usize::MAX,
        ;
    }
    let expected = width as usize * height as usize * 4;
    if data_len != expected {
        return Err(SeriesError::InvalidImageDataLength { expected, actual: data_len });
    }
    if !geometry_ok {
        return Err(SeriesError::InvalidImageGeometry);
    }
    Ok(())
}

/// The label an image keeps when given `label`: an empty label leaves the
/// image unlabelled.
pub fn image_label(label: String) -> (res: Option<String>)
    ensures
        label@.len() == 0 ==> res is None,
        label@.len() != 0 ==> (res matches Some(l) && l@ == label@),
{
    if label.as_str().is_empty() {
        None
    } else {
        Some(label)
    }
}

/// The corners of the rectangle from `min` to `max`, in triangle-strip order:
/// bottom-left, bottom-right, top-left, top-right.
pub fn image_quad_corners<T: Copy>(min: [T; 2], max: [T; 2]) -> (res: [[T; 2]; 4])
    ensures
        res[0]@ == seq![min[0], min[1]],
        res[1]@ == seq![max[0], min[1]],
        res[2]@ == seq![min[0], max[1]],
        res[3]@ == seq![max[0], max[1]],
{
    [[min[0], min[1]], [max[0], min[1]], [min[0], max[1]], [max[0], max[1]]]
}

/// Texture coordinates of the quad's corners, in the order of
/// `image_quad_corners`, for the UV rectangle `uv = [min, max]`: the source
/// image's top row (`v` at its minimum) lies at the top of the quad.
pub fn image_quad_uv<T: Copy>(uv: [[T; 2]; 2]) -> (res: [[T; 2]; 4])
    ensures
        res[0]@ == seq![uv[0][0], uv[1][1]],
        res[1]@ == seq![uv[1][0], uv[1][1]],
        res[2]@ == seq![uv[0][0], uv[0][1]],
        res[3]@ == seq![uv[1][0], uv[0][1]],
{
    let u_min = uv[0][0];
    let v_min = uv[0][1];
    let u_max = uv[1][0];
    let v_max = uv[1][1];
    [[u_min, v_max], [u_max, v_max], [u_min, v_min], [u_max, v_min]]
}

} // verus!
