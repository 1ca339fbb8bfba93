use crate::axis::{DominantAxis, FULL_TURN, QUARTER_TURN};
use crate::error::{GradientError, Stage};
use crate::direction::{resolve_axis, spec_resolve_axis, Direction};
use crate::estimator::{
    circular_mean, lemma_no_gradient_no_strong_pixel, spec_circular_mean, GradientField,
};
use crate::projector::{
    end_band, extreme_bands, lemma_bands_not_empty, projected, projection_field, start_band,
};
use crate::raster::{black, count_set, Color, Image};
use crate::sampler::{
    band_color, hex_color, is_hex_color, lemma_hex_color_shape, lemma_mean_color_uniform,
    mean_color, to_hex,
};
use vstd::prelude::*;

verus! {

/// A two-colour linear gradient: the colour at each end as `#rrggbb`, and the
/// compass angle of the axis between them (0 pointing up, growing clockwise)
/// in millionths of a degree.
#[derive(Debug, Clone)]
pub struct GradientResult {
    pub start_color: String,
    pub end_color: String,
    pub angle: u32,
}

/// The mathematical content of a `GradientResult`.
pub struct GradientModel {
    pub start_color: Seq<char>,
    pub end_color: Seq<char>,
    pub angle: u32,
}

impl View for GradientResult {
    type V = GradientModel;

    open spec fn view(&self) -> GradientModel {
        GradientModel {
            start_color: self.start_color@,
            end_color: self.end_color@,
            angle: self.angle,
        }
    }
}

impl GradientModel {
    /// Both colours are `#` and six lower-case hexadecimal digits, and the
    /// angle lies within a full turn.
    pub open spec fn is_valid(self) -> bool {
        &&& is_hex_color(self.start_color)
        &&& is_hex_color(self.end_color)
        &&& self.angle < FULL_TURN
    }
}

/// The colour at the low end of the axis: the mean of the pixels whose
/// projection lies in the low band.
pub open spec fn start_color(image: &Image, axis: DominantAxis) -> Color {
    mean_color(image@, start_band(projected(image.size(), axis)))
}

/// The colour at the high end of the axis: the mean of the pixels whose
/// projection lies in the high band.
pub open spec fn end_color(image: &Image, axis: DominantAxis) -> Color {
    mean_color(image@, end_band(projected(image.size(), axis)))
}

/// The gradient of a smoothed image along a dominant axis.
pub open spec fn gradient_of(image: &Image, axis: DominantAxis) -> GradientModel {
    GradientModel {
        start_color: hex_color(start_color(image, axis)),
        end_color: hex_color(end_color(image, axis)),
        angle: axis.angle(),
    }
}

/// Samples the two end colours of the gradient of a smoothed image along an
/// axis, and reports them with the compass angle of the axis.
pub fn gradient_along(blurred: &Image, axis: &DominantAxis) -> (result: GradientResult)
    ensures
        result@ == gradient_of(blurred, *axis),
        result@.is_valid(),
{
    proof {
        use_type_invariant(blurred);
        use_type_invariant(axis);
    }
    let field = projection_field(blurred.size(), axis);
    let (low, high) = extreme_bands(&field);
    let start = band_color(blurred, &low);
    let end = band_color(blurred, &high);
    GradientResult { start_color: to_hex(start), end_color: to_hex(end), angle: axis.angle() }
}

/// The dominant axis of an image with derivatives `gx` and `gy`, where
/// `direction` is what trigonometry derives from the circular mean of its
/// strong gradients: the flat axis where fewer than `MIN_STRONG_PIXELS`
/// gradients are strong, else the axis of `direction`, if that lies at half
/// the angle of the mean.
pub open spec fn dominant_axis(gx: Seq<i32>, gy: Seq<i32>, direction: Direction) -> Option<
    DominantAxis,
> {
    spec_resolve_axis(spec_circular_mean(gx, gy), direction)
}

/// Extracts the gradient of a smoothed image from the image, its derivative
/// field, and the direction at half the angle of `circular_mean(field)`,
/// which is looked at only where there is such a mean.
///
/// A derivative field of another size than the image is rejected with
/// `InvalidInput`, a direction that does not lie at half the angle of the
/// mean with `PrimitiveFailure(Stage::Direction)`.
pub fn extract_gradient_hex(
    blurred: &Image,
    field: &GradientField,
    direction: Direction,
) -> (r: Result<GradientResult, GradientError>)
    ensures
        field.size() != blurred.size() ==> r is Err && r->Err_0 == GradientError::InvalidInput,
        field.size() == blurred.size() && dominant_axis(field.gx(), field.gy(), direction)
            is None ==> r is Err && r->Err_0 == GradientError::PrimitiveFailure(Stage::Direction),
        field.size() == blurred.size() && dominant_axis(field.gx(), field.gy(), direction)
            is Some ==> r is Ok && r->Ok_0@ == gradient_of(
            blurred,
            dominant_axis(field.gx(), field.gy(), direction)->Some_0,
        ),
        r is Ok ==> r->Ok_0@.is_valid(),
{
    let a = blurred.size();
    let b = field.size();
    if a.width != b.width || a.height != b.height {
        return Err(GradientError::InvalidInput);
    }
    let axis = match resolve_axis(circular_mean(field), direction) {
        Ok(axis) => axis,
        Err(e) => {
            return Err(e);
        },
    };
    Ok(gradient_along(blurred, &axis))
}

/// Every gradient has two well-formed colours and an angle within a full
/// turn.
pub proof fn lemma_gradient_is_valid(image: &Image, axis: DominantAxis)
    requires
        axis.wf(),
    ensures
        gradient_of(image, axis).is_valid(),
{
    lemma_hex_color_shape(start_color(image, axis));
    lemma_hex_color_shape(end_color(image, axis));
}

/// The gradient depends on nothing but the size and bytes of the image, the
/// derivatives and the direction: where these agree, the results agree.
pub proof fn lemma_gradient_is_deterministic(
    a: &Image,
    b: &Image,
    f: &GradientField,
    g: &GradientField,
    direction: Direction,
)
    requires
        a.size() == b.size(),
        a.bytes() == b.bytes(),
        f.gx() == g.gx(),
        f.gy() == g.gy(),
    ensures
        a@ == b@,
        spec_circular_mean(f.gx(), f.gy()) == spec_circular_mean(g.gx(), g.gy()),
        dominant_axis(f.gx(), f.gy(), direction) == dominant_axis(g.gx(), g.gy(), direction),
        forall|axis: DominantAxis| gradient_of(a, axis) == gradient_of(b, axis),
{
    assert(a@ =~= b@);
}

/// An image of one colour has that colour at both ends, whatever the axis.
pub proof fn lemma_uniform_image_gradient(image: &Image, axis: DominantAxis, color: Color)
    requires
        image.wf(),
        forall|i: int| 0 <= i < image@.len() ==> image@[i] == color,
    ensures
        start_color(image, axis) == color,
        end_color(image, axis) == color,
        gradient_of(image, axis).start_color == hex_color(color),
        gradient_of(image, axis).end_color == gradient_of(image, axis).start_color,
{
    let field = projected(image.size(), axis);
    assert(field.len() > 0) by (nonlinear_arith)
        requires
            field.len() == image.size().width as nat * image.size().height as nat,
            image.size().width > 0,
            image.size().height > 0,
    ;
    lemma_bands_not_empty(field);
    lemma_mean_color_uniform(image@, start_band(field), color);
    lemma_mean_color_uniform(image@, end_band(field), color);
}

/// A smoothed image of one colour whose derivatives all vanish has the flat
/// axis, shown as a quarter turn, and its one colour at both ends, whatever
/// direction is handed over.
pub proof fn lemma_flat_image_gradient(
    image: &Image,
    gx: Seq<i32>,
    gy: Seq<i32>,
    direction: Direction,
    color: Color,
)
    requires
        image.wf(),
        forall|i: int| 0 <= i < image@.len() ==> image@[i] == color,
        forall|i: int| 0 <= i < gx.len() ==> gx[i] == 0 && gy[i] == 0,
    ensures
        spec_circular_mean(gx, gy) is None,
        dominant_axis(gx, gy, direction) == Some(DominantAxis::flat()),
        DominantAxis::flat().is_flat(),
        gradient_of(image, DominantAxis::flat()) == (GradientModel {
            start_color: hex_color(color),
            end_color: hex_color(color),
            angle: QUARTER_TURN,
        }),
{
    lemma_no_gradient_no_strong_pixel(gx, gy);
    DominantAxis::lemma_flat_axis();
    lemma_uniform_image_gradient(image, DominantAxis::flat(), color);
}

/// A band that selects no pixel is reported as `#000000`.
pub proof fn lemma_empty_band_is_black(pixels: Seq<Color>, mask: Seq<bool>)
    requires
        count_set(mask, mask.len()) == 0,
    ensures
        mean_color(pixels, mask) == black(),
        hex_color(mean_color(pixels, mask)) == "#000000"@,
{
    reveal_strlit("#000000");
    assert(hex_color(black()) =~= "#000000"@);
}

} // verus!
