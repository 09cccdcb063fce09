//! From a pixel to its colour: the pixel's point on the plane, the steps
//! after which the point escapes, and the colour of that number.
//!
//! The arithmetic on doubles is the caller's, handed over as a `Kernel`.
//! What is done with it is decided here: where an orbit starts, when the
//! iteration stops and what it counts, which count is painted black.

use vstd::prelude::*;
use crate::binary64::Complex;
use crate::mandelbrot_settings::MandelbrotSettings;
use crate::size::Size;

verus! {

/// The arithmetic that a rendering is built on, as four functions.
///
/// - `point` takes the frame's size, a column, a row and the settings, and
///   gives the point of the plane that the pixel shows.
/// - `step` takes `z` and `c` and gives `z * z + c`.
/// - `bounded` says of `z` whether it is no farther than 2 from the origin.
/// - `hue` takes a step count and the iteration cap, and gives red, green and
///   blue.
pub struct Kernel<P, S, B, H> {
    pub point: P,
    pub step: S,
    pub bounded: B,
    pub hue: H,
}

/// Whether the kernel can be asked all that a frame of `size` needs: `point`
/// for every pixel of the frame, `step` and `bounded` for every number, `hue`
/// for every count below the cap.
pub open spec fn kernel_fits<P, S, B, H>(
    size: &Size,
    mbs: &MandelbrotSettings,
    kernel: &Kernel<P, S, B, H>,
) -> bool where
    P: Fn(&Size, usize, usize, &MandelbrotSettings) -> Complex,
    S: Fn(Complex, Complex) -> Complex,
    B: Fn(Complex) -> bool,
    H: Fn(i32, i32) -> (u8, u8, u8),
 {
    &&& forall|x: usize, y: usize|
        x < size.width && y < size.height ==> #[trigger] kernel.point.requires((size, x, y, mbs))
    &&& forall|z: Complex, c: Complex| #[trigger] kernel.step.requires((z, c))
    &&& forall|z: Complex| #[trigger] kernel.bounded.requires((z,))
    &&& forall|iteration: i32|
        0 <= iteration < mbs@.max_iterations ==> #[trigger] kernel.hue.requires(
            (iteration, mbs@.max_iterations),
        )
}

/// Whether each function of the kernel gives one answer to one question.
pub open spec fn kernel_is_single_valued<P, S, B, H>(
    size: &Size,
    mbs: &MandelbrotSettings,
    kernel: &Kernel<P, S, B, H>,
) -> bool where
    P: Fn(&Size, usize, usize, &MandelbrotSettings) -> Complex,
    S: Fn(Complex, Complex) -> Complex,
    B: Fn(Complex) -> bool,
    H: Fn(i32, i32) -> (u8, u8, u8),
 {
    &&& forall|x: usize, y: usize, a: Complex, b: Complex|
        #[trigger] kernel.point.ensures((size, x, y, mbs), a) && #[trigger] kernel.point.ensures(
            (size, x, y, mbs),
            b,
        ) ==> a == b
    &&& forall|z: Complex, c: Complex, a: Complex, b: Complex|
        #[trigger] kernel.step.ensures((z, c), a) && #[trigger] kernel.step.ensures((z, c), b)
            ==> a == b
    &&& forall|z: Complex, a: bool, b: bool|
        #[trigger] kernel.bounded.ensures((z,), a) && #[trigger] kernel.bounded.ensures((z,), b)
            ==> a == b
    &&& forall|iteration: i32, a: (u8, u8, u8), b: (u8, u8, u8)|
        #[trigger] kernel.hue.ensures((iteration, mbs@.max_iterations), a)
            && #[trigger] kernel.hue.ensures((iteration, mbs@.max_iterations), b) ==> a == b
}

/// Whether `orbit` is a stretch of the orbit of `c`: it begins at the origin,
/// each number but the last is within bounds, and `step` leads from each to
/// the next.
pub open spec fn is_orbit<S, B>(orbit: Seq<Complex>, c: Complex, step: &S, bounded: &B) -> bool
    where S: Fn(Complex, Complex) -> Complex, B: Fn(Complex) -> bool {
    &&& orbit.len() >= 1
    &&& orbit[0] == Complex::zero()
    &&& forall|n: int|
        0 <= n < orbit.len() - 1 ==> bounded.ensures((#[trigger] orbit[n],), true) && step.ensures(
            (orbit[n], c),
            orbit[n + 1],
        )
}

/// Whether `count` is the escape time of `c` under a cap of `max_iterations`:
/// the number of steps that lead from the origin to the first number out of
/// bounds, or the cap if so many steps lead to none.
pub open spec fn is_escape_time<S, B>(
    count: i32,
    c: Complex,
    max_iterations: i32,
    step: &S,
    bounded: &B,
) -> bool where S: Fn(Complex, Complex) -> Complex, B: Fn(Complex) -> bool {
    exists|orbit: Seq<Complex>|
        {
            &&& #[trigger] is_orbit(orbit, c, step, bounded)
            &&& orbit.len() == count + 1
            &&& 0 <= count <= max_iterations
            &&& count < max_iterations ==> bounded.ensures((orbit[count as int],), false)
        }
}

/// The colour kept for points that never escaped: black, opaque.
pub open spec fn black() -> Seq<u8> {
    seq![0u8, 0u8, 0u8, 255u8]
}

/// Red, green and blue as a pixel: followed by full opacity.
pub open spec fn opaque(rgb: (u8, u8, u8)) -> Seq<u8> {
    seq![rgb.0, rgb.1, rgb.2, 255u8]
}

/// Whether `colour` is a pixel for a point that took `iteration` steps under
/// a cap of `max_iterations`: black when it reached the cap, else what `hue`
/// makes of the two numbers, opaque.
pub open spec fn is_colour_of<H: Fn(i32, i32) -> (u8, u8, u8)>(
    colour: Seq<u8>,
    iteration: i32,
    max_iterations: i32,
    hue: &H,
) -> bool {
    if iteration == max_iterations {
        colour == black()
    } else {
        exists|rgb: (u8, u8, u8)| #[trigger]
            hue.ensures((iteration, max_iterations), rgb) && colour == opaque(rgb)
    }
}

/// Whether `colour` is a pixel for column `x` of row `y`: the colour of the
/// escape time of the pixel's point.
pub open spec fn is_colour_at<P, S, B, H>(
    colour: Seq<u8>,
    size: &Size,
    x: usize,
    y: usize,
    mbs: &MandelbrotSettings,
    kernel: &Kernel<P, S, B, H>,
) -> bool where
    P: Fn(&Size, usize, usize, &MandelbrotSettings) -> Complex,
    S: Fn(Complex, Complex) -> Complex,
    B: Fn(Complex) -> bool,
    H: Fn(i32, i32) -> (u8, u8, u8),
 {
    exists|c: Complex, count: i32|
        {
            &&& #[trigger] kernel.point.ensures((size, x, y, mbs), c)
            &&& #[trigger] is_escape_time(
                count,
                c,
                mbs@.max_iterations,
                &kernel.step,
                &kernel.bounded,
            )
            &&& is_colour_of(colour, count, mbs@.max_iterations, &kernel.hue)
        }
}

/// The escape time of `c`: iterates `z = step(z, c)` from the origin, and
/// counts the steps until `z` is out of bounds or the count is at the cap.
pub fn escape_time<S, B>(c: Complex, max_iterations: i32, step: &S, bounded: &B) -> (count: i32)
    where S: Fn(Complex, Complex) -> Complex, B: Fn(Complex) -> bool
    requires
        max_iterations >= 1,
        forall|z: Complex| #[trigger] step.requires((z, c)),
        forall|z: Complex| #[trigger] bounded.requires((z,)),
    ensures
        is_escape_time(count, c, max_iterations, step, bounded),
        0 <= count <= max_iterations,
{
    let mut z = Complex::origin();
    let mut iteration: i32 = 0;
    let ghost mut orbit: Seq<Complex> = seq![z];
    while iteration < max_iterations && bounded(z)
        invariant
            0 <= iteration <= max_iterations,
            forall|z: Complex| #[trigger] step.requires((z, c)),
            forall|z: Complex| #[trigger] bounded.requires((z,)),
            is_orbit(orbit, c, step, bounded),
            orbit.len() == iteration + 1,
            orbit[iteration as int] == z,
        ensures
            iteration < max_iterations ==> bounded.ensures((z,), false),
        decreases max_iterations - iteration,
    {
        let next = step(z, c);
        proof {
            let longer = orbit.push(next);
            assert forall|n: int| 0 <= n < longer.len() - 1 implies bounded.ensures(
                (#[trigger] longer[n],),
                true,
            ) && step.ensures((longer[n], c), longer[n + 1]) by {
                if n < orbit.len() - 1 {
                    assert(longer[n] == orbit[n]);
                }
            }
            orbit = longer;
        }
        z = next;
        iteration += 1;
    }
    assert(is_orbit(orbit, c, step, bounded));
    iteration
}

/// The pixel for a point that took `iteration` steps. A point that reached
/// the cap is black, and `hue` is not asked. For any other, `hue` gets the
/// step count and the cap, and gives red, green and blue.
pub fn get_non_set_colour<H>(iteration: i32, mbs: &MandelbrotSettings, hue: &H) -> (colour: [u8; 4])
    where H: Fn(i32, i32) -> (u8, u8, u8)
    requires
        iteration != mbs@.max_iterations ==> hue.requires((iteration, mbs@.max_iterations)),
    ensures
        is_colour_of(colour@, iteration, mbs@.max_iterations, hue),
        iteration == mbs@.max_iterations ==> colour@ == black(),
        colour@.len() == 4,
        colour@[3] == 255,
{
    let max_iterations = mbs.max_iterations();
    if iteration == max_iterations {
        let colour: [u8; 4] = [0, 0, 0, 255];
        assert(colour@ =~= black());
        colour
    } else {
        let rgb = hue(iteration, max_iterations);
        let colour: [u8; 4] = [rgb.0, rgb.1, rgb.2, 255];
        assert(colour@ =~= opaque(rgb));
        colour
    }
}

/// The pixel for column `x` of row `y` of a frame: the point of the pixel,
/// its escape time, and the colour of that.
pub fn get_colour_mandelbrot<P, S, B, H>(
    size: &Size,
    x: usize,
    y: usize,
    mbs: &MandelbrotSettings,
    kernel: &Kernel<P, S, B, H>,
) -> (colour: [u8; 4]) where
    P: Fn(&Size, usize, usize, &MandelbrotSettings) -> Complex,
    S: Fn(Complex, Complex) -> Complex,
    B: Fn(Complex) -> bool,
    H: Fn(i32, i32) -> (u8, u8, u8),

    requires
        x < size.width,
        y < size.height,
        kernel_fits(size, mbs, kernel),
    ensures
        is_colour_at(colour@, size, x, y, mbs, kernel),
        colour@.len() == 4,
        colour@[3] == 255,
{
    let c = (kernel.point)(size, x, y, mbs);
    let iteration = escape_time(c, mbs.max_iterations(), &kernel.step, &kernel.bounded);
    get_non_set_colour(iteration, mbs, &kernel.hue)
}

/// Two stretches of the orbit of one number agree as far as both reach.
proof fn lemma_orbits_agree<S, B>(
    first: Seq<Complex>,
    second: Seq<Complex>,
    c: Complex,
    step: &S,
    bounded: &B,
    n: int,
) where S: Fn(Complex, Complex) -> Complex, B: Fn(Complex) -> bool
    requires
        is_orbit(first, c, step, bounded),
        is_orbit(second, c, step, bounded),
        forall|z: Complex, c: Complex, a: Complex, b: Complex|
            #[trigger] step.ensures((z, c), a) && #[trigger] step.ensures((z, c), b) ==> a == b,
        0 <= n < first.len(),
        n < second.len(),
    ensures
        first[n] == second[n],
    decreases n,
{
    if n > 0 {
        lemma_orbits_agree(first, second, c, step, bounded, n - 1);
        assert(step.ensures((first[n - 1], c), first[n]));
        assert(step.ensures((second[n - 1], c), second[n]));
    }
}

/// A number has one escape time under a cap, where `step` and `bounded` give
/// one answer each.
pub proof fn lemma_escape_time_is_unique<S, B>(
    first: i32,
    second: i32,
    c: Complex,
    max_iterations: i32,
    step: &S,
    bounded: &B,
) where S: Fn(Complex, Complex) -> Complex, B: Fn(Complex) -> bool
    requires
        is_escape_time(first, c, max_iterations, step, bounded),
        is_escape_time(second, c, max_iterations, step, bounded),
        forall|z: Complex, c: Complex, a: Complex, b: Complex|
            #[trigger] step.ensures((z, c), a) && #[trigger] step.ensures((z, c), b) ==> a == b,
        forall|z: Complex, a: bool, b: bool|
            #[trigger] bounded.ensures((z,), a) && #[trigger] bounded.ensures((z,), b) ==> a == b,
    ensures
        first == second,
{
    let one = choose|orbit: Seq<Complex>|
        {
            &&& #[trigger] is_orbit(orbit, c, step, bounded)
            &&& orbit.len() == first + 1
            &&& 0 <= first <= max_iterations
            &&& first < max_iterations ==> bounded.ensures((orbit[first as int],), false)
        };
    let other = choose|orbit: Seq<Complex>|
        {
            &&& #[trigger] is_orbit(orbit, c, step, bounded)
            &&& orbit.len() == second + 1
            &&& 0 <= second <= max_iterations
            &&& second < max_iterations ==> bounded.ensures((orbit[second as int],), false)
        };
    if first < second {
        lemma_orbits_agree(one, other, c, step, bounded, first as int);
        assert(bounded.ensures((other[first as int],), true));
        assert(bounded.ensures((one[first as int],), false));
    }
    if second < first {
        lemma_orbits_agree(one, other, c, step, bounded, second as int);
        assert(bounded.ensures((one[second as int],), true));
        assert(bounded.ensures((other[second as int],), false));
    }
}

/// A pixel has one colour, where the kernel's functions give one answer each.
pub proof fn lemma_colour_is_unique<P, S, B, H>(
    first: Seq<u8>,
    second: Seq<u8>,
    size: &Size,
    x: usize,
    y: usize,
    mbs: &MandelbrotSettings,
    kernel: &Kernel<P, S, B, H>,
) where
    P: Fn(&Size, usize, usize, &MandelbrotSettings) -> Complex,
    S: Fn(Complex, Complex) -> Complex,
    B: Fn(Complex) -> bool,
    H: Fn(i32, i32) -> (u8, u8, u8),

    requires
        is_colour_at(first, size, x, y, mbs, kernel),
        is_colour_at(second, size, x, y, mbs, kernel),
        kernel_is_single_valued(size, mbs, kernel),
    ensures
        first == second,
{
    let max_iterations = mbs@.max_iterations;
    let (c1, count1) = choose|c: Complex, count: i32|
        {
            &&& #[trigger] kernel.point.ensures((size, x, y, mbs), c)
            &&& #[trigger] is_escape_time(count, c, max_iterations, &kernel.step, &kernel.bounded)
            &&& is_colour_of(first, count, max_iterations, &kernel.hue)
        };
    let (c2, count2) = choose|c: Complex, count: i32|
        {
            &&& #[trigger] kernel.point.ensures((size, x, y, mbs), c)
            &&& #[trigger] is_escape_time(count, c, max_iterations, &kernel.step, &kernel.bounded)
            &&& is_colour_of(second, count, max_iterations, &kernel.hue)
        };
    assert(c1 == c2);
    lemma_escape_time_is_unique(count1, count2, c1, max_iterations, &kernel.step, &kernel.bounded);
}

/// As long as `step` leaves the origin where it is, an orbit stays there.
proof fn lemma_orbit_rests<S, B>(orbit: Seq<Complex>, c: Complex, step: &S, bounded: &B, n: int)
    where S: Fn(Complex, Complex) -> Complex, B: Fn(Complex) -> bool
    requires
        is_orbit(orbit, c, step, bounded),
        forall|z: Complex| #[trigger] step.ensures((Complex::zero(), c), z) ==> z == Complex::zero(),
        0 <= n < orbit.len(),
    ensures
        orbit[n] == Complex::zero(),
    decreases n,
{
    if n > 0 {
        lemma_orbit_rests(orbit, c, step, bounded, n - 1);
        assert(step.ensures((orbit[n - 1], c), orbit[n]));
    }
}

/// A number that keeps the origin in place never escapes: where `step` leads
/// from the origin to the origin, and the origin is within bounds, the escape
/// time is the cap, whatever the cap. So it is for `c = 0`, as `0 * 0 + 0` is
/// 0.
pub proof fn lemma_resting_orbit_takes_the_cap<S, B>(
    count: i32,
    c: Complex,
    max_iterations: i32,
    step: &S,
    bounded: &B,
) where S: Fn(Complex, Complex) -> Complex, B: Fn(Complex) -> bool
    requires
        is_escape_time(count, c, max_iterations, step, bounded),
        forall|z: Complex| #[trigger] step.ensures((Complex::zero(), c), z) ==> z == Complex::zero(),
        forall|within: bool| #[trigger] bounded.ensures((Complex::zero(),), within) ==> within,
    ensures
        count == max_iterations,
{
    let orbit = choose|orbit: Seq<Complex>|
        {
            &&& #[trigger] is_orbit(orbit, c, step, bounded)
            &&& orbit.len() == count + 1
            &&& 0 <= count <= max_iterations
            &&& count < max_iterations ==> bounded.ensures((orbit[count as int],), false)
        };
    lemma_orbit_rests(orbit, c, step, bounded, count as int);
}

/// A number whose first step leads out of bounds escapes at once: where the
/// origin is within bounds and what `step` makes of it is not, the escape
/// time is 1. So it is for `c = 3`, as `0 * 0 + 3` is farther than 2 from the
/// origin.
pub proof fn lemma_far_point_escapes_at_once<S, B>(
    count: i32,
    c: Complex,
    max_iterations: i32,
    step: &S,
    bounded: &B,
) where S: Fn(Complex, Complex) -> Complex, B: Fn(Complex) -> bool
    requires
        is_escape_time(count, c, max_iterations, step, bounded),
        max_iterations >= 1,
        forall|within: bool| #[trigger] bounded.ensures((Complex::zero(),), within) ==> within,
        forall|z: Complex, within: bool|
            #[trigger] step.ensures((Complex::zero(), c), z) && #[trigger] bounded.ensures(
                (z,),
                within,
            ) ==> !within,
    ensures
        count == 1,
{
    let orbit = choose|orbit: Seq<Complex>|
        {
            &&& #[trigger] is_orbit(orbit, c, step, bounded)
            &&& orbit.len() == count + 1
            &&& 0 <= count <= max_iterations
            &&& count < max_iterations ==> bounded.ensures((orbit[count as int],), false)
        };
    if count >= 2 {
        assert(step.ensures((orbit[0], c), orbit[1]));
        assert(bounded.ensures((orbit[1],), true));
    }
}

/// An escape time lies between 0 and the cap, and is at least 1 where the
/// origin is within bounds.
pub proof fn lemma_escape_time_is_in_range<S, B>(
    count: i32,
    c: Complex,
    max_iterations: i32,
    step: &S,
    bounded: &B,
) where S: Fn(Complex, Complex) -> Complex, B: Fn(Complex) -> bool
    requires
        is_escape_time(count, c, max_iterations, step, bounded),
    ensures
        0 <= count <= max_iterations,
        max_iterations >= 1 && (forall|within: bool| #[trigger]
            bounded.ensures((Complex::zero(),), within) ==> within) ==> count >= 1,
{
}

/// A point that never escaped is black, under every cap and whatever `hue`
/// would say; every other pixel is opaque too.
pub proof fn lemma_cap_is_black<H: Fn(i32, i32) -> (u8, u8, u8)>(
    colour: Seq<u8>,
    iteration: i32,
    max_iterations: i32,
    hue: &H,
)
    requires
        is_colour_of(colour, iteration, max_iterations, hue),
    ensures
        iteration == max_iterations ==> colour == seq![0u8, 0u8, 0u8, 255u8],
        colour.len() == 4,
        colour[3] == 255,
{
}

} // verus!
