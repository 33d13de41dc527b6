//! The simulation of a mode on single colours and on whole images.

use crate::buffer::alpha_at;
use crate::buffer::buffer_len;
use crate::buffer::coord;
use crate::buffer::lemma_pixel_in_image;
use crate::buffer::pixel_at;
use crate::buffer::window;
use crate::mode::DeficiencyModel;
use crate::mode::Mode;
use crate::pixel::achromatic;
use crate::pixel::process_clr_achroma;
use crate::pixel::Pixel;
use vstd::prelude::*;

verus! {

/// Whether `after` is what the mode makes of the colour `before`.
///
/// Normal vision keeps the colour and achromatic vision reduces it to its
/// luma. For the dichromat modes, `after` is what `project` returned for the
/// parameters of the mode's family, the mode's blending flag and `before`.
pub open spec fn simulates<F: Fn(DeficiencyModel, bool, Pixel) -> Pixel>(
    mode: Mode,
    project: F,
    before: Pixel,
    after: Pixel,
) -> bool {
    match mode.spec_family() {
        Some(family) => project.ensures(
            (family.spec_model(), mode.spec_is_anomalous(), before),
            after,
        ),
        None => if mode.spec_is_achromatic() {
            after == achromatic(before, mode.spec_is_anomalous())
        } else {
            after == before
        },
    }
}

/// Whether `project` accepts every colour under the mode. Only the dichromat
/// modes call it.
pub open spec fn accepts<F: Fn(DeficiencyModel, bool, Pixel) -> Pixel>(
    mode: Mode,
    project: F,
) -> bool {
    mode.spec_family() matches Some(family) ==> forall|p: Pixel|
        project.requires((family.spec_model(), mode.spec_is_anomalous(), p))
}

/// Whether the buffer `after` is the buffer `before` as the mode sees it:
/// every pixel's colour is simulated from that pixel's own colour, and every
/// pixel is fully opaque.
pub open spec fn processed<F: Fn(DeficiencyModel, bool, Pixel) -> Pixel>(
    mode: Mode,
    project: F,
    before: Seq<u8>,
    after: Seq<u8>,
) -> bool {
    &&& after.len() == before.len()
    &&& forall|k: int|
        0 <= k && 4 * k + 4 <= before.len() ==> {
            &&& simulates(mode, project, pixel_at(before, k), #[trigger] pixel_at(after, k))
            &&& alpha_at(after, k) == 255
        }
}

/// Simulates one colour under the mode.
pub fn process_pixel<F: Fn(DeficiencyModel, bool, Pixel) -> Pixel>(
    mode: Mode,
    project: &F,
    p: Pixel,
) -> (q: Pixel)
    requires
        accepts(mode, *project),
    ensures
        simulates(mode, *project, p, q),
{
    match mode.family() {
        Some(family) => project(family.model(), mode.is_anomalous(), p),
        None => {
            let mut q = p;
            if mode.is_achromatic() {
                process_clr_achroma(&mut q, mode.is_anomalous());
            }
            q
        },
    }
}

/// Rewrites an image in place as the mode sees it.
///
/// The buffer holds `width * height` pixels of four bytes each: red, green,
/// blue and opacity. Every pixel's colour is replaced by its simulation and
/// its opacity is set to 255. The dichromat modes get the simulated colour
/// from `project`, called once per pixel with the parameters of the mode's
/// family, the mode's blending flag and the pixel's colour.
///
/// No pixel's result depends on its place or on another pixel: the four
/// bytes of each pixel, before and after, are related as an image of that
/// pixel alone is to its processed image.
pub fn process<F: Fn(DeficiencyModel, bool, Pixel) -> Pixel>(
    buf: &mut [u8],
    width: usize,
    height: usize,
    mode: Mode,
    project: F,
)
    requires
        old(buf)@.len() == width * height * 4,
        accepts(mode, project),
    ensures
        processed(mode, project, old(buf)@, final(buf)@),
        forall|k: int| 0 <= k < width * height ==> #[trigger] alpha_at(final(buf)@, k) == 255,
        mode == Mode::Normal ==> forall|k: int|
            0 <= k < width * height ==> #[trigger] pixel_at(final(buf)@, k) == pixel_at(
                old(buf)@,
                k,
            ),
        mode.spec_is_achromatic() ==> forall|k: int|
            0 <= k < width * height ==> #[trigger] pixel_at(final(buf)@, k) == achromatic(
                pixel_at(old(buf)@, k),
                mode.spec_is_anomalous(),
            ),
        forall|k: int|
            0 <= k < width * height ==> processed(
                mode,
                project,
                window(old(buf)@, k),
                #[trigger] window(final(buf)@, k),
            ),
{
    let ghost before = buf@;
    let ghost mut done: int = 0;
    let mut y: usize = 0;
    proof {
        assert(buf@.len() == buf.len());
        assert(width * 0 == 0) by (nonlinear_arith);
    }
    while y < height
        invariant
            y <= height,
            done == width * y,
            before.len() == width * height * 4,
            buf@.len() == before.len(),
            before.len() <= usize::MAX,
            accepts(mode, project),
            forall|k: int|
                0 <= k < done ==> {
                    &&& simulates(mode, project, pixel_at(before, k), #[trigger] pixel_at(buf@, k))
                    &&& alpha_at(buf@, k) == 255
                },
            forall|j: int| 4 * done <= j < before.len() ==> buf@[j] == before[j],
        decreases height - y,
    {
        let mut x: usize = 0;
        while x < width
            invariant
                y < height,
                x <= width,
                done == width * y + x,
                before.len() == width * height * 4,
                buf@.len() == before.len(),
                before.len() <= usize::MAX,
                accepts(mode, project),
                forall|k: int|
                    0 <= k < done ==> {
                        &&& simulates(
                            mode,
                            project,
                            pixel_at(before, k),
                            #[trigger] pixel_at(buf@, k),
                        )
                        &&& alpha_at(buf@, k) == 255
                    },
                forall|j: int| 4 * done <= j < before.len() ==> buf@[j] == before[j],
            decreases width - x,
        {
            proof {
                lemma_pixel_in_image(x as int, y as int, width as int, height as int);
            }
            let i: usize = coord(x, y, width);
            let p = Pixel::new(buf[i], buf[i + 1], buf[i + 2]);
            let q = process_pixel(mode, &project, p);
            let ghost earlier = buf@;
            buf[i] = q.r;
            buf[i + 1] = q.g;
            buf[i + 2] = q.b;
            buf[i + 3] = 255;
            proof {
                assert(pixel_at(before, done) == p);
                assert(pixel_at(buf@, done) == q);
                assert forall|k: int| 0 <= k < done implies {
                    &&& simulates(mode, project, pixel_at(before, k), #[trigger] pixel_at(buf@, k))
                    &&& alpha_at(buf@, k) == 255
                } by {
                    assert(pixel_at(buf@, k) == pixel_at(earlier, k));
                    assert(alpha_at(buf@, k) == alpha_at(earlier, k));
                }
                done = done + 1;
            }
            x = x + 1;
        }
        proof {
            assert(width * y + width == width * (y + 1)) by (nonlinear_arith);
        }
        y = y + 1;
    }
    proof {
        assert(width * height * 4 == 4 * (width * height)) by (nonlinear_arith);
        assert forall|k: int| 0 <= k < width * height implies #[trigger] alpha_at(buf@, k)
            == 255 by {
            assert(simulates(mode, project, pixel_at(before, k), pixel_at(buf@, k)));
        }
        assert forall|k: int| 0 <= k < width * height implies processed(
            mode,
            project,
            window(before, k),
            #[trigger] window(buf@, k),
        ) by {
            lemma_pixel_alone(mode, project, before, buf@, k);
        }
    }
}

/// The buffer does not hold `width * height` pixels of four bytes each.
#[derive(Clone, Copy, PartialEq, Eq, Structural, Debug)]
pub struct WrongSize;

/// Rewrites an image in place as `process` does, after making sure that the
/// buffer has the size of the image. A buffer of another size is left as it
/// is and reported.
pub fn try_process<F: Fn(DeficiencyModel, bool, Pixel) -> Pixel>(
    buf: &mut [u8],
    width: usize,
    height: usize,
    mode: Mode,
    project: F,
) -> (done: Result<(), WrongSize>)
    requires
        accepts(mode, project),
    ensures
        done is Ok <==> old(buf)@.len() == width * height * 4,
        done is Ok ==> processed(mode, project, old(buf)@, final(buf)@),
        done is Err ==> final(buf)@ == old(buf)@,
{
    match buffer_len(width, height) {
        Some(len) => {
            if buf.len() == len {
                process(buf, width, height, mode, project);
                Ok(())
            } else {
                Err(WrongSize)
            }
        },
        None => {
            proof {
                assert(buf@.len() == buf.len());
            }
            Err(WrongSize)
        },
    }
}

/// Whether `project` is a function under the mode: for each colour it has at
/// most one result.
pub open spec fn is_function<F: Fn(DeficiencyModel, bool, Pixel) -> Pixel>(
    mode: Mode,
    project: F,
) -> bool {
    mode.spec_family() matches Some(family) ==> forall|p: Pixel, q1: Pixel, q2: Pixel|
        {
            &&& #[trigger] project.ensures((family.spec_model(), mode.spec_is_anomalous(), p), q1)
            &&& #[trigger] project.ensures((family.spec_model(), mode.spec_is_anomalous(), p), q2)
        } ==> q1 == q2
}

/// A processed image has every byte decided by the image it was made from,
/// as far as `project` is a function: two results of processing one image of
/// whole pixels are the same image.
pub proof fn lemma_processed_unique<F: Fn(DeficiencyModel, bool, Pixel) -> Pixel>(
    mode: Mode,
    project: F,
    before: Seq<u8>,
    first: Seq<u8>,
    second: Seq<u8>,
)
    requires
        before.len() % 4 == 0,
        is_function(mode, project),
        processed(mode, project, before, first),
        processed(mode, project, before, second),
    ensures
        first == second,
{
    assert forall|j: int| 0 <= j < first.len() implies first[j] == second[j] by {
        let k = j / 4;
        assert(simulates(mode, project, pixel_at(before, k), pixel_at(first, k)));
        assert(simulates(mode, project, pixel_at(before, k), pixel_at(second, k)));
        assert(pixel_at(first, k) == pixel_at(second, k));
        assert(alpha_at(first, k) == alpha_at(second, k));
    }
    assert(first =~= second);
}

/// Within a processed image, each pixel is processed as an image of that
/// pixel alone: its four bytes before and after are related as the whole
/// images are.
pub proof fn lemma_pixel_alone<F: Fn(DeficiencyModel, bool, Pixel) -> Pixel>(
    mode: Mode,
    project: F,
    before: Seq<u8>,
    after: Seq<u8>,
    k: int,
)
    requires
        processed(mode, project, before, after),
        0 <= k,
        4 * k + 4 <= before.len(),
    ensures
        window(before, k).len() == 4,
        processed(mode, project, window(before, k), window(after, k)),
{
    let b = window(before, k);
    let a = window(after, k);
    assert(simulates(mode, project, pixel_at(before, k), pixel_at(after, k)));
    assert(pixel_at(b, 0) == pixel_at(before, k));
    assert(pixel_at(a, 0) == pixel_at(after, k));
    assert(alpha_at(a, 0) == alpha_at(after, k));
}

/// No pixel's result depends on another pixel: processing an image gives
/// each pixel the very bytes that processing that pixel alone, as an image of
/// one pixel, gives it.
///
/// Under normal and achromatic vision this holds outright, since
/// `is_function` asks nothing there. Under a dichromat mode the bytes are
/// what `project` returns, so they are the same bytes as far as `project`
/// returns one colour for one colour; what holds of any `project` is
/// `lemma_pixel_alone`, which `process` also ensures.
pub proof fn lemma_pixels_independent<F: Fn(DeficiencyModel, bool, Pixel) -> Pixel>(
    mode: Mode,
    project: F,
    before: Seq<u8>,
    after: Seq<u8>,
    k: int,
    alone: Seq<u8>,
)
    requires
        is_function(mode, project),
        processed(mode, project, before, after),
        0 <= k,
        4 * k + 4 <= before.len(),
        processed(mode, project, window(before, k), alone),
    ensures
        alone == window(after, k),
{
    lemma_pixel_alone(mode, project, before, after, k);
    lemma_processed_unique(mode, project, window(before, k), alone, window(after, k));
}

/// Normal vision is idempotent: processing an image of whole pixels a second
/// time under it changes nothing.
pub proof fn lemma_normal_idempotent<F: Fn(DeficiencyModel, bool, Pixel) -> Pixel>(
    project: F,
    before: Seq<u8>,
    once: Seq<u8>,
    twice: Seq<u8>,
)
    requires
        before.len() % 4 == 0,
        processed(Mode::Normal, project, before, once),
        processed(Mode::Normal, project, once, twice),
    ensures
        twice == once,
{
    assert forall|j: int| 0 <= j < once.len() implies twice[j] == once[j] by {
        let k = j / 4;
        assert(simulates(Mode::Normal, project, pixel_at(before, k), pixel_at(once, k)));
        assert(simulates(Mode::Normal, project, pixel_at(once, k), pixel_at(twice, k)));
        assert(pixel_at(twice, k) == pixel_at(once, k));
        assert(alpha_at(twice, k) == alpha_at(once, k));
    }
    assert(twice =~= once);
}

} // verus!
