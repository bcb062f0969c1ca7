//! The packaged image/label loader: training and test splits arrive as flat
//! byte buffers, are concatenated training-first, and every pixel intensity is
//! mapped through a caller-supplied normalization into the element type the
//! rest of the pipeline carries.

use vstd::prelude::*;

use crate::array::{shape_product, LabelVector, RawArray};
use crate::error::PipelineError;

verus! {

/// Split sizes and per-sample geometry of a packaged image distribution.
#[derive(Debug, Clone, Copy, PartialEq, Eq, Structural)]
pub struct ImageSourceConfig {
    pub train_count: usize,
    pub test_count: usize,
    pub image_height: usize,
    pub image_width: usize,
}

/// The four buffers of a distribution agree with the configured split sizes:
/// one byte per pixel in each image buffer, one byte per sample in each label
/// buffer, a positive image geometry, and at least one sample over all.
pub open spec fn splits_consistent(
    config: ImageSourceConfig,
    train_images: Seq<u8>,
    train_labels: Seq<u8>,
    test_images: Seq<u8>,
    test_labels: Seq<u8>,
) -> bool {
    &&& config.image_height >= 1
    &&& config.image_width >= 1
    &&& config.train_count + config.test_count >= 1
    &&& config.train_count + config.test_count <= usize::MAX
    &&& train_images.len() == config.train_count * config.image_height * config.image_width
    &&& test_images.len() == config.test_count * config.image_height * config.image_width
    &&& train_labels.len() == config.train_count
    &&& test_labels.len() == config.test_count
}

/// Maps every pixel intensity through `normalize`, keeping order and length.
pub fn normalize_pixels<T, F: Fn(u8) -> T>(pixels: &Vec<u8>, normalize: F) -> (r: Vec<T>)
    requires
        forall|b: u8| #[trigger] call_requires(normalize, (b,)),
    ensures
        r@.len() == pixels@.len(),
        forall|i: int|
            0 <= i < pixels@.len() ==> call_ensures(normalize, (pixels@[i],), #[trigger] r@[i]),
{
    let mut out: Vec<T> = Vec::new();
    let mut i: usize = 0;
    while i < pixels.len()
        invariant
            forall|b: u8| #[trigger] call_requires(normalize, (b,)),
            0 <= i <= pixels@.len(),
            out@.len() == i,
            forall|k: int|
                0 <= k < i ==> call_ensures(normalize, (pixels@[k],), #[trigger] out@[k]),
        decreases pixels@.len() - i,
    {
        out.push(normalize(pixels[i]));
        i += 1;
    }
    out
}

/// Checks one split's buffer length: true exactly when `len == count * height
/// * width`.
fn split_len_matches(len: usize, count: usize, height: usize, width: usize) -> (r: bool)
    requires
        height >= 1,
        width >= 1,
    ensures
        r == (len == count * height * width),
{
    match count.checked_mul(height) {
        Some(ch) => match ch.checked_mul(width) {
            Some(chw) => len == chw,
            None => {
                proof {
                    assert(count * height * width >= count * height) by (nonlinear_arith)
                        requires
                            width >= 1,
                            count * height >= 0,
                    ;
                }
                false
            },
        },
        None => {
            proof {
                assert(count * height * width >= count * height) by (nonlinear_arith)
                    requires
                        width >= 1,
                        count * height >= 0,
                ;
            }
            false
        },
    }
}

/// Concatenates the training and test splits, training samples first, checks
/// every declared count against its buffer, and normalizes pixel intensities
/// through `normalize` into the pipeline's element type.
///
/// Succeeds exactly when the buffers agree with the configuration; the result
/// is the full image array of shape `(train_count + test_count, image_height,
/// image_width)` whose element `k` is the normalization of concatenated pixel
/// `k`, and the label vector holding the training labels followed by the test
/// labels, widened to integers. Any disagreement signals a shape mismatch.
pub fn load_image_dataset<T, F: Fn(u8) -> T>(
    config: &ImageSourceConfig,
    train_images: Vec<u8>,
    train_labels: Vec<u8>,
    test_images: Vec<u8>,
    test_labels: Vec<u8>,
    normalize: F,
) -> (r: Result<(RawArray<T>, LabelVector), PipelineError>)
    requires
        forall|b: u8| #[trigger] call_requires(normalize, (b,)),
    ensures
        match r {
            Ok((images, labels)) => {
                &&& splits_consistent(*config, train_images@, train_labels@, test_images@,
                test_labels@)
                &&& images.wf()
                &&& images.shape@ == seq![
                    (config.train_count + config.test_count) as usize,
                    config.image_height,
                    config.image_width,
                ]
                &&& images.data@.len() == train_images@.len() + test_images@.len()
                &&& forall|i: int|
                    0 <= i < train_images@.len() ==> call_ensures(
                        normalize,
                        (train_images@[i],),
                        #[trigger] images.data@[i],
                    )
                &&& forall|i: int|
                    0 <= i < test_images@.len() ==> call_ensures(
                        normalize,
                        (test_images@[i],),
                        #[trigger] images.data@[train_images@.len() + i],
                    )
                &&& labels.values@.len() == config.train_count + config.test_count
                &&& forall|i: int|
                    0 <= i < config.train_count ==> #[trigger] labels.values@[i]
                        == train_labels@[i] as i32
                &&& forall|i: int|
                    0 <= i < config.test_count ==> #[trigger] labels.values@[config.train_count
                        + i] == test_labels@[i] as i32
            },
            Err(e) => {
                &&& !splits_consistent(*config, train_images@, train_labels@, test_images@,
                test_labels@)
                &&& e matches PipelineError::ShapeMismatchError { .. }
            },
        },
{
    if config.image_height == 0 || config.image_width == 0 {
        return Err(PipelineError::ShapeMismatchError { expected: 1, found: 0 });
    }
    let total = match config.train_count.checked_add(config.test_count) {
        Some(t) => t,
        None => {
            return Err(PipelineError::ShapeMismatchError {
                expected: config.train_count,
                found: config.test_count,
            });
        },
    };
    if total == 0 {
        return Err(PipelineError::ShapeMismatchError { expected: 1, found: 0 });
    }
    if !split_len_matches(
        train_images.len(),
        config.train_count,
        config.image_height,
        config.image_width,
    ) {
        return Err(PipelineError::ShapeMismatchError {
            expected: config.train_count,
            found: train_images.len(),
        });
    }
    if !split_len_matches(
        test_images.len(),
        config.test_count,
        config.image_height,
        config.image_width,
    ) {
        return Err(PipelineError::ShapeMismatchError {
            expected: config.test_count,
            found: test_images.len(),
        });
    }
    if train_labels.len() != config.train_count {
        return Err(PipelineError::ShapeMismatchError {
            expected: config.train_count,
            found: train_labels.len(),
        });
    }
    if test_labels.len() != config.test_count {
        return Err(PipelineError::ShapeMismatchError {
            expected: config.test_count,
            found: test_labels.len(),
        });
    }
    let mut all_pixels = train_images;
    let mut test_pixels = test_images;
    all_pixels.append(&mut test_pixels);
    let data = normalize_pixels(&all_pixels, normalize);

    let mut values: Vec<i32> = Vec::new();
    let mut i: usize = 0;
    while i < train_labels.len()
        invariant
            0 <= i <= train_labels@.len(),
            values@.len() == i,
            forall|k: int| 0 <= k < i ==> #[trigger] values@[k] == train_labels@[k] as i32,
        decreases train_labels@.len() - i,
    {
        values.push(train_labels[i] as i32);
        i += 1;
    }
    let train_n = train_labels.len();
    let mut j: usize = 0;
    while j < test_labels.len()
        invariant
            train_n == train_labels@.len(),
            0 <= j <= test_labels@.len(),
            values@.len() == train_n + j,
            forall|k: int| 0 <= k < train_n ==> #[trigger] values@[k] == train_labels@[k] as i32,
            forall|k: int|
                0 <= k < j ==> #[trigger] values@[train_n + k] == test_labels@[k] as i32,
        decreases test_labels@.len() - j,
    {
        values.push(test_labels[j] as i32);
        j += 1;
    }

    let mut shape: Vec<usize> = Vec::new();
    shape.push(total);
    shape.push(config.image_height);
    shape.push(config.image_width);
    proof {
        let t = config.train_count as int;
        let s = config.test_count as int;
        let h = config.image_height as int;
        let w = config.image_width as int;
        assert(t * h * w + s * h * w == (t + s) * h * w) by (nonlinear_arith);
        assert(shape@ =~= seq![total, config.image_height, config.image_width]);
        let sh = shape@;
        let d2 = seq![config.image_height, config.image_width];
        let d1 = seq![config.image_width];
        assert(sh.subrange(1, 3) =~= d2);
        assert(d2.subrange(1, 2) =~= d1);
        assert(d1.subrange(1, 1) =~= Seq::<usize>::empty());
        assert(shape_product(Seq::<usize>::empty()) == 1);
        assert(d1[0] == config.image_width && d1.len() == 1);
        assert(shape_product(d1) == d1[0] * shape_product(d1.subrange(1, 1)));
        assert(shape_product(d1) == w * 1);
        assert(shape_product(d2) == h * shape_product(d1));
        assert(shape_product(sh) == (t + s) * shape_product(d2));
        assert((t + s) * (h * (w * 1)) == (t + s) * h * w) by (nonlinear_arith);
    }
    Ok((RawArray { shape, data }, LabelVector { values }))
}

} // verus!
