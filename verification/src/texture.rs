//! CPU-side texture preparation: validation of raw RGBA buffers, decoding of
//! encoded image bytes (through the `image` crate), and the processor chain
//! that rewrites pixels in place before the GPU upload. The GPU upload
//! itself, sampler and bind-group construction are the embedding
//! application's edge.

use vstd::prelude::*;

verus! {

/// A pure pixel mutation applied to a texture's RGBA buffer before upload.
/// The embedding application may supply its own implementations; the worker
/// applies them in order with exclusive access to the buffer.
pub trait TextureProcessor: Sized {
    /// The mathematical effect of the processor on a pixel buffer.
    spec fn spec_process(&self, rgba: Seq<u8>) -> Seq<u8>;

    /// A processor rewrites pixels; it never changes the buffer's size.
    proof fn spec_process_preserves_len(&self, rgba: Seq<u8>)
        ensures
            self.spec_process(rgba).len() == rgba.len(),
        ;

    /// Rewrite the buffer in place according to `spec_process`.
    fn process_texture(&self, rgba: &mut Vec<u8>)
        ensures
            final(rgba)@ == self.spec_process(old(rgba)@),
        ;
}

/// Chroma key to alpha: every fully opaque pixel whose RGB channels equal
/// the key color becomes fully transparent black.
pub struct MakeTransparent(pub u8, pub u8, pub u8);

impl MakeTransparent {
    /// Whether the 4-byte pixel group starting at `base` matches the key
    /// color at full opacity.
    pub open spec fn spec_matches(&self, rgba: Seq<u8>, base: int) -> bool {
        &&& 0 <= base
        &&& base + 4 <= rgba.len()
        &&& rgba[base] == self.0
        &&& rgba[base + 1] == self.1
        &&& rgba[base + 2] == self.2
        &&& rgba[base + 3] == 255
    }
}

impl TextureProcessor for MakeTransparent {
    open spec fn spec_process(&self, rgba: Seq<u8>) -> Seq<u8> {
        Seq::new(
            rgba.len(),
            |i: int|
                if self.spec_matches(rgba, 4 * (i / 4)) {
                    0u8
                } else {
                    rgba[i]
                },
        )
    }

    proof fn spec_process_preserves_len(&self, rgba: Seq<u8>) {
    }

    fn process_texture(&self, rgba: &mut Vec<u8>) {
        let groups = rgba.len() / 4;
        let n = rgba.len();
        let mut gi: usize = 0;
        while gi < groups
            invariant
                groups == n / 4,
                n == rgba@.len(),
                old(rgba)@.len() == n,
                gi <= groups,
                forall|j: int|
                    4 * gi <= j < n ==> rgba@[j] == old(rgba)@[j],
                forall|j: int|
                    0 <= j < 4 * gi ==> rgba@[j] == self.spec_process(old(rgba)@)[j],
            decreases groups - gi,
        {
            let base = 4 * gi;
            proof {
                assert(rgba@[base as int] == old(rgba)@[base as int]);
                assert(rgba@[base as int + 1] == old(rgba)@[base as int + 1]);
                assert(rgba@[base as int + 2] == old(rgba)@[base as int + 2]);
                assert(rgba@[base as int + 3] == old(rgba)@[base as int + 3]);
            }
            if rgba[base] == self.0 && rgba[base + 1] == self.1 && rgba[base + 2] == self.2
                && rgba[base + 3] == 255 {
                proof {
                    assert(self.spec_matches(old(rgba)@, 4 * (gi as int)));
                }
                rgba.set(base, 0);
                rgba.set(base + 1, 0);
                rgba.set(base + 2, 0);
                rgba.set(base + 3, 0);
            } else {
                proof {
                    assert(!self.spec_matches(old(rgba)@, 4 * (gi as int)));
                }
            }
            gi += 1;
        }
        proof {
            assert forall|j: int|
                4 * (groups as int) <= j < n implies rgba@[j] == self.spec_process(
                old(rgba)@,
            )[j] by {
                assert(4 * (j / 4) + 4 > n);
                assert(!self.spec_matches(old(rgba)@, 4 * (j / 4)));
            }
            assert(rgba@ =~= self.spec_process(old(rgba)@));
        }
    }
}

/// The buffer after applying each processor of `procs` in order.
pub open spec fn chain_process<P: TextureProcessor>(procs: Seq<P>, rgba: Seq<u8>) -> Seq<u8>
    decreases procs.len(),
{
    if procs.len() == 0 {
        rgba
    } else {
        procs.last().spec_process(chain_process(procs.drop_last(), rgba))
    }
}

/// A processor chain never changes the buffer's size.
pub proof fn lemma_chain_process_len<P: TextureProcessor>(procs: Seq<P>, rgba: Seq<u8>)
    ensures
        chain_process(procs, rgba).len() == rgba.len(),
    decreases procs.len(),
{
    if procs.len() > 0 {
        lemma_chain_process_len(procs.drop_last(), rgba);
        procs.last().spec_process_preserves_len(chain_process(procs.drop_last(), rgba));
    }
}

/// Apply each processor in order, in place.
fn apply_processors<P: TextureProcessor>(rgba: &mut Vec<u8>, procs: &Vec<P>)
    ensures
        final(rgba)@ == chain_process(procs@, old(rgba)@),
{
    let n = procs.len();
    let mut k: usize = 0;
    while k < n
        invariant
            n == procs@.len(),
            k <= n,
            rgba@ == chain_process(procs@.subrange(0, k as int), old(rgba)@),
        decreases n - k,
    {
        procs[k].process_texture(rgba);
        k += 1;
        proof {
            let sub = procs@.subrange(0, k as int);
            assert(sub.drop_last() =~= procs@.subrange(0, k - 1));
            assert(sub.last() == procs@[k - 1]);
        }
    }
    proof {
        assert(procs@.subrange(0, n as int) =~= procs@);
    }
}

/// A decoded and processed image, ready for the GPU upload: raw RGBA pixels
/// and the texture extent they fill.
pub struct PreparedImage {
    pub pixels: Vec<u8>,
    pub width: u32,
    pub height: u32,
}

impl PreparedImage {
    /// The buffer holds exactly `width * height` four-byte pixels.
    pub open spec fn wf(&self) -> bool {
        self.pixels@.len() == self.width * self.height * 4
    }
}

/// Texture preparation failure: the byte stream could not be decoded as an
/// image.
#[derive(PartialEq, Eq, Structural, Debug, Clone, Copy)]
pub enum TextureError {
    DecodeFailed,
}

/// What the image decoder yields for a byte stream: `Some` of the RGBA
/// buffer and extent for a well-formed image, `None` for undecodable bytes.
/// Decoding is a function of the bytes alone.
pub uninterp spec fn decoded_rgba(bytes: Seq<u8>) -> Option<(Seq<u8>, u32, u32)>;

/// Relies on image::load_from_memory, DynamicImage::to_rgba8 and
/// ImageBuffer::dimensions/into_raw: the decoded result depends on the
/// bytes alone, and a decoded RGBA buffer holds exactly
/// width * height * 4 bytes.
#[verifier::external_body]
fn decode_rgba(bytes: &Vec<u8>) -> (out: Result<(Vec<u8>, u32, u32), TextureError>)
    ensures
        out is Ok <==> decoded_rgba(bytes@) is Some,
        out matches Ok(t) ==> decoded_rgba(bytes@) == Some((t.0@, t.1, t.2)) && t.0@.len()
            == t.1 * t.2 * 4,
{
    match image::load_from_memory(bytes.as_slice()) {
        Ok(img) => {
            let rgba = img.to_rgba8();
            let (width, height) = rgba.dimensions();
            Ok((rgba.into_raw(), width, height))
        },
        Err(_) => Err(TextureError::DecodeFailed),
    }
}

/// Validate a raw RGBA buffer against its extent and run the processor
/// chain over it. This is the whole CPU half of a texture load from raw
/// pixels; the caller uploads the result.
pub fn prepare_from_rgba<P: TextureProcessor>(
    rgba: Vec<u8>,
    width: u32,
    height: u32,
    processors: &Vec<P>,
) -> (img: PreparedImage)
    requires
        rgba@.len() == width * height * 4,
    ensures
        img.wf(),
        img.width == width,
        img.height == height,
        img.pixels@ == chain_process(processors@, rgba@),
{
    let mut pixels = rgba;
    let ghost orig = pixels@;
    apply_processors(&mut pixels, processors);
    proof {
        lemma_chain_process_len(processors@, orig);
    }
    PreparedImage { pixels, width, height }
}

/// Decode encoded image bytes and run the processor chain over the decoded
/// RGBA buffer. This is the whole CPU half of a texture load from a file's
/// contents; the caller reads the file and uploads the result.
pub fn prepare_from_encoded<P: TextureProcessor>(
    bytes: &Vec<u8>,
    processors: &Vec<P>,
) -> (out: Result<PreparedImage, TextureError>)
    ensures
        out is Ok <==> decoded_rgba(bytes@) is Some,
        out matches Ok(img) ==> {
            let decoded = decoded_rgba(bytes@)->Some_0;
            &&& img.wf()
            &&& img.width == decoded.1
            &&& img.height == decoded.2
            &&& img.pixels@ == chain_process(processors@, decoded.0)
        },
        out is Err ==> out == Result::<PreparedImage, TextureError>::Err(
            TextureError::DecodeFailed,
        ),
{
    match decode_rgba(bytes) {
        Ok((rgba, width, height)) => {
            let img = prepare_from_rgba(rgba, width, height, processors);
            Ok(img)
        },
        Err(e) => Err(e),
    }
}

} // verus!
