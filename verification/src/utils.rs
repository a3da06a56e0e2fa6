use image::ImageEncoder;
use vstd::prelude::*;

verus! {

/// Why an image cannot be cut into the six faces of a cube map.
#[derive(Debug, Clone, Copy, PartialEq, Eq, Structural)]
pub enum CubemapLayoutError {
    /// The image is not a 4 by 3 grid of whole cells.
    NotGrid { width: u32, height: u32 },
    /// The grid cells are not square.
    NotSquare { width: u32, height: u32, face_width: u32, face_height: u32 },
}

/// The side of the faces of a `width` by `height` cross image, or why it is
/// not one: it must be a 4 by 3 grid of square cells.
pub open spec fn face_size_of(width: u32, height: u32) -> Result<u32, CubemapLayoutError> {
    if width % 4 != 0 || height % 3 != 0 {
        Err(CubemapLayoutError::NotGrid { width, height })
    } else if height / 3 != width / 4 {
        Err(CubemapLayoutError::NotSquare { width, height, face_width: width / 4, face_height: height / 3 })
    } else {
        Ok(width / 4)
    }
}

/// The side length of the faces of a cube map laid out as a cross in a 4 by
/// 3 grid of square cells, or why the image does not have that layout.
pub fn cubemap_face_size(width: u32, height: u32) -> (r: Result<u32, CubemapLayoutError>)
    ensures
        r == face_size_of(width, height),
{
    if width % 4 != 0 || height % 3 != 0 {
        return Err(CubemapLayoutError::NotGrid { width, height });
    }
    let face_size = width / 4;
    if height / 3 != face_size {
        return Err(CubemapLayoutError::NotSquare { width, height, face_width: face_size, face_height: height / 3 });
    }
    Ok(face_size)
}

/// The faces of a cube map, named after the axis they face.
#[derive(Debug, Clone, Copy, PartialEq, Eq, Structural)]
pub enum CubeFace {
    /// +X
    Right,
    /// -X
    Left,
    /// +Y
    Top,
    /// -Y
    Bottom,
    /// +Z
    Front,
    /// -Z
    Back,
}

impl CubeFace {
    /// The name the face is saved under.
    pub fn name(&self) -> (s: &'static str)
        ensures
            s@ == self.spec_name(),
    {
        match self {
            CubeFace::Right => "right",
            CubeFace::Left => "left",
            CubeFace::Top => "top",
            CubeFace::Bottom => "bottom",
            CubeFace::Front => "front",
            CubeFace::Back => "back",
        }
    }

    pub open spec fn spec_name(self) -> Seq<char> {
        match self {
            CubeFace::Right => "right"@,
            CubeFace::Left => "left"@,
            CubeFace::Top => "top"@,
            CubeFace::Bottom => "bottom"@,
            CubeFace::Front => "front"@,
            CubeFace::Back => "back"@,
        }
    }

    /// Column and row of the face's cell in the cross layout
    /// ```text
    ///       +Y
    /// -X +Z +X -Z
    ///       -Y
    /// ```
    pub open spec fn grid_cell(self) -> (u32, u32) {
        match self {
            CubeFace::Right => (2, 1),
            CubeFace::Left => (0, 1),
            CubeFace::Top => (1, 0),
            CubeFace::Bottom => (1, 2),
            CubeFace::Front => (1, 1),
            CubeFace::Back => (3, 1),
        }
    }
}

/// One face of a cube map and the square of the image it is cut from.
#[derive(Debug, Clone, Copy, PartialEq, Eq, Structural)]
pub struct CubemapFace {
    pub face: CubeFace,
    pub x: u32,
    pub y: u32,
    pub size: u32,
}

/// The order in which faces are cut and saved.
pub open spec fn face_order() -> Seq<CubeFace> {
    seq![CubeFace::Right, CubeFace::Left, CubeFace::Top, CubeFace::Bottom, CubeFace::Front, CubeFace::Back]
}

/// The square of the image that `face` is cut from, for faces of side `size`.
pub open spec fn face_region(face: CubeFace, size: u32) -> CubemapFace {
    CubemapFace {
        face,
        x: (face.grid_cell().0 * size) as u32,
        y: (face.grid_cell().1 * size) as u32,
        size,
    }
}

/// The six faces of a cube map of faces of side `size`, each with the square
/// of the image it is cut from.
pub fn cubemap_faces(size: u32) -> (faces: Vec<CubemapFace>)
    requires
        size * 4 <= u32::MAX,
    ensures
        faces@ == face_order().map_values(|f: CubeFace| face_region(f, size)),
{
    let mut faces: Vec<CubemapFace> = Vec::new();
    faces.push(CubemapFace { face: CubeFace::Right, x: 2 * size, y: size, size });
    faces.push(CubemapFace { face: CubeFace::Left, x: 0, y: size, size });
    faces.push(CubemapFace { face: CubeFace::Top, x: size, y: 0, size });
    faces.push(CubemapFace { face: CubeFace::Bottom, x: size, y: 2 * size, size });
    faces.push(CubemapFace { face: CubeFace::Front, x: size, y: size, size });
    faces.push(CubemapFace { face: CubeFace::Back, x: 3 * size, y: size, size });
    proof {
        let expected = face_order().map_values(|f: CubeFace| face_region(f, size));
        let order = face_order();
        assert(order[0] == CubeFace::Right);
        assert(order[1] == CubeFace::Left);
        assert(order[2] == CubeFace::Top);
        assert(order[3] == CubeFace::Bottom);
        assert(order[4] == CubeFace::Front);
        assert(order[5] == CubeFace::Back);
        assert(0 * size == 0 && 1 * size == size) by (nonlinear_arith);
        assert(faces@ =~= expected);
    }
    faces
}

/// Every face cut from a valid cross layout lies inside the image.
pub proof fn lemma_faces_inside(width: u32, height: u32)
    requires
        width % 4 == 0,
        height % 3 == 0,
        height / 3 == width / 4,
    ensures
        ({
            let size = (width / 4) as u32;
            forall|f: CubeFace| {
                let r = #[trigger] face_region(f, size);
                r.x + r.size <= width && r.y + r.size <= height
            }
        }),
{
}

/// The `size` by `size` square at (`x`, `y`) of an RGBA image `width`
/// pixels wide, as RGBA pixels row by row: byte `c` of row `r` of the square
/// is byte `4 * x + c` of image row `y + r`.
pub open spec fn crop_of(pixels: Seq<u8>, width: u32, x: u32, y: u32, size: u32) -> Seq<u8> {
    Seq::new(
        (size * (size * 4)) as nat,
        |i: int| pixels[(y + i / (size * 4)) * width * 4 + x * 4 + i % (size * 4)],
    )
}

/// The PNG encoding of a `width` by `height` RGBA image, or `None` when
/// encoding fails.
pub uninterp spec fn spec_encode_png(pixels: Seq<u8>, width: u32, height: u32) -> Option<Seq<u8>>;

/// `image::load_from_memory` followed by `to_rgba8`: decodes an image of a
/// format recognised from its bytes and converts it to 8-bit RGBA, as width,
/// height and pixels row by row. Which image comes back is not stated: the
/// format detection and decoding of the image crate can be extended by
/// hooks that any code in the process registers. What holds of every
/// outcome is that an RGBA pixel buffer holds four bytes per pixel.
#[verifier::external_body]
fn decode_rgba(bytes: &[u8]) -> (r: Option<(u32, u32, Vec<u8>)>)
    ensures
        r matches Some((w, h, p)) ==> p@.len() == w * h * 4,
{
    match image::load_from_memory(bytes) {
        Ok(img) => {
            let rgba = img.to_rgba8();
            Some((rgba.width(), rgba.height(), rgba.into_raw()))
        },
        Err(_) => None,
    }
}

/// Where byte `i` of a crop comes from lies inside the image, and its parts
/// are in range.
proof fn lemma_crop_index(len: int, w: int, h: int, s: int, x: int, y: int, i: int)
    requires
        len == w * h * 4,
        1 <= s,
        0 <= x,
        0 <= y,
        x + s <= w,
        y + s <= h,
        0 <= i < s * (s * 4),
    ensures
        0 <= i / (s * 4) < s,
        0 <= i % (s * 4) < s * 4,
        0 <= (y + i / (s * 4)) * (w * 4) + x * 4 + i % (s * 4) < len,
        (y + i / (s * 4)) * (w * 4) == (y + i / (s * 4)) * w * 4,
{
    let d = s * 4;
    let row = i / d;
    let col = i % d;
    assert(0 <= col < d && row * d + col == i && 0 <= row) by (nonlinear_arith)
        requires d > 0, 0 <= i, row == i / d, col == i % d;
    assert(row < s) by (nonlinear_arith)
        requires row * d + col == i, 0 <= col, i < s * d, d > 0, 0 <= row;
    assert((y + row) * (w * 4) == (y + row) * w * 4) by (nonlinear_arith);
    assert((y + row) * (w * 4) + x * 4 + col < (y + row + 1) * (w * 4)) by (nonlinear_arith)
        requires col < s * 4, x + s <= w, 0 <= x, 0 <= y + row;
    assert((y + row + 1) * (w * 4) <= h * (w * 4)) by (nonlinear_arith)
        requires y + row + 1 <= h, 0 <= w;
    assert(h * (w * 4) == len) by (nonlinear_arith)
        requires len == w * h * 4;
    assert(0 <= (y + row) * (w * 4)) by (nonlinear_arith)
        requires 0 <= y + row, 0 <= w;
}

/// The `size` by `size` square at (`x`, `y`) of a `width` by `height` RGBA
/// image given as pixels row by row, row by row.
fn crop_rgba(pixels: &[u8], width: u32, height: u32, x: u32, y: u32, size: u32) -> (r: Vec<u8>)
    requires
        pixels@.len() == width * height * 4,
        x + size <= width,
        y + size <= height,
    ensures
        r@ == crop_of(pixels@, width, x, y, size),
{
    let mut out: Vec<u8> = Vec::new();
    if size == 0 {
        assert(size * (size * 4) == 0);
        assert(out@ =~= crop_of(pixels@, width, x, y, size));
        return out;
    }
    let n: usize = pixels.len();
    let ghost wi = width as int;
    let ghost hi = height as int;
    let ghost si = size as int;
    assert(wi * 4 <= n && si * (si * 4) <= n) by (nonlinear_arith)
        requires
            n == wi * hi * 4,
            1 <= si,
            si <= wi,
            si <= hi,
    ;
    let w4: usize = (width as usize) * 4;
    let s4: usize = (size as usize) * 4;
    let total: usize = (size as usize) * s4;
    let mut i: usize = 0;
    while i < total
        invariant
            n == pixels@.len(),
            n == wi * hi * 4,
            wi == width,
            hi == height,
            si == size,
            1 <= si,
            x + size <= width,
            y + size <= height,
            w4 == wi * 4,
            s4 == si * 4,
            total == si * s4,
            i <= total,
            out@ =~= crop_of(pixels@, width, x, y, size).take(i as int),
        decreases total - i,
    {
        let row: usize = i / s4;
        let col: usize = i % s4;
        proof {
            lemma_crop_index(n as int, wi, hi, si, x as int, y as int, i as int);
        }
        let index: usize = (y as usize + row) * w4 + (x as usize) * 4 + col;
        out.push(pixels[index]);
        proof {
            assert(row == (i as int) / (size * 4));
            assert(col == (i as int) % (size * 4));
            assert(index == (y + (i as int) / (size * 4)) * width * 4 + x * 4 + (i as int) % (size * 4));
            assert(crop_of(pixels@, width, x, y, size).len() == total);
            assert(crop_of(pixels@, width, x, y, size)[i as int] == pixels@[index as int]);
            assert(out@ =~= crop_of(pixels@, width, x, y, size).take(i as int + 1));
        }
        i = i + 1;
    }
    proof {
        assert(crop_of(pixels@, width, x, y, size).len() == total);
    }
    out
}

/// `PngEncoder::write_image` of an RGBA image into memory, named by
/// [`spec_encode_png`]; `None` where the encoder reports an error.
#[verifier::external_body]
fn encode_png(pixels: &[u8], width: u32, height: u32) -> (r: Option<Vec<u8>>)
    requires
        pixels@.len() == width * height * 4,
    ensures
        match r {
            Some(b) => spec_encode_png(pixels@, width, height) == Some(b@),
            None => spec_encode_png(pixels@, width, height) is None,
        },
{
    let mut out: Vec<u8> = Vec::new();
    let encoder = image::codecs::png::PngEncoder::new(&mut out);
    match encoder.write_image(pixels, width, height, image::ExtendedColorType::Rgba8) {
        Ok(()) => Some(out),
        Err(_) => None,
    }
}

/// Why a cube map cross image cannot be cut into face images.
#[derive(Debug, Clone, Copy, PartialEq, Eq, Structural)]
pub enum CubemapError {
    /// The bytes are not an image.
    Decode,
    /// The image is not a cross layout.
    Layout(CubemapLayoutError),
    /// A face could not be encoded.
    Encode(CubeFace),
}

/// The PNG encoding of face `f` of the RGBA image `p`, `w` pixels wide,
/// with faces of side `size`.
pub open spec fn encoded_face(p: Seq<u8>, w: u32, size: u32, f: CubeFace) -> Option<Seq<u8>> {
    let r = face_region(f, size);
    spec_encode_png(crop_of(p, w, r.x, r.y, size), size, size)
}

/// What cutting a `w` by `h` RGBA cross image `p` gives: the layout error,
/// the first face (in [`face_order`]) that does not encode, or every face in
/// that order with its PNG encoding.
pub open spec fn faces_of_image(w: u32, h: u32, p: Seq<u8>) -> Result<Seq<(CubeFace, Seq<u8>)>, CubemapError> {
    match face_size_of(w, h) {
        Err(e) => Err(CubemapError::Layout(e)),
        Ok(size) => encoded_faces(p, w, size, face_order()),
    }
}

/// Encodes the faces `fs` in order, stopping at the first that fails.
pub open spec fn encoded_faces(p: Seq<u8>, w: u32, size: u32, fs: Seq<CubeFace>) -> Result<Seq<(CubeFace, Seq<u8>)>, CubemapError>
    decreases fs.len(),
{
    if fs.len() == 0 {
        Ok(Seq::empty())
    } else {
        match encoded_faces(p, w, size, fs.drop_last()) {
            Err(e) => Err(e),
            Ok(done) => match encoded_face(p, w, size, fs.last()) {
                None => Err(CubemapError::Encode(fs.last())),
                Some(b) => Ok(done.push((fs.last(), b))),
            },
        }
    }
}

/// The result of a face cutting as the spec functions see it.
pub open spec fn faces_view(r: Result<Vec<(CubeFace, Vec<u8>)>, CubemapError>) -> Result<Seq<(CubeFace, Seq<u8>)>, CubemapError> {
    match r {
        Ok(v) => Ok(v@.map_values(|e: (CubeFace, Vec<u8>)| (e.0, e.1@))),
        Err(e) => Err(e),
    }
}

/// Cuts a `width` by `height` RGBA cross image, given as pixels row by row,
/// into its six faces, each encoded as PNG, in [`face_order`].
pub fn cubemap_faces_of_image(width: u32, height: u32, pixels: &[u8]) -> (r: Result<Vec<(CubeFace, Vec<u8>)>, CubemapError>)
    requires
        pixels@.len() == width * height * 4,
    ensures
        faces_view(r) == faces_of_image(width, height, pixels@),
{
    let size = match cubemap_face_size(width, height) {
        Ok(s) => s,
        Err(e) => return Err(CubemapError::Layout(e)),
    };
    proof {
        lemma_faces_inside(width, height);
    }
    let faces = cubemap_faces(size);
    let ghost order = face_order();
    let mut out: Vec<(CubeFace, Vec<u8>)> = Vec::new();
    proof {
        assert(order.take(0) =~= Seq::<CubeFace>::empty());
        assert(out@.map_values(|e: (CubeFace, Vec<u8>)| (e.0, e.1@)) =~= Seq::<(CubeFace, Seq<u8>)>::empty());
    }
    let mut k: usize = 0;
    while k < faces.len()
        invariant
            faces@ == order.map_values(|f: CubeFace| face_region(f, size)),
            order == face_order(),
            k <= faces@.len(),
            size == width / 4,
            face_size_of(width, height) == Ok::<u32, CubemapLayoutError>(size),
            pixels@.len() == width * height * 4,
            forall|f: CubeFace| {
                let r = #[trigger] face_region(f, size);
                r.x + r.size <= width && r.y + r.size <= height
            },
            encoded_faces(pixels@, width, size, order.take(k as int))
                == Ok::<Seq<(CubeFace, Seq<u8>)>, CubemapError>(out@.map_values(|e: (CubeFace, Vec<u8>)| (e.0, e.1@))),
        decreases faces@.len() - k,
    {
        let face = faces[k];
        proof {
            assert(face == face_region(order[k as int], size));
            assert(order.take(k as int + 1).drop_last() =~= order.take(k as int));
            assert(order.take(k as int + 1).last() == order[k as int]);
        }
        let cut = crop_rgba(pixels, width, height, face.x, face.y, size);
        proof {
            assert(size * (size * 4) == size * size * 4) by (nonlinear_arith);
            assert(cut@.len() == size * size * 4);
        }
        let encoded = match encode_png(cut.as_slice(), size, size) {
            Some(b) => b,
            None => {
                proof {
                    assert(encoded_face(pixels@, width, size, order[k as int]) is None);
                    assert(encoded_faces(pixels@, width, size, order.take(k as int + 1))
                        == Err::<Seq<(CubeFace, Seq<u8>)>, CubemapError>(CubemapError::Encode(order[k as int])));
                    lemma_encoded_faces_stop(pixels@, width, size, order, k as int + 1);
                }
                return Err(CubemapError::Encode(face.face));
            },
        };
        out.push((face.face, encoded));
        proof {
            assert(out@.map_values(|e: (CubeFace, Vec<u8>)| (e.0, e.1@)) =~= encoded_faces(
                pixels@, width, size, order.take(k as int),
            ).unwrap().push((order[k as int], encoded@)));
        }
        k = k + 1;
    }
    proof {
        assert(order.take(6) =~= order);
    }
    Ok(out)
}

/// Cuts a cube map cross image, given as encoded bytes, into its six faces,
/// each encoded as PNG, in [`face_order`]: bytes that do not decode give
/// [`CubemapError::Decode`], and otherwise the result is that of
/// [`cubemap_faces_of_image`] on the decoded RGBA image.
pub fn cubemap_face_images(image_bytes: &[u8]) -> (r: Result<Vec<(CubeFace, Vec<u8>)>, CubemapError>)
    ensures
        r == Err::<Vec<(CubeFace, Vec<u8>)>, CubemapError>(CubemapError::Decode)
            || exists|w: u32, h: u32, p: Seq<u8>| p.len() == w * h * 4 && #[trigger] faces_of_image(w, h, p) == faces_view(r),
{
    let (width, height, pixels) = match decode_rgba(image_bytes) {
        Some(d) => d,
        None => return Err(CubemapError::Decode),
    };
    let r = cubemap_faces_of_image(width, height, pixels.as_slice());
    proof {
        assert(faces_of_image(width, height, pixels@) == faces_view(r));
    }
    r
}

/// Once encoding the first `k` faces fails, encoding all of them fails with
/// the same error.
proof fn lemma_encoded_faces_stop(p: Seq<u8>, w: u32, size: u32, fs: Seq<CubeFace>, k: int)
    requires
        0 <= k <= fs.len(),
        encoded_faces(p, w, size, fs.take(k)) is Err,
    ensures
        encoded_faces(p, w, size, fs) == encoded_faces(p, w, size, fs.take(k)),
    decreases fs.len() - k,
{
    if k < fs.len() {
        let t = fs.take(k + 1);
        assert(t.drop_last() =~= fs.take(k));
        lemma_encoded_faces_stop(p, w, size, fs, k + 1);
    } else {
        assert(fs.take(k) =~= fs);
    }
}

} // verus!
