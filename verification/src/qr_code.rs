//! The connection code as a QR code: the modules come from the `qrcode`
//! crate, the picture of them is drawn here and packed by the `image` crate.

use crate::b64::{all_standard, base64_standard, encode_standard, MAX_BASE64_INPUT};
use crate::file_sharing::{joined, starts_with};
use crate::text::chars_of;
use vstd::prelude::*;
use vstd::string::*;

verus! {

/// How many pixels a module is wide and high in the picture.
pub const SCALE: usize = 8;

/// Why no QR code was made.
#[derive(Clone, Copy, Debug, PartialEq, Eq, Structural)]
pub enum QrFailure {
    /// The data is too long for a QR code.
    DataTooLong,
    /// The version and the error correction level do not go together.
    InvalidVersion,
    /// The data holds characters that the version does not support.
    UnsupportedCharacterSet,
    /// The ECI designator is not valid.
    InvalidEciDesignator,
    /// A character does not belong to the character set.
    InvalidCharacter,
    /// The picture would be larger than can be encoded.
    ImageTooLarge,
    /// The picture could not be packed as PNG.
    PngEncoding,
}

/// What the `qrcode` crate draws for `data`: its QR code at the crate's
/// default error correction level, rendered as text with one character per
/// module and no quiet zone.
pub uninterp spec fn qr_rendering(data: Seq<char>) -> Result<Seq<char>, QrFailure>;

/// What the `qrcode` crate draws a module with: a full block for a dark
/// one, a space for a light one.
pub open spec fn is_module_char(c: char) -> bool {
    c == '\u{2588}' || c == ' '
}

/// A text shows a square of modules: it has as many lines as each line has
/// characters, and every character is a module.
pub open spec fn shows_square(text: Seq<char>) -> bool {
    forall|y: int|
        0 <= y < lines_of(text).len() ==> {
            &&& (#[trigger] lines_of(text)[y]).len() == lines_of(text).len()
            &&& forall|x: int|
                0 <= x < lines_of(text)[y].len() ==> is_module_char(
                    #[trigger] lines_of(text)[y][x],
                )
        }
}

/// What the `image` crate's PNG encoder writes for a picture of 8-bit
/// grey pixels, row by row.
pub uninterp spec fn png_luma8(pixels: Seq<u8>, width: u32, height: u32) -> Option<Seq<u8>>;

/// `QrCode::new`, then `render::<char>()` with `quiet_zone(false)` and
/// `module_dimensions(1, 1)`, then `build`, all of the `qrcode` crate.
///
/// Believed: the result depends on the data alone, and the text shows a
/// square of modules, one line for each row, a full block for a dark module
/// and a space for a light one.
#[verifier::external_body]
pub(crate) fn render_modules(data: &str) -> (r: Result<String, QrFailure>)
    ensures
        match r {
            Ok(text) => qr_rendering(data@) == Ok::<Seq<char>, QrFailure>(text@) && shows_square(
                text@,
            ),
            Err(e) => qr_rendering(data@) == Err::<Seq<char>, QrFailure>(e),
        },
{
    match qrcode::QrCode::new(data) {
        Ok(code) => Ok(code.render::<char>().quiet_zone(false).module_dimensions(1, 1).build()),
        Err(qrcode::types::QrError::DataTooLong) => Err(QrFailure::DataTooLong),
        Err(qrcode::types::QrError::InvalidVersion) => Err(QrFailure::InvalidVersion),
        Err(qrcode::types::QrError::UnsupportedCharacterSet) => Err(
            QrFailure::UnsupportedCharacterSet,
        ),
        Err(qrcode::types::QrError::InvalidEciDesignator) => Err(QrFailure::InvalidEciDesignator),
        Err(qrcode::types::QrError::InvalidCharacter) => Err(QrFailure::InvalidCharacter),
    }
}

/// `PngEncoder::new` on a vector, then `write_image` with the colour type
/// `L8`, of the `image` crate.
///
/// Believed: the bytes written depend on the pixels and the two dimensions
/// alone. A buffer that is not `width * height` bytes long is left out, as
/// the crate panics on it.
#[verifier::external_body]
pub(crate) fn encode_png(pixels: &[u8], width: u32, height: u32) -> (r: Option<Vec<u8>>)
    requires
        pixels@.len() == width * height,
    ensures
        match r {
            Some(png) => png_luma8(pixels@, width, height) == Some(png@),
            None => png_luma8(pixels@, width, height) is None,
        },
{
    let mut png: Vec<u8> = Vec::new();
    let encoder = image::codecs::png::PngEncoder::new(&mut png);
    match image::ImageEncoder::write_image(
        encoder,
        pixels,
        width,
        height,
        image::ExtendedColorType::L8,
    ) {
        Ok(()) => Some(png),
        Err(_) => None,
    }
}

// ------------------------------------------------------------ the model

pub const NEWLINE: char = '\n';

pub const CARRIAGE_RETURN: char = '\r';

/// Where the first line break of `t` stands, or the length of `t` where it
/// has none.
pub open spec fn first_break(t: Seq<char>) -> nat
    decreases t.len(),
{
    if t.len() == 0 || t[0] == NEWLINE {
        0
    } else {
        1 + first_break(t.skip(1))
    }
}

/// A line without the carriage return that ends it, if one does.
pub open spec fn without_return(line: Seq<char>) -> Seq<char> {
    if line.len() > 0 && line.last() == CARRIAGE_RETURN {
        line.drop_last()
    } else {
        line
    }
}

/// The lines of a text, as `str::lines` gives them: each ends at a line
/// feed, which is left out together with a carriage return before it; what
/// follows the last line feed is a line where it is not empty.
pub open spec fn lines_of(t: Seq<char>) -> Seq<Seq<char>>
    decreases t.len(),
{
    if t.len() == 0 {
        Seq::empty()
    } else if first_break(t) >= t.len() {
        seq![t]
    } else {
        seq![without_return(t.take(first_break(t) as int))] + lines_of(
            t.skip(first_break(t) as int + 1),
        )
    }
}

/// The characters that the renderers of the `qrcode` crate draw dark
/// modules with.
pub open spec fn is_dark(c: char) -> bool {
    c == '\u{2588}' || c == '\u{2580}' || c == '\u{2584}'
}

/// The modules that the lines of a rendering show: `true` for dark.
pub open spec fn module_rows(text: Seq<char>) -> Seq<Seq<bool>> {
    Seq::new(
        lines_of(text).len(),
        |y: int| Seq::new(lines_of(text)[y].len(), |x: int| is_dark(lines_of(text)[y][x])),
    )
}

/// Every row has as many modules as there are rows.
pub open spec fn is_square(rows: Seq<Seq<bool>>) -> bool {
    forall|y: int| 0 <= y < rows.len() ==> (#[trigger] rows[y]).len() == rows.len()
}

/// How many modules the picture is wide: as many as the first row has.
pub open spec fn grid_width(rows: Seq<Seq<bool>>) -> nat {
    if rows.len() == 0 {
        0
    } else {
        rows[0].len()
    }
}

/// The grey value of a pixel: black on a dark module, white on a light
/// one, black where the row has no module.
pub open spec fn pixel(rows: Seq<Seq<bool>>, x: int, y: int) -> u8 {
    let row = rows[y / SCALE as int];
    if x / SCALE as int >= row.len() || row[x / SCALE as int] {
        0
    } else {
        255
    }
}

/// The rows of pixels of the picture: each module is a square of
/// [`SCALE`] pixels.
pub open spec fn pixel_rows(rows: Seq<Seq<bool>>) -> Seq<Seq<u8>> {
    Seq::new(
        rows.len() * SCALE as nat,
        |y: int| Seq::new(grid_width(rows) * SCALE as nat, |x: int| pixel(rows, x, y)),
    )
}

/// The picture fits: both sides as `u32` and all pixels in the address
/// space.
pub open spec fn drawable(rows: Seq<Seq<bool>>) -> bool {
    &&& rows.len() * SCALE as nat <= u32::MAX
    &&& grid_width(rows) * SCALE as nat <= u32::MAX
    &&& (rows.len() * SCALE as nat) * (grid_width(rows) * SCALE as nat) <= usize::MAX
}

/// The data URL of the picture of the modules.
pub open spec fn picture_url(rows: Seq<Seq<bool>>) -> Result<Seq<char>, QrFailure> {
    if !drawable(rows) {
        Err(QrFailure::ImageTooLarge)
    } else {
        match png_luma8(
            joined(pixel_rows(rows)),
            (grid_width(rows) * SCALE as nat) as u32,
            (rows.len() * SCALE as nat) as u32,
        ) {
            None => Err(QrFailure::PngEncoding),
            Some(png) => if png.len() > MAX_BASE64_INPUT {
                Err(QrFailure::ImageTooLarge)
            } else {
                Ok("data:image/png;base64,"@ + base64_standard(png))
            },
        }
    }
}

/// A text is a data URL of a PNG picture: the head of such a URL, then one
/// run of padded standard base64.
pub open spec fn is_png_url(url: Seq<char>) -> bool {
    &&& starts_with(url, "data:image/png;base64,"@)
    &&& all_standard(url.skip("data:image/png;base64,"@.len() as int))
}

/// The data URL of the QR code of `data`.
pub open spec fn qr_data_url(data: Seq<char>) -> Result<Seq<char>, QrFailure> {
    match qr_rendering(data) {
        Err(e) => Err(e),
        Ok(text) => picture_url(module_rows(text)),
    }
}

// ------------------------------------------------------------ the code

pub open spec fn char_rows(v: Seq<Vec<char>>) -> Seq<Seq<char>> {
    v.map_values(|r: Vec<char>| r@)
}

pub open spec fn bool_rows(v: Seq<Vec<bool>>) -> Seq<Seq<bool>> {
    v.map_values(|r: Vec<bool>| r@)
}

proof fn lemma_first_break(t: Seq<char>, k: int)
    requires
        0 <= k <= t.len(),
        forall|j: int| 0 <= j < k ==> t[j] != NEWLINE,
        k < t.len() ==> t[k] == NEWLINE,
    ensures
        first_break(t) == k,
    decreases k,
{
    if k > 0 {
        let rest = t.skip(1);
        assert forall|j: int| 0 <= j < k - 1 implies rest[j] != NEWLINE by {
            assert(rest[j] == t[j + 1]);
        }
        lemma_first_break(rest, k - 1);
    }
}

/// The lines of a text.
pub fn read_lines(chars: &[char]) -> (lines: Vec<Vec<char>>)
    ensures
        char_rows(lines@) == lines_of(chars@),
{
    let ghost t = chars@;
    let mut lines: Vec<Vec<char>> = Vec::new();
    let mut pos: usize = 0;
    assert(t.skip(0) =~= t);
    assert(char_rows(lines@) + lines_of(t.skip(0)) =~= lines_of(t));
    while pos < chars.len()
        invariant
            0 <= pos <= chars@.len(),
            t == chars@,
            char_rows(lines@) + lines_of(t.skip(pos as int)) == lines_of(t),
        decreases chars@.len() - pos,
    {
        let mut k: usize = pos;
        while k < chars.len() && chars[k] != NEWLINE
            invariant
                pos <= k <= chars@.len(),
                forall|j: int| pos <= j < k ==> chars@[j] != NEWLINE,
            decreases chars@.len() - k,
        {
            k = k + 1;
        }
        let ghost rest = t.skip(pos as int);
        let ghost before = char_rows(lines@);
        proof {
            assert forall|j: int| 0 <= j < k - pos implies rest[j] != NEWLINE by {
                assert(rest[j] == t[pos + j]);
            }
            lemma_first_break(rest, k - pos);
        }
        if k == chars.len() {
            let line = vstd::slice::slice_to_vec(vstd::slice::slice_subrange(chars, pos, k));
            assert(line@ =~= rest);
            lines.push(line);
            proof {
                assert(char_rows(lines@) =~= before.push(rest));
                assert(lines_of(t.skip(k as int)) =~= Seq::<Seq<char>>::empty());
                assert(char_rows(lines@) + lines_of(t.skip(k as int)) =~= before + lines_of(rest));
            }
            pos = k;
        } else {
            let end = if k > pos && chars[k - 1] == CARRIAGE_RETURN {
                k - 1
            } else {
                k
            };
            let line = vstd::slice::slice_to_vec(vstd::slice::slice_subrange(chars, pos, end));
            proof {
                let raw = rest.take(k - pos);
                if k > pos {
                    assert(raw.last() == chars@[k - 1]);
                }
                assert(line@ =~= without_return(raw));
            }
            lines.push(line);
            proof {
                assert(char_rows(lines@) =~= before.push(without_return(rest.take(k - pos))));
                assert(rest.skip(k - pos + 1) =~= t.skip(k + 1));
                assert(char_rows(lines@) + lines_of(t.skip(k + 1)) =~= before + lines_of(rest));
            }
            pos = k + 1;
        }
    }
    assert(lines_of(t.skip(pos as int)) =~= Seq::<Seq<char>>::empty());
    assert(char_rows(lines@) =~= lines_of(t));
    lines
}

fn dark(c: char) -> (b: bool)
    ensures
        b == is_dark(c),
{
    c == '\u{2588}' || c == '\u{2580}' || c == '\u{2584}'
}

/// Makes QR codes of connection codes.
pub struct QrCodeGenerator;

impl QrCodeGenerator {
    /// The modules that a rendering shows.
    pub fn modules_of_text(text: &str) -> (rows: Vec<Vec<bool>>)
        ensures
            bool_rows(rows@) == module_rows(text@),
    {
        let chars = chars_of(text);
        let lines = read_lines(chars.as_slice());
        let ghost target = module_rows(text@);
        let mut rows: Vec<Vec<bool>> = Vec::new();
        let mut y: usize = 0;
        while y < lines.len()
            invariant
                0 <= y <= lines@.len(),
                char_rows(lines@) == lines_of(text@),
                target == module_rows(text@),
                rows@.len() == y,
                forall|j: int| 0 <= j < y ==> (#[trigger] rows@[j])@ == target[j],
            decreases lines@.len() - y,
        {
            let line = &lines[y];
            assert(line@ == lines_of(text@)[y as int]) by {
                assert(char_rows(lines@)[y as int] == lines@[y as int]@);
            }
            let mut row: Vec<bool> = Vec::new();
            let mut x: usize = 0;
            while x < line.len()
                invariant
                    0 <= x <= line@.len(),
                    row@.len() == x,
                    forall|j: int| 0 <= j < x ==> row@[j] == is_dark(line@[j]),
                decreases line@.len() - x,
            {
                row.push(dark(line[x]));
                x = x + 1;
            }
            assert(row@ =~= target[y as int]);
            rows.push(row);
            y = y + 1;
        }
        assert(bool_rows(rows@) =~= target);
        rows
    }

    /// The modules of the QR code of `data`, row by row: `true` for dark.
    pub fn dark_modules(data: &str) -> (r: Result<Vec<Vec<bool>>, QrFailure>)
        ensures
            match r {
                Ok(rows) => {
                    &&& qr_rendering(data@) is Ok
                    &&& bool_rows(rows@) == module_rows(qr_rendering(data@)->Ok_0)
                    &&& is_square(bool_rows(rows@))
                },
                Err(e) => qr_rendering(data@) == Err::<Seq<char>, QrFailure>(e),
            },
    {
        match render_modules(data) {
            Ok(text) => {
                let rows = QrCodeGenerator::modules_of_text(text.as_str());
                proof {
                    let grid = bool_rows(rows@);
                    assert forall|y: int| 0 <= y < grid.len() implies (#[trigger] grid[y]).len()
                        == grid.len() by {
                        assert(lines_of(text@)[y].len() == lines_of(text@).len());
                    }
                }
                Ok(rows)
            },
            Err(e) => Err(e),
        }
    }

    /// The pixels of the picture of the modules, row by row, with the
    /// picture's width and height.
    pub fn draw(rows: &Vec<Vec<bool>>) -> (r: Option<(Vec<u8>, u32, u32)>)
        ensures
            match r {
                Some((pixels, width, height)) => {
                    &&& drawable(bool_rows(rows@))
                    &&& pixels@ == joined(pixel_rows(bool_rows(rows@)))
                    &&& width == grid_width(bool_rows(rows@)) * SCALE as nat
                    &&& height == rows@.len() * SCALE as nat
                    &&& pixels@.len() == width * height
                },
                None => !drawable(bool_rows(rows@)),
            },
    {
        let ghost grid = bool_rows(rows@);
        let modules_high = rows.len();
        let modules_wide = if modules_high == 0 {
            0
        } else {
            rows[0].len()
        };
        assert(modules_wide == grid_width(grid)) by {
            if modules_high > 0 {
                assert(grid[0] == rows@[0]@);
            }
        }
        let limit: usize = (u32::MAX / 8) as usize;
        if modules_high > limit || modules_wide > limit {
            return None;
        }
        let height: usize = modules_high * SCALE;
        let width: usize = modules_wide * SCALE;
        let total = match height.checked_mul(width) {
            Some(total) => total,
            None => {
                return None;
            },
        };
        let ghost target = pixel_rows(grid);
        let mut pixels: Vec<u8> = Vec::new();
        let mut y: usize = 0;
        assert(target.skip(0) =~= target);
        assert(pixels@ + joined(target.skip(0)) =~= joined(target));
        assert(0 * width == 0) by (nonlinear_arith);
        while y < height
            invariant
                0 <= y <= height,
                height == rows@.len() * SCALE as nat,
                width == grid_width(grid) * SCALE as nat,
                height * width <= usize::MAX,
                grid == bool_rows(rows@),
                target == pixel_rows(grid),
                pixels@.len() == y * width,
                pixels@ + joined(target.skip(y as int)) == joined(target),
            decreases height - y,
        {
            let row = &rows[y / SCALE];
            assert(row@ == grid[y as int / SCALE as int]) by {
                assert(grid[y as int / SCALE as int] == rows@[y as int / SCALE as int]@);
            }
            let ghost before = pixels@;
            let ghost line = target[y as int];
            let mut x: usize = 0;
            while x < width
                invariant
                    0 <= x <= width,
                    y < height,
                    height == rows@.len() * SCALE as nat,
                    grid.len() == rows@.len(),
                    width == grid_width(grid) * SCALE as nat,
                    row@ == grid[y as int / SCALE as int],
                    line == Seq::new(width as nat, |x: int| pixel(grid, x, y as int)),
                    pixels@ == before + line.take(x as int),
                decreases width - x,
            {
                let column = x / SCALE;
                let value: u8 = if column >= row.len() || row[column] {
                    0
                } else {
                    255
                };
                pixels.push(value);
                assert(pixels@ =~= before + line.take(x + 1));
                x = x + 1;
            }
            proof {
                let rest = target.skip(y as int);
                assert(line.take(width as int) =~= line);
                assert(rest[0] == line);
                assert(rest.skip(1) =~= target.skip(y + 1));
                assert(pixels@ + joined(target.skip(y + 1)) =~= before + joined(rest));
                assert((y + 1) * width == y * width + width) by (nonlinear_arith);
            }
            y = y + 1;
        }
        assert(joined(target.skip(y as int)) =~= Seq::<u8>::empty());
        assert(pixels@ =~= joined(target));
        assert(height * width == width * height) by (nonlinear_arith);
        assert(drawable(grid));
        assert(pixels@.len() == (width as u32) * (height as u32));
        Some((pixels, width as u32, height as u32))
    }

    /// The picture of the modules, packed as PNG, as a data URL.
    pub fn picture_data_url(rows: &Vec<Vec<bool>>) -> (r: Result<String, QrFailure>)
        ensures
            match r {
                Ok(url) => picture_url(bool_rows(rows@)) == Ok::<Seq<char>, QrFailure>(url@)
                    && is_png_url(url@),
                Err(e) => picture_url(bool_rows(rows@)) == Err::<Seq<char>, QrFailure>(e) && (e
                    == QrFailure::ImageTooLarge || e == QrFailure::PngEncoding),
            },
    {
        let (pixels, width, height) = match QrCodeGenerator::draw(rows) {
            Some(picture) => picture,
            None => {
                return Err(QrFailure::ImageTooLarge);
            },
        };
        let png = match encode_png(pixels.as_slice(), width, height) {
            Some(png) => png,
            None => {
                return Err(QrFailure::PngEncoding);
            },
        };
        if png.len() > MAX_BASE64_INPUT {
            return Err(QrFailure::ImageTooLarge);
        }
        let encoded = encode_standard(png.as_slice());
        let url = String::from_str("data:image/png;base64,").concat(encoded.as_str());
        proof {
            let head = "data:image/png;base64,"@;
            assert(url@.take(head.len() as int) =~= head);
            assert(url@.skip(head.len() as int) =~= encoded@);
        }
        Ok(url)
    }

    /// The QR code of `data` as a data URL that an `img` element can show.
    pub fn generate_qr_code_data_url(data: &str) -> (r: Result<String, QrFailure>)
        ensures
            match r {
                Ok(url) => qr_data_url(data@) == Ok::<Seq<char>, QrFailure>(url@) && is_png_url(
                    url@,
                ),
                Err(e) => qr_data_url(data@) == Err::<Seq<char>, QrFailure>(e),
            },
    {
        match QrCodeGenerator::dark_modules(data) {
            Ok(rows) => QrCodeGenerator::picture_data_url(&rows),
            Err(e) => Err(e),
        }
    }
}

impl QrFailure {
    /// The failure in words.
    pub open spec fn message_text(self) -> Seq<char> {
        match self {
            QrFailure::DataTooLong => "Failed to create QR code: DataTooLong"@,
            QrFailure::InvalidVersion => "Failed to create QR code: InvalidVersion"@,
            QrFailure::UnsupportedCharacterSet => "Failed to create QR code: UnsupportedCharacterSet"@,
            QrFailure::InvalidEciDesignator => "Failed to create QR code: InvalidEciDesignator"@,
            QrFailure::InvalidCharacter => "Failed to create QR code: InvalidCharacter"@,
            QrFailure::ImageTooLarge => "Failed to encode PNG: image too large"@,
            QrFailure::PngEncoding => "Failed to encode PNG: the encoder refused the picture"@,
        }
    }

    /// Every message says first which of the two steps failed: making the
    /// QR code, or packing its picture.
    pub proof fn lemma_message_names_step(self)
        ensures
            self is ImageTooLarge || self is PngEncoding ==> starts_with(
                self.message_text(),
                "Failed to encode PNG: "@,
            ),
            !(self is ImageTooLarge || self is PngEncoding) ==> starts_with(
                self.message_text(),
                "Failed to create QR code: "@,
            ),
    {
        reveal_strlit("Failed to create QR code: ");
        reveal_strlit("Failed to encode PNG: ");
        reveal_strlit("Failed to create QR code: DataTooLong");
        reveal_strlit("Failed to create QR code: InvalidVersion");
        reveal_strlit("Failed to create QR code: UnsupportedCharacterSet");
        reveal_strlit("Failed to create QR code: InvalidEciDesignator");
        reveal_strlit("Failed to create QR code: InvalidCharacter");
        reveal_strlit("Failed to encode PNG: image too large");
        reveal_strlit("Failed to encode PNG: the encoder refused the picture");
        let text = self.message_text();
        if self is ImageTooLarge || self is PngEncoding {
            assert(text.take(22) =~= "Failed to encode PNG: "@);
        } else {
            assert(text.take(26) =~= "Failed to create QR code: "@);
        }
    }

    /// The failure in words.
    pub fn message(&self) -> (text: &'static str)
        ensures
            text@ == self.message_text(),
            starts_with(text@, "Failed to create QR code: "@) || starts_with(
                text@,
                "Failed to encode PNG: "@,
            ),
    {
        proof {
            self.lemma_message_names_step();
        }
        match self {
            QrFailure::DataTooLong => "Failed to create QR code: DataTooLong",
            QrFailure::InvalidVersion => "Failed to create QR code: InvalidVersion",
            QrFailure::UnsupportedCharacterSet => "Failed to create QR code: UnsupportedCharacterSet",
            QrFailure::InvalidEciDesignator => "Failed to create QR code: InvalidEciDesignator",
            QrFailure::InvalidCharacter => "Failed to create QR code: InvalidCharacter",
            QrFailure::ImageTooLarge => "Failed to encode PNG: image too large",
            QrFailure::PngEncoding => "Failed to encode PNG: the encoder refused the picture",
        }
    }
}

} // verus!
