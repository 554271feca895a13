//! Tile data: the cells of a layer, as a `data` element holds them.

use vstd::prelude::*;
use vstd::slice::slice_subrange;
use vstd::string::*;
use vstd::utf8::{encode_utf8, is_ascii_chars};
use crate::attrs::{attr_value, find_attr};
use crate::error::{placed, ErrorView, TiledError};
use crate::events::{
    step, step_at, views, Attribute, AttributeView, EventView, Step, StepView, XmlEvent,
};
use crate::text::{digit_value, is_digit, str_eq};

verus! {

/// One cell of a layer: the global id of the tile placed there (0 for none)
/// and how the tile is flipped.
#[derive(Debug, PartialEq, Eq, Clone, Copy, Structural)]
pub struct LayerTile {
    pub gid: u32,
    pub flip_h: bool,
    pub flip_v: bool,
    pub flip_d: bool,
}

impl LayerTile {
    /// The cell that a packed word stands for: the three highest bits are the
    /// horizontal, vertical and diagonal flip, the other 29 the global id.
    pub open spec fn from_bits(bits: u32) -> LayerTile {
        LayerTile {
            gid: bits & 0x1fff_ffffu32,
            flip_h: bits & 0x8000_0000u32 != 0,
            flip_v: bits & 0x4000_0000u32 != 0,
            flip_d: bits & 0x2000_0000u32 != 0,
        }
    }

    /// Unpacks a cell.
    pub fn new(bits: u32) -> (tile: LayerTile)
        ensures
            tile == LayerTile::from_bits(bits),
            tile.gid < 0x2000_0000,
    {
        assert(bits & 0x1fff_ffffu32 < 0x2000_0000u32) by (bit_vector);
        LayerTile {
            gid: bits & 0x1fff_ffffu32,
            flip_h: bits & 0x8000_0000u32 != 0,
            flip_v: bits & 0x4000_0000u32 != 0,
            flip_d: bits & 0x2000_0000u32 != 0,
        }
    }
}

/// The word that four bytes write, least significant byte first.
pub open spec fn word_le(b0: u8, b1: u8, b2: u8, b3: u8) -> u32 {
    (b0 as int + 0x100 * (b1 as int) + 0x1_0000 * (b2 as int) + 0x100_0000 * (b3 as int)) as u32
}

/// The cells that a run of bytes writes, four bytes to a cell. Bytes left
/// over at the end write nothing.
pub open spec fn cells_of_bytes(bytes: Seq<u8>) -> Seq<LayerTile> {
    Seq::new(
        (bytes.len() / 4) as nat,
        |k: int|
            LayerTile::from_bits(
                word_le(bytes[4 * k], bytes[4 * k + 1], bytes[4 * k + 2], bytes[4 * k + 3]),
            ),
    )
}

/// Unpacks the cells that a run of bytes writes.
pub fn unpack_cells(bytes: &Vec<u8>) -> (cells: Vec<LayerTile>)
    ensures
        cells@ == cells_of_bytes(bytes@),
{
    let n = bytes.len();
    let mut cells: Vec<LayerTile> = Vec::new();
    let mut i: usize = 0;
    while n - i >= 4
        invariant
            n == bytes@.len(),
            i <= n,
            i == 4 * cells@.len(),
            forall|k: int|
                0 <= k < cells@.len() ==> cells@[k] == #[trigger] cells_of_bytes(bytes@)[k],
        decreases n - i,
    {
        let word: u32 = (bytes[i] as u32) + 0x100 * (bytes[i + 1] as u32) + 0x1_0000 * (bytes[i
            + 2] as u32) + 0x100_0000 * (bytes[i + 3] as u32);
        cells.push(LayerTile::new(word));
        i += 4;
    }
    assert(cells@ =~= cells_of_bytes(bytes@));
    cells
}

/// The cells cut into rows of `width` from the front; the last row holds
/// what is left. Rows of no width hold nothing.
pub open spec fn rows_of(cells: Seq<LayerTile>, width: nat) -> Seq<Seq<LayerTile>>
    decreases cells.len(),
{
    if cells.len() == 0 || width == 0 {
        Seq::empty()
    } else if cells.len() <= width {
        seq![cells]
    } else {
        seq![cells.take(width as int)] + rows_of(cells.skip(width as int), width)
    }
}

/// Cells that come to whole rows are cut into rows of exactly `width`.
pub proof fn lemma_rows_are_full(cells: Seq<LayerTile>, width: nat)
    requires
        width > 0,
        cells.len() % width == 0,
    ensures
        rows_of(cells, width).len() * width == cells.len(),
        forall|r: int|
            0 <= r < rows_of(cells, width).len() ==> (#[trigger] rows_of(cells, width)[r]).len()
                == width,
    decreases cells.len(),
{
    if cells.len() == 0 {
    } else if cells.len() <= width {
        assert(cells.len() == width) by (nonlinear_arith)
            requires
                0 < cells.len() <= width,
                cells.len() % width == 0,
        ;
        assert(rows_of(cells, width).len() * width == cells.len()) by (nonlinear_arith)
            requires
                rows_of(cells, width).len() == 1,
                cells.len() == width,
        ;
    } else {
        let rest = cells.skip(width as int);
        assert(rest.len() % width == 0) by (nonlinear_arith)
            requires
                rest.len() == cells.len() - width,
                cells.len() % width == 0,
                width > 0,
                cells.len() > width,
        ;
        lemma_rows_are_full(rest, width);
        let rows = rows_of(cells, width);
        assert(rows =~= seq![cells.take(width as int)] + rows_of(rest, width));
        assert(rows.len() * width == cells.len()) by (nonlinear_arith)
            requires
                rows.len() == 1 + rows_of(rest, width).len(),
                rows_of(rest, width).len() * width == rest.len(),
                rest.len() == cells.len() - width,
        ;
        assert forall|r: int| 0 <= r < rows.len() implies (#[trigger] rows[r]).len() == width by {
            if r > 0 {
                assert(rows[r] == rows_of(rest, width)[r - 1]);
            }
        }
    }
}

/// The views of rows of cells.
pub open spec fn rows_view(rows: Seq<Vec<LayerTile>>) -> Seq<Seq<LayerTile>> {
    rows.map_values(|row: Vec<LayerTile>| row@)
}

/// Cuts cells into rows of `width`.
pub fn cut_rows(cells: &Vec<LayerTile>, width: usize) -> (rows: Vec<Vec<LayerTile>>)
    ensures
        rows_view(rows@) == rows_of(cells@, width as nat),
{
    let n = cells.len();
    let mut rows: Vec<Vec<LayerTile>> = Vec::new();
    let mut i: usize = 0;
    assert(cells@.skip(0) =~= cells@);
    if width == 0 {
        assert(rows_view(rows@) =~= Seq::<Seq<LayerTile>>::empty());
        return rows;
    }
    while i < n
        invariant
            n == cells@.len(),
            i <= n,
            width > 0,
            rows_view(rows@) + rows_of(cells@.skip(i as int), width as nat) == rows_of(
                cells@,
                width as nat,
            ),
        decreases n - i,
    {
        let ghost rest = cells@.skip(i as int);
        let end: usize = if n - i <= width {
            n
        } else {
            i + width
        };
        let mut row: Vec<LayerTile> = Vec::new();
        let mut j: usize = i;
        while j < end
            invariant
                i <= j <= end <= n,
                n == cells@.len(),
                row@ == cells@.subrange(i as int, j as int),
            decreases end - j,
        {
            row.push(cells[j]);
            assert(row@ =~= cells@.subrange(i as int, j + 1));
            j += 1;
        }
        let ghost before = rows_view(rows@);
        rows.push(row);
        proof {
            assert(rows_view(rows@) =~= before.push(row@));
            if n - i <= width {
                assert(row@ =~= rest);
                assert(cells@.skip(end as int).len() == 0);
                assert(rows_of(rest, width as nat) =~= seq![rest]);
                assert(rows_of(cells@.skip(end as int), width as nat) =~= Seq::<
                    Seq<LayerTile>,
                >::empty());
            } else {
                assert(row@ =~= rest.take(width as int));
                assert(rest.skip(width as int) =~= cells@.skip(end as int));
            }
            assert(rows_view(rows@) + rows_of(cells@.skip(end as int), width as nat) =~= before
                + rows_of(rest, width as nat));
        }
        i = end;
    }
    assert(rows_of(cells@.skip(n as int), width as nat) =~= Seq::<Seq<LayerTile>>::empty());
    assert(rows_view(rows@) + Seq::<Seq<LayerTile>>::empty() =~= rows_view(rows@));
    rows
}

/// Where the reading of comma-separated cells stands: the rows that are
/// complete, the cells of the row being read, and the number being read.
pub struct CsvState {
    pub rows: Seq<Seq<LayerTile>>,
    pub row: Seq<LayerTile>,
    pub number: Option<u32>,
}

/// The number being read, if any, becomes the next cell of the row.
pub open spec fn csv_flush(state: CsvState) -> CsvState {
    match state.number {
        Some(n) => CsvState { row: state.row.push(LayerTile::from_bits(n)), number: None, ..state },
        None => state,
    }
}

/// The row being read, unless it has no cell, becomes the next row.
pub open spec fn csv_end_row(state: CsvState) -> CsvState {
    let flushed = csv_flush(state);
    if flushed.row.len() > 0 {
        CsvState { rows: flushed.rows.push(flushed.row), row: Seq::empty(), number: None }
    } else {
        flushed
    }
}

/// The state after one more character: a digit extends the number, which
/// must stay within 32 bits; a comma, blank, tab or carriage return ends the
/// number; a line feed also ends the row. No other character is allowed.
pub open spec fn csv_step(state: CsvState, c: char) -> Option<CsvState> {
    if is_digit(c) {
        let value = match state.number {
            Some(n) => n * 10 + digit_value(c),
            None => digit_value(c) as int,
        };
        if value <= 0xffff_ffff {
            Some(CsvState { number: Some(value as u32), ..state })
        } else {
            None
        }
    } else if c == ',' || c == ' ' || c == '\t' || c == '\r' {
        Some(csv_flush(state))
    } else if c == '\n' {
        Some(csv_end_row(state))
    } else {
        None
    }
}

/// The state after a whole text, read from the left.
pub open spec fn csv_scan(text: Seq<char>) -> Option<CsvState>
    decreases text.len(),
{
    if text.len() == 0 {
        Some(CsvState { rows: Seq::empty(), row: Seq::empty(), number: None })
    } else {
        match csv_scan(text.drop_last()) {
            Some(state) => csv_step(state, text.last()),
            None => None,
        }
    }
}

/// The rows of cells that a comma-separated text writes: one row to a line,
/// lines without a cell left out. A text with a character that is not
/// allowed, or a number beyond 32 bits, writes nothing.
pub open spec fn csv_rows(text: Seq<char>) -> Option<Seq<Seq<LayerTile>>> {
    match csv_scan(text) {
        Some(state) => Some(csv_end_row(state).rows),
        None => None,
    }
}

/// A text whose beginning cannot be read cannot be read.
pub proof fn lemma_csv_prefix(text: Seq<char>, k: int)
    requires
        0 <= k <= text.len(),
        csv_scan(text.take(k)) is None,
    ensures
        csv_scan(text) is None,
    decreases text.len() - k,
{
    if k < text.len() {
        assert(text.take(k + 1).drop_last() =~= text.take(k));
        lemma_csv_prefix(text, k + 1);
    } else {
        assert(text.take(k) =~= text);
    }
}

/// Reads comma-separated cells.
pub fn parse_csv(text: &str) -> (r: Option<Vec<Vec<LayerTile>>>)
    ensures
        match r {
            Some(rows) => csv_rows(text@) == Some(rows_view(rows@)),
            None => csv_rows(text@) is None,
        },
{
    if !text.is_ascii() {
        proof {
            let i = choose|i: int| 0 <= i < text@.len() && !('\0' <= #[trigger] text@[i] <= '\u{7f}');
            assert(text@.take(i + 1).drop_last() =~= text@.take(i));
            assert(text@.take(i + 1).last() == text@[i]);
            assert(csv_scan(text@.take(i + 1)) is None);
            lemma_csv_prefix(text@, i + 1);
        }
        return None;
    }
    let b = text.as_bytes();
    proof {
        is_ascii_spec_bytes(text);
    }
    let n = b.len();
    let mut rows: Vec<Vec<LayerTile>> = Vec::new();
    let mut row: Vec<LayerTile> = Vec::new();
    let mut number: Option<u32> = None;
    let mut i: usize = 0;
    assert(rows_view(rows@) =~= Seq::<Seq<LayerTile>>::empty());
    while i < n
        invariant
            i <= n,
            n == text@.len(),
            b@.len() == n,
            is_ascii_chars(text@),
            forall|j: int| 0 <= j < n ==> b@[j] == text@[j] as u8,
            csv_scan(text@.take(i as int)) == Some(
                CsvState { rows: rows_view(rows@), row: row@, number },
            ),
        decreases n - i,
    {
        let c = b[i];
        proof {
            assert(text@.take(i + 1).drop_last() =~= text@.take(i as int));
            assert(text@.take(i + 1).last() == text@[i as int]);
        }
        if 48u8 <= c && c <= 57u8 {
            let digit: u64 = (c - 48u8) as u64;
            let value: u64 = match number {
                Some(v) => (v as u64) * 10 + digit,
                None => digit,
            };
            if value > 0xffff_ffff {
                proof {
                    lemma_csv_prefix(text@, i + 1);
                }
                return None;
            }
            number = Some(value as u32);
        } else if c == 44u8 || c == 32u8 || c == 9u8 || c == 13u8 || c == 10u8 {
            match number {
                Some(v) => {
                    row.push(LayerTile::new(v));
                    number = None;
                },
                None => {},
            }
            if c == 10u8 && row.len() > 0 {
                let ghost before = rows_view(rows@);
                let ghost cells = row@;
                rows.push(row);
                row = Vec::new();
                assert(rows_view(rows@) =~= before.push(cells));
            }
        } else {
            proof {
                lemma_csv_prefix(text@, i + 1);
            }
            return None;
        }
        i += 1;
    }
    assert(text@.take(n as int) =~= text@);
    match number {
        Some(v) => {
            row.push(LayerTile::new(v));
        },
        None => {},
    }
    if row.len() > 0 {
        let ghost before = rows_view(rows@);
        let ghost cells = row@;
        rows.push(row);
        assert(rows_view(rows@) =~= before.push(cells));
    }
    Some(rows)
}

/// A byte of white space.
pub open spec fn is_space(b: u8) -> bool {
    b == 32 || (9 <= b && b <= 13)
}

/// The bytes without the white space at their beginning.
pub open spec fn trim_start(s: Seq<u8>) -> Seq<u8>
    decreases s.len(),
{
    if s.len() > 0 && is_space(s[0]) {
        trim_start(s.skip(1))
    } else {
        s
    }
}

/// The bytes without the white space at their end.
pub open spec fn trim_end(s: Seq<u8>) -> Seq<u8>
    decreases s.len(),
{
    if s.len() > 0 && is_space(s.last()) {
        trim_end(s.drop_last())
    } else {
        s
    }
}

/// The bytes without the white space at either end.
pub open spec fn trimmed(s: Seq<u8>) -> Seq<u8> {
    trim_end(trim_start(s))
}

/// Cuts the white space off both ends.
pub fn trim(bytes: &[u8]) -> (r: &[u8])
    ensures
        r@ == trimmed(bytes@),
{
    let n = bytes.len();
    let mut from: usize = 0;
    assert(bytes@.skip(0) =~= bytes@);
    while from < n && (bytes[from] == 32u8 || (9u8 <= bytes[from] && bytes[from] <= 13u8))
        invariant
            from <= n,
            n == bytes@.len(),
            trim_start(bytes@) == trim_start(bytes@.skip(from as int)),
        decreases n - from,
    {
        assert(bytes@.skip(from as int).skip(1) =~= bytes@.skip(from + 1));
        from += 1;
    }
    let mut to: usize = n;
    let ghost rest = bytes@.skip(from as int);
    assert(rest =~= bytes@.subrange(from as int, to as int));
    while to > from && (bytes[to - 1] == 32u8 || (9u8 <= bytes[to - 1] && bytes[to - 1] <= 13u8))
        invariant
            from <= to <= n,
            n == bytes@.len(),
            trim_end(rest) == trim_end(bytes@.subrange(from as int, to as int)),
        decreases to,
    {
        assert(bytes@.subrange(from as int, to as int).drop_last() =~= bytes@.subrange(
            from as int,
            to - 1,
        ));
        to -= 1;
    }
    slice_subrange(bytes, from, to)
}

/// What `base64::decode` makes of these bytes: the bytes they encode, or the
/// text of its error.
pub uninterp spec fn base64_decoded(input: Seq<u8>) -> Result<Seq<u8>, Seq<char>>;

/// What `libflate::zlib::Decoder` reads out of these bytes: the inflated
/// bytes, or the text of its error.
pub uninterp spec fn zlib_inflated(data: Seq<u8>) -> Result<Seq<u8>, Seq<char>>;

/// What `libflate::gzip::Decoder` reads out of these bytes: the inflated
/// bytes, or the text of its error.
pub uninterp spec fn gzip_inflated(data: Seq<u8>) -> Result<Seq<u8>, Seq<char>>;

/// Bytes or a message, as ghost data.
pub open spec fn bytes_or_message(r: Result<Vec<u8>, String>) -> Result<Seq<u8>, Seq<char>> {
    match r {
        Ok(bytes) => Ok(bytes@),
        Err(message) => Err(message@),
    }
}

/// `base64::decode` (standard alphabet, with padding); an error is given as
/// the text it displays.
#[verifier::external_body]
fn decode_base64(input: &[u8]) -> (r: Result<Vec<u8>, String>)
    ensures
        bytes_or_message(r) == base64_decoded(input@),
{
    base64::decode(input).map_err(|e| e.to_string())
}

/// `libflate::zlib::Decoder::new` on the bytes, read to its end; an error of
/// either step is given as the text it displays.
#[verifier::external_body]
fn inflate_zlib(data: &[u8]) -> (r: Result<Vec<u8>, String>)
    ensures
        bytes_or_message(r) == zlib_inflated(data@),
{
    let mut decoder = libflate::zlib::Decoder::new(data).map_err(|e| e.to_string())?;
    let mut out = Vec::new();
    std::io::Read::read_to_end(&mut decoder, &mut out).map_err(|e| e.to_string())?;
    Ok(out)
}

/// `libflate::gzip::Decoder::new` on the bytes, read to its end; an error of
/// either step is given as the text it displays.
#[verifier::external_body]
fn inflate_gzip(data: &[u8]) -> (r: Result<Vec<u8>, String>)
    ensures
        bytes_or_message(r) == gzip_inflated(data@),
{
    let mut decoder = libflate::gzip::Decoder::new(data).map_err(|e| e.to_string())?;
    let mut out = Vec::new();
    std::io::Read::read_to_end(&mut decoder, &mut out).map_err(|e| e.to_string())?;
    Ok(out)
}

/// How the text of a `data` element writes its cells.
#[derive(Debug, PartialEq, Eq, Clone, Copy, Structural)]
pub enum Packing {
    /// Numbers separated by commas, a row to a line.
    Csv,
    /// Four bytes to a cell, in base64.
    Base64,
    /// Four bytes to a cell, deflated in a zlib stream, in base64.
    Base64Zlib,
    /// Four bytes to a cell, deflated in a gzip stream, in base64.
    Base64Gzip,
}

/// The packing that the attributes `encoding` and `compression` name.
pub open spec fn packing_of(attrs: Seq<AttributeView>) -> Result<Packing, ErrorView> {
    match (attr_value(attrs, "encoding"@), attr_value(attrs, "compression"@)) {
        (None, None) => Err(ErrorView::Other("XML format is currently not supported"@)),
        (None, Some(_)) => Err(ErrorView::Other("Missing encoding format"@)),
        (Some(e), None) => if e == "csv"@ {
            Ok(Packing::Csv)
        } else if e == "base64"@ {
            Ok(Packing::Base64)
        } else {
            Err(ErrorView::Other("Unknown encoding format"@))
        },
        (Some(e), Some(c)) => if e == "base64"@ && c == "zlib"@ {
            Ok(Packing::Base64Zlib)
        } else if e == "base64"@ && c == "gzip"@ {
            Ok(Packing::Base64Gzip)
        } else {
            Err(ErrorView::Other("Unknown combination of encoding and compression"@))
        },
    }
}

/// Reads the packing off the attributes of a `data` element.
pub fn packing(attrs: &Vec<Attribute>) -> (r: Result<Packing, TiledError>)
    ensures
        crate::error::plain(r) == packing_of(views(attrs@)),
{
    match (find_attr(attrs, "encoding"), find_attr(attrs, "compression")) {
        (None, None) => Err(TiledError::Other("XML format is currently not supported".to_owned())),
        (None, Some(_)) => Err(TiledError::Other("Missing encoding format".to_owned())),
        (Some(e), None) => {
            if str_eq(e.as_str(), "csv") {
                Ok(Packing::Csv)
            } else if str_eq(e.as_str(), "base64") {
                Ok(Packing::Base64)
            } else {
                Err(TiledError::Other("Unknown encoding format".to_owned()))
            }
        },
        (Some(e), Some(c)) => {
            if str_eq(e.as_str(), "base64") && str_eq(c.as_str(), "zlib") {
                Ok(Packing::Base64Zlib)
            } else if str_eq(e.as_str(), "base64") && str_eq(c.as_str(), "gzip") {
                Ok(Packing::Base64Gzip)
            } else {
                Err(
                    TiledError::Other(
                        "Unknown combination of encoding and compression".to_owned(),
                    ),
                )
            }
        },
    }
}

/// The error for bytes that do not fill whole rows of whole cells.
pub open spec fn ragged() -> ErrorView {
    ErrorView::Other("Tile data does not fill whole rows"@)
}

/// The error for comma-separated text that cannot be read.
pub open spec fn bad_csv() -> ErrorView {
    ErrorView::Other("Tile data is not a list of numbers"@)
}

/// The rows of `width` cells that unpacked bytes write. The bytes must make
/// whole cells, and the cells whole rows.
pub open spec fn grid(data: Seq<u8>, width: u32) -> Result<Seq<Seq<LayerTile>>, ErrorView> {
    let cells = cells_of_bytes(data);
    if data.len() % 4 != 0 {
        Err(ragged())
    } else if width == 0 {
        if cells.len() > 0 {
            Err(ragged())
        } else {
            Ok(Seq::empty())
        }
    } else if cells.len() % (width as nat) != 0 {
        Err(ragged())
    } else {
        Ok(rows_of(cells, width as nat))
    }
}

/// The rows as ghost data, or the error.
pub open spec fn rows_result(r: Result<Vec<Vec<LayerTile>>, TiledError>) -> Result<
    Seq<Seq<LayerTile>>,
    ErrorView,
> {
    match r {
        Ok(rows) => Ok(rows_view(rows@)),
        Err(e) => Err(e@),
    }
}

/// Cuts unpacked bytes into rows of cells. Every row has `width` cells.
pub fn make_grid(data: &Vec<u8>, width: u32) -> (r: Result<Vec<Vec<LayerTile>>, TiledError>)
    ensures
        rows_result(r) == grid(data@, width),
        r matches Ok(rows) ==> forall|i: int|
            0 <= i < rows@.len() ==> (#[trigger] rows@[i])@.len() == width,
{
    if data.len() % 4 != 0 {
        return Err(TiledError::Other("Tile data does not fill whole rows".to_owned()));
    }
    let cells = unpack_cells(data);
    let w: usize = width as usize;
    if w == 0 {
        if cells.len() > 0 {
            Err(TiledError::Other("Tile data does not fill whole rows".to_owned()))
        } else {
            let rows: Vec<Vec<LayerTile>> = Vec::new();
            assert(rows_view(rows@) =~= Seq::<Seq<LayerTile>>::empty());
            Ok(rows)
        }
    } else if cells.len() % w != 0 {
        Err(TiledError::Other("Tile data does not fill whole rows".to_owned()))
    } else {
        let rows = cut_rows(&cells, w);
        proof {
            lemma_rows_are_full(cells@, w as nat);
            assert forall|i: int| 0 <= i < rows@.len() implies (#[trigger] rows@[i])@.len()
                == width by {
                assert(rows_view(rows@)[i] == rows@[i]@);
            }
        }
        Ok(rows)
    }
}

/// The bytes that a base64 text stands for, inflated where the packing says so.
pub open spec fn unpacked_bytes(packing: Packing, text: Seq<char>) -> Result<Seq<u8>, ErrorView> {
    match base64_decoded(trimmed(encode_utf8(text))) {
        Err(message) => Err(ErrorView::Base64DecodingError(message)),
        Ok(bytes) => match packing {
            Packing::Base64Zlib => match zlib_inflated(bytes) {
                Err(message) => Err(ErrorView::DecompressingError(message)),
                Ok(data) => Ok(data),
            },
            Packing::Base64Gzip => match gzip_inflated(bytes) {
                Err(message) => Err(ErrorView::DecompressingError(message)),
                Ok(data) => Ok(data),
            },
            _ => Ok(bytes),
        },
    }
}

/// The rows of cells that a text writes under a packing, for rows of `width`
/// cells. Comma-separated text sets its own rows, a row to a line.
pub open spec fn unpacked(packing: Packing, text: Seq<char>, width: u32) -> Result<
    Seq<Seq<LayerTile>>,
    ErrorView,
> {
    match packing {
        Packing::Csv => match csv_rows(text) {
            Some(rows) => Ok(rows),
            None => Err(bad_csv()),
        },
        _ => match unpacked_bytes(packing, text) {
            Err(e) => Err(e),
            Ok(data) => grid(data, width),
        },
    }
}

/// Unpacks the text of a `data` element.
pub fn unpack(packing: Packing, text: &str, width: u32) -> (r: Result<
    Vec<Vec<LayerTile>>,
    TiledError,
>)
    ensures
        rows_result(r) == unpacked(packing, text@, width),
{
    match packing {
        Packing::Csv => match parse_csv(text) {
            Some(rows) => Ok(rows),
            None => Err(TiledError::Other("Tile data is not a list of numbers".to_owned())),
        },
        _ => {
            let bytes = match decode_base64(trim(text.as_bytes())) {
                Ok(bytes) => bytes,
                Err(message) => {
                    return Err(TiledError::Base64DecodingError(message));
                },
            };
            let data = match packing {
                Packing::Base64Zlib => match inflate_zlib(bytes.as_slice()) {
                    Ok(data) => data,
                    Err(message) => {
                        return Err(TiledError::DecompressingError(message));
                    },
                },
                Packing::Base64Gzip => match inflate_gzip(bytes.as_slice()) {
                    Ok(data) => data,
                    Err(message) => {
                        return Err(TiledError::DecompressingError(message));
                    },
                },
                _ => bytes,
            };
            make_grid(&data, width)
        },
    }
}

/// The character data of the element `tag`, read from `pos`: the first run
/// of text before the element's end tag, or no text where the end tag comes
/// first; and the position after what was read.
#[verifier::opaque]
pub open spec fn data_text(events: Seq<EventView>, pos: int, tag: Seq<char>) -> Result<
    (Seq<char>, int),
    ErrorView,
>
    decreases events.len() - pos,
{
    match step_at(events, pos, tag) {
        StepView::Fail(e) => Err(e),
        StepView::Close => Ok((Seq::empty(), pos + 1)),
        _ => match events[pos] {
            EventView::Characters(text) => Ok((text, pos + 1)),
            _ => data_text(events, pos + 1, tag),
        },
    }
}

/// Finds the character data of the element `tag`.
pub fn read_text<'a>(events: &'a Vec<XmlEvent>, start: usize, tag: &str) -> (r: Result<
    (&'a str, usize),
    TiledError,
>)
    ensures
        match r {
            Ok((text, next)) => data_text(views(events@), start as int, tag@) == Ok::<
                (Seq<char>, int),
                ErrorView,
            >((text@, next as int)) && start < next <= events@.len(),
            Err(e) => data_text(views(events@), start as int, tag@) == Err::<
                (Seq<char>, int),
                ErrorView,
            >(e@),
        },
{
    let ghost ev = views(events@);
    let mut pos: usize = start;
    loop
        invariant
            start <= pos,
            ev == views(events@),
            data_text(ev, pos as int, tag@) == data_text(ev, start as int, tag@),
        decreases events@.len() - pos,
    {
        proof {
            reveal(data_text);
        }
        match step(events, pos, tag) {
            Step::Fail(e) => {
                return Err(e);
            },
            Step::Close => {
                let nothing: &'a str = "";
                assert(nothing@ =~= Seq::<char>::empty()) by {
                    reveal_strlit("");
                }
                return Ok((nothing, pos + 1));
            },
            _ => {
                assert(ev[pos as int] == events@[pos as int]@);
                match &events[pos] {
                    XmlEvent::Characters(text) => {
                        return Ok((text.as_str(), pos + 1));
                    },
                    _ => {
                        pos += 1;
                    },
                }
            },
        }
    }
}

/// The rows of cells of the element `tag` with the attributes `attrs`, whose
/// start tag is followed by the event at `pos`, and the position after what
/// was read of it.
#[verifier::opaque]
pub open spec fn tile_grid(
    events: Seq<EventView>,
    pos: int,
    attrs: Seq<AttributeView>,
    width: u32,
    tag: Seq<char>,
) -> Result<(Seq<Seq<LayerTile>>, int), ErrorView> {
    match packing_of(attrs) {
        Err(e) => Err(e),
        Ok(packing) => match data_text(events, pos, tag) {
            Err(e) => Err(e),
            Ok((text, next)) => match unpacked(packing, text, width) {
                Err(e) => Err(e),
                Ok(rows) => Ok((rows, next)),
            },
        },
    }
}

/// Reads the cells of a `data` or `chunk` element.
pub fn read_grid(
    events: &Vec<XmlEvent>,
    start: usize,
    attrs: &Vec<Attribute>,
    width: u32,
    tag: &str,
) -> (r: Result<(Vec<Vec<LayerTile>>, usize), TiledError>)
    ensures
        match r {
            Ok((rows, next)) => tile_grid(views(events@), start as int, views(attrs@), width, tag@)
                == Ok::<(Seq<Seq<LayerTile>>, int), ErrorView>((rows_view(rows@), next as int))
                && start < next <= events@.len(),
            Err(e) => tile_grid(views(events@), start as int, views(attrs@), width, tag@) == Err::<
                (Seq<Seq<LayerTile>>, int),
                ErrorView,
            >(e@),
        },
{
    proof {
        reveal(tile_grid);
    }
    let packing = packing(attrs)?;
    let (text, next) = read_text(events, start, tag)?;
    let rows = unpack(packing, text, width)?;
    Ok((rows, next))
}

} // verus!
