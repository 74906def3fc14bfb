//! A one-sheet spreadsheet (`.xlsx`) of text cells, as the ticket export writes it.

use vstd::prelude::*;
use crate::ext::{zip_archive, zip_entries, zip_finish, zip_new, zip_start_file, zip_write_text, MemZip};
use crate::text::{chars, extend, extend_str, fmt_u64, nat_digits, to_string};

verus! {

/// The text with `&`, `<` and `>` written as XML entities.
pub open spec fn xml_escape(s: Seq<char>) -> Seq<char>
    decreases s.len(),
{
    if s.len() == 0 {
        Seq::empty()
    } else {
        let c = s.last();
        xml_escape(s.drop_last()) + if c == '&' {
            "&amp;"@
        } else if c == '<' {
            "&lt;"@
        } else if c == '>' {
            "&gt;"@
        } else {
            seq![c]
        }
    }
}

/// Column `c` (from 0) can be named: `A`..`Z`, then two letters whose first byte
/// stays within `u8`.
pub open spec fn column_ok(c: nat) -> bool {
    c < 26 || ((c / 26 - 1) as nat) % 256 <= 190
}

/// The column's name: one letter under 26, else two characters.
pub open spec fn column_name(c: nat) -> Seq<char> {
    if c < 26 {
        seq![(65 + c) as char]
    } else {
        seq![(65 + ((c / 26 - 1) as nat) % 256) as char, (65 + c % 26) as char]
    }
}

pub open spec fn cell_xml(row: nat, col: nat, v: Seq<char>) -> Seq<char> {
    "<c r=\""@ + column_name(col) + nat_digits(row) + "\" t=\"inlineStr\"><is><t>"@ + xml_escape(v) + "</t></is></c>"@
}

pub open spec fn cells_xml(row: nat, vals: Seq<Seq<char>>) -> Seq<char>
    decreases vals.len(),
{
    if vals.len() == 0 {
        Seq::empty()
    } else {
        cells_xml(row, vals.drop_last()) + cell_xml(row, (vals.len() - 1) as nat, vals.last())
    }
}

pub open spec fn rows_xml(rows: Seq<Seq<Seq<char>>>) -> Seq<char>
    decreases rows.len(),
{
    if rows.len() == 0 {
        Seq::empty()
    } else {
        let n = rows.len();
        rows_xml(rows.drop_last()) + "<row r=\""@ + nat_digits(n) + "\">"@ + cells_xml(n, rows.last()) + "</row>"@
    }
}

pub open spec fn sheet_xml(rows: Seq<Seq<Seq<char>>>) -> Seq<char> {
    "<?xml version=\"1.0\" encoding=\"UTF-8\"?><worksheet xmlns=\"http://schemas.openxmlformats.org/spreadsheetml/2006/main\"><sheetData>"@
        + rows_xml(rows) + "</sheetData></worksheet>"@
}

pub open spec fn rows_view(rows: Seq<Vec<String>>) -> Seq<Seq<Seq<char>>> {
    rows.map_values(|r: Vec<String>| crate::compliance::views(r@))
}

/// The widest row whose every column has a name: 4992 cells (the first unnamed
/// column is the 4993rd).
pub const MAX_COLUMNS: usize = 4992;

/// Every row fits within the named columns.
pub open spec fn columns_ok(rows: Seq<Vec<String>>) -> bool {
    forall|i: int| 0 <= i < rows.len() ==> (#[trigger] rows[i])@.len() <= MAX_COLUMNS
}

fn push_escaped_xml(out: &mut Vec<char>, s: &str)
    ensures
        final(out)@ == old(out)@ + xml_escape(s@),
{
    let v = chars(s);
    let ghost o0 = out@;
    let mut i: usize = 0;
    assert(v@.take(0) =~= Seq::<char>::empty());
    assert(out@ =~= o0 + xml_escape(v@.take(0)));
    while i < v.len()
        invariant
            i <= v@.len(),
            out@ == o0 + xml_escape(v@.take(i as int)),
        decreases v@.len() - i,
    {
        assert(v@.take(i + 1).drop_last() =~= v@.take(i as int));
        assert(v@.take(i + 1).last() == v@[i as int]);
        let c = v[i];
        if c == '&' {
            extend_str(out, "&amp;");
        } else if c == '<' {
            extend_str(out, "&lt;");
        } else if c == '>' {
            extend_str(out, "&gt;");
        } else {
            out.push(c);
        }
        assert(out@ =~= o0 + xml_escape(v@.take(i + 1)));
        i = i + 1;
    }
    assert(v@.take(v@.len() as int) =~= v@);
}

fn push_column_name(out: &mut Vec<char>, c: usize)
    requires
        column_ok(c as nat),
    ensures
        final(out)@ == old(out)@ + column_name(c as nat),
{
    let ghost o0 = out@;
    if c < 26 {
        let b: u8 = 65u8 + (c as u8);
        out.push(b as char);
    } else {
        let hi: u8 = ((c / 26 - 1) % 256) as u8;
        let lo: u8 = (c % 26) as u8;
        out.push((65u8 + hi) as char);
        out.push((65u8 + lo) as char);
    }
    assert(out@ =~= o0 + column_name(c as nat));
}

fn push_row(out: &mut Vec<char>, r: usize, row: &Vec<String>)
    requires
        r >= 1,
        row@.len() <= MAX_COLUMNS,
    ensures
        final(out)@ == old(out)@ + cells_xml(r as nat, crate::compliance::views(row@)),
{
    let ghost o0 = out@;
    let ghost vals = crate::compliance::views(row@);
    let mut c: usize = 0;
    assert(vals.take(0) =~= Seq::<Seq<char>>::empty());
    assert(out@ =~= o0 + cells_xml(r as nat, vals.take(0)));
    while c < row.len()
        invariant
            c <= row@.len(),
            r >= 1,
            vals == crate::compliance::views(row@),
            row@.len() <= MAX_COLUMNS,
            out@ == o0 + cells_xml(r as nat, vals.take(c as int)),
        decreases row@.len() - c,
    {
        assert(vals.take(c + 1).drop_last() =~= vals.take(c as int));
        assert(vals.take(c + 1).last() == row@[c as int]@);
        let ghost before = out@;
        assert(column_ok(c as nat)) by {
            if c >= 26 {
                assert((c as nat) / 26 <= 191);
            }
        }
        extend_str(out, "<c r=\"");
        push_column_name(out, c);
        extend(out, &fmt_u64(r as u64));
        extend_str(out, "\" t=\"inlineStr\"><is><t>");
        push_escaped_xml(out, row[c].as_str());
        extend_str(out, "</t></is></c>");
        assert(out@ =~= before + cell_xml(r as nat, c as nat, row@[c as int]@));
        assert(out@ =~= o0 + cells_xml(r as nat, vals.take(c + 1)));
        c = c + 1;
    }
    assert(vals.take(row@.len() as int) =~= vals);
}

/// The worksheet of the rows: one XML row per row, one inline-text cell per value.
pub fn xlsx_sheet(rows: &[Vec<String>]) -> (r: String)
    requires
        columns_ok(rows@),
    ensures
        r@ == sheet_xml(rows_view(rows@)),
{
    let ghost rv = rows_view(rows@);
    let mut out = chars(
        "<?xml version=\"1.0\" encoding=\"UTF-8\"?><worksheet xmlns=\"http://schemas.openxmlformats.org/spreadsheetml/2006/main\"><sheetData>",
    );
    let ghost o0 = out@;
    let mut i: usize = 0;
    assert(rv.take(0) =~= Seq::<Seq<Seq<char>>>::empty());
    assert(out@ =~= o0 + rows_xml(rv.take(0)));
    while i < rows.len()
        invariant
            i <= rows@.len(),
            rv == rows_view(rows@),
            columns_ok(rows@),
            out@ == o0 + rows_xml(rv.take(i as int)),
        decreases rows@.len() - i,
    {
        assert(rv.take(i + 1).drop_last() =~= rv.take(i as int));
        assert(rv.take(i + 1).last() == crate::compliance::views(rows@[i as int]@));
        assert(rows@[i as int]@.len() <= MAX_COLUMNS);
        let ghost before = out@;
        extend_str(&mut out, "<row r=\"");
        extend(&mut out, &fmt_u64((i + 1) as u64));
        extend_str(&mut out, "\">");
        push_row(&mut out, i + 1, &rows[i]);
        extend_str(&mut out, "</row>");
        assert(out@ =~= o0 + rows_xml(rv.take(i + 1)));
        i = i + 1;
    }
    assert(rv.take(rows@.len() as int) =~= rv);
    extend_str(&mut out, "</sheetData></worksheet>");
    assert(out@ =~= sheet_xml(rv));
    to_string(&out)
}

pub open spec fn content_types_xml() -> Seq<char> {
    "<?xml version=\"1.0\"?><Types xmlns=\"http://schemas.openxmlformats.org/package/2006/content-types\"><Default Extension=\"rels\" ContentType=\"application/vnd.openxmlformats-package.relationships+xml\"/><Default Extension=\"xml\" ContentType=\"application/xml\"/><Override PartName=\"/xl/workbook.xml\" ContentType=\"application/vnd.openxmlformats-officedocument.spreadsheetml.sheet.main+xml\"/><Override PartName=\"/xl/worksheets/sheet1.xml\" ContentType=\"application/vnd.openxmlformats-officedocument.spreadsheetml.worksheet+xml\"/></Types>"@
}

pub open spec fn root_rels_xml() -> Seq<char> {
    "<?xml version=\"1.0\"?><Relationships xmlns=\"http://schemas.openxmlformats.org/package/2006/relationships\"><Relationship Id=\"rId1\" Type=\"http://schemas.openxmlformats.org/officeDocument/2006/relationships/officeDocument\" Target=\"xl/workbook.xml\"/></Relationships>"@
}

pub open spec fn workbook_xml() -> Seq<char> {
    "<?xml version=\"1.0\"?><workbook xmlns=\"http://schemas.openxmlformats.org/spreadsheetml/2006/main\" xmlns:r=\"http://schemas.openxmlformats.org/officeDocument/2006/relationships\"><sheets><sheet name=\"Chamados\" sheetId=\"1\" r:id=\"rId1\"/></sheets></workbook>"@
}

pub open spec fn workbook_rels_xml() -> Seq<char> {
    "<?xml version=\"1.0\"?><Relationships xmlns=\"http://schemas.openxmlformats.org/package/2006/relationships\"><Relationship Id=\"rId1\" Type=\"http://schemas.openxmlformats.org/officeDocument/2006/relationships/worksheet\" Target=\"worksheets/sheet1.xml\"/></Relationships>"@
}

/// The files of the workbook, in the order they are written.
pub open spec fn xlsx_parts(rows: Seq<Seq<Seq<char>>>) -> Seq<(Seq<char>, Seq<char>)> {
    seq![
        ("[Content_Types].xml"@, content_types_xml()),
        ("_rels/.rels"@, root_rels_xml()),
        ("xl/workbook.xml"@, workbook_xml()),
        ("xl/_rels/workbook.xml.rels"@, workbook_rels_xml()),
        ("xl/worksheets/sheet1.xml"@, sheet_xml(rows)),
    ]
}

/// Adds one file to the archive: where the zip writer starts and fills it, the
/// archive holds one more file, of this name and text. It does where the name is
/// new to the archive and every file, this one included, is within the writer's
/// size limit.
fn add_part(z: &mut MemZip, name: &str, content: &str) -> (r: Result<(), String>)
    requires
        crate::text::utf8_len(name@) <= 65535,
    ensures
        r is Ok ==> zip_entries(*final(z)) == zip_entries(*old(z)).push((name@, content@)),
        !crate::ext::zip_has_name(zip_entries(*old(z)), name@) && crate::ext::zip_texts_fit(zip_entries(*old(z)))
            && crate::text::utf8_len(content@) <= crate::ext::zip_text_limit() ==> r is Ok,
{
    let ghost e0 = zip_entries(*z);
    match zip_start_file(z, name) {
        Ok(()) => {},
        Err(e) => {
            return Err(e);
        },
    }
    proof {
        let e1 = zip_entries(*z);
        assert(e1.last().1 + content@ =~= content@);
        if crate::ext::zip_texts_fit(e0) {
            assert forall|i: int| 0 <= i < e1.len() implies crate::text::utf8_len((#[trigger] e1[i]).1)
                <= crate::ext::zip_text_limit() by {
                if i < e0.len() {
                    assert(e1[i] == e0[i]);
                }
            }
        }
    }
    let r = zip_write_text(z, content);
    proof {
        if r is Ok {
            assert(zip_entries(*z) =~= e0.push((name@, content@)));
        }
    }
    r
}

proof fn lemma_utf8_len_bound(s: Seq<char>)
    ensures
        crate::text::utf8_len(s) <= 4 * s.len(),
    decreases s.len(),
{
    if s.len() > 0 {
        lemma_utf8_len_bound(s.drop_last());
    }
}

/// Adding a file of a new name that fits keeps every file of the archive within the
/// limit.
proof fn lemma_fit_push(e: Seq<(Seq<char>, Seq<char>)>, name: Seq<char>, text: Seq<char>)
    requires
        crate::ext::zip_texts_fit(e),
        crate::text::utf8_len(text) <= crate::ext::zip_text_limit(),
    ensures
        crate::ext::zip_texts_fit(e.push((name, text))),
{
    let f = e.push((name, text));
    assert forall|i: int| 0 <= i < f.len() implies crate::text::utf8_len((#[trigger] f[i]).1)
        <= crate::ext::zip_text_limit() by {
        if i < e.len() {
            assert(f[i] == e[i]);
        }
    }
}

/// The four fixed files of the workbook are small, and the five file names are
/// told apart by their lengths.
proof fn lemma_fixed_parts()
    ensures
        crate::text::utf8_len(content_types_xml()) <= 65535,
        crate::text::utf8_len(root_rels_xml()) <= 65535,
        crate::text::utf8_len(workbook_xml()) <= 65535,
        crate::text::utf8_len(workbook_rels_xml()) <= 65535,
        "[Content_Types].xml"@.len() == 19 && crate::text::utf8_len("[Content_Types].xml"@) <= 65535,
        "_rels/.rels"@.len() == 11 && crate::text::utf8_len("_rels/.rels"@) <= 65535,
        "xl/workbook.xml"@.len() == 15 && crate::text::utf8_len("xl/workbook.xml"@) <= 65535,
        "xl/_rels/workbook.xml.rels"@.len() == 26 && crate::text::utf8_len("xl/_rels/workbook.xml.rels"@) <= 65535,
        "xl/worksheets/sheet1.xml"@.len() == 24 && crate::text::utf8_len("xl/worksheets/sheet1.xml"@) <= 65535,
{
    reveal_strlit("[Content_Types].xml");
    lemma_utf8_len_bound("[Content_Types].xml"@);
    reveal_strlit("_rels/.rels");
    lemma_utf8_len_bound("_rels/.rels"@);
    reveal_strlit("xl/workbook.xml");
    lemma_utf8_len_bound("xl/workbook.xml"@);
    reveal_strlit("xl/_rels/workbook.xml.rels");
    lemma_utf8_len_bound("xl/_rels/workbook.xml.rels"@);
    reveal_strlit("xl/worksheets/sheet1.xml");
    lemma_utf8_len_bound("xl/worksheets/sheet1.xml"@);
    reveal_strlit("<?xml version=\"1.0\"?><Types xmlns=\"http://schemas.openxmlformats.org/package/2006/content-types\"><Default Extension=\"rels\" ContentType=\"application/vnd.openxmlformats-package.relationships+xml\"/><Default Extension=\"xml\" ContentType=\"application/xml\"/><Override PartName=\"/xl/workbook.xml\" ContentType=\"application/vnd.openxmlformats-officedocument.spreadsheetml.sheet.main+xml\"/><Override PartName=\"/xl/worksheets/sheet1.xml\" ContentType=\"application/vnd.openxmlformats-officedocument.spreadsheetml.worksheet+xml\"/></Types>");
    lemma_utf8_len_bound(content_types_xml());
    reveal_strlit("<?xml version=\"1.0\"?><Relationships xmlns=\"http://schemas.openxmlformats.org/package/2006/relationships\"><Relationship Id=\"rId1\" Type=\"http://schemas.openxmlformats.org/officeDocument/2006/relationships/officeDocument\" Target=\"xl/workbook.xml\"/></Relationships>");
    lemma_utf8_len_bound(root_rels_xml());
    reveal_strlit("<?xml version=\"1.0\"?><workbook xmlns=\"http://schemas.openxmlformats.org/spreadsheetml/2006/main\" xmlns:r=\"http://schemas.openxmlformats.org/officeDocument/2006/relationships\"><sheets><sheet name=\"Chamados\" sheetId=\"1\" r:id=\"rId1\"/></sheets></workbook>");
    lemma_utf8_len_bound(workbook_xml());
    reveal_strlit("<?xml version=\"1.0\"?><Relationships xmlns=\"http://schemas.openxmlformats.org/package/2006/relationships\"><Relationship Id=\"rId1\" Type=\"http://schemas.openxmlformats.org/officeDocument/2006/relationships/worksheet\" Target=\"worksheets/sheet1.xml\"/></Relationships>");
    lemma_utf8_len_bound(workbook_rels_xml());
}

/// The workbook of the rows, as `.xlsx` bytes: the archive of its five files, in
/// order. It is written whenever the sheet's XML is within the writer's size limit
/// (2 GiB, well below zip's 4 GiB); past that it may fail with the writer's error.
pub fn xlsx_bytes(rows: &[Vec<String>]) -> (r: Result<Vec<u8>, String>)
    requires
        columns_ok(rows@),
    ensures
        r matches Ok(b) ==> b@ == zip_archive(xlsx_parts(rows_view(rows@))),
        crate::text::utf8_len(sheet_xml(rows_view(rows@))) <= crate::ext::zip_text_limit() ==> r is Ok,
{
    let sheet = xlsx_sheet(rows);
    let ghost parts = xlsx_parts(rows_view(rows@));
    proof {
        lemma_fixed_parts();
    }
    let mut z = zip_new();
    assert(zip_entries(z) =~= parts.take(0));
    add_part(&mut z, "[Content_Types].xml", "<?xml version=\"1.0\"?><Types xmlns=\"http://schemas.openxmlformats.org/package/2006/content-types\"><Default Extension=\"rels\" ContentType=\"application/vnd.openxmlformats-package.relationships+xml\"/><Default Extension=\"xml\" ContentType=\"application/xml\"/><Override PartName=\"/xl/workbook.xml\" ContentType=\"application/vnd.openxmlformats-officedocument.spreadsheetml.sheet.main+xml\"/><Override PartName=\"/xl/worksheets/sheet1.xml\" ContentType=\"application/vnd.openxmlformats-officedocument.spreadsheetml.worksheet+xml\"/></Types>")?;
    assert(zip_entries(z) =~= parts.take(1));
    add_part(&mut z, "_rels/.rels", "<?xml version=\"1.0\"?><Relationships xmlns=\"http://schemas.openxmlformats.org/package/2006/relationships\"><Relationship Id=\"rId1\" Type=\"http://schemas.openxmlformats.org/officeDocument/2006/relationships/officeDocument\" Target=\"xl/workbook.xml\"/></Relationships>")?;
    assert(zip_entries(z) =~= parts.take(2));
    add_part(&mut z, "xl/workbook.xml", "<?xml version=\"1.0\"?><workbook xmlns=\"http://schemas.openxmlformats.org/spreadsheetml/2006/main\" xmlns:r=\"http://schemas.openxmlformats.org/officeDocument/2006/relationships\"><sheets><sheet name=\"Chamados\" sheetId=\"1\" r:id=\"rId1\"/></sheets></workbook>")?;
    assert(zip_entries(z) =~= parts.take(3));
    add_part(&mut z, "xl/_rels/workbook.xml.rels", "<?xml version=\"1.0\"?><Relationships xmlns=\"http://schemas.openxmlformats.org/package/2006/relationships\"><Relationship Id=\"rId1\" Type=\"http://schemas.openxmlformats.org/officeDocument/2006/relationships/worksheet\" Target=\"worksheets/sheet1.xml\"/></Relationships>")?;
    assert(zip_entries(z) =~= parts.take(4));
    add_part(&mut z, "xl/worksheets/sheet1.xml", sheet.as_str())?;
    assert(zip_entries(z) =~= parts);
    zip_finish(z)
}

/// A cell's text cannot open or close XML markup: its escaped form holds no `<` and
/// no `>`.
pub proof fn law_escaped_text_has_no_markup(s: Seq<char>)
    ensures
        !xml_escape(s).contains('<'),
        !xml_escape(s).contains('>'),
    decreases s.len(),
{
    if s.len() > 0 {
        law_escaped_text_has_no_markup(s.drop_last());
        let c = s.last();
        let tail: Seq<char> = if c == '&' {
            "&amp;"@
        } else if c == '<' {
            "&lt;"@
        } else if c == '>' {
            "&gt;"@
        } else {
            seq![c]
        };
        reveal_strlit("&amp;");
        reveal_strlit("&lt;");
        reveal_strlit("&gt;");
        let e = xml_escape(s);
        let p = xml_escape(s.drop_last());
        assert(e =~= p + tail);
        assert forall|i: int| 0 <= i < e.len() implies e[i] != '<' && e[i] != '>' by {
            if i < p.len() {
                assert(e[i] == p[i]);
            } else {
                assert(e[i] == tail[i - p.len()]);
            }
        }
    }
}

} // verus!
