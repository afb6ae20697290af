use schedule_bot::date::Date;
use schedule_bot::grid::{Cell, Grid};
use schedule_bot::groups::GroupTable;
use schedule_bot::schedule::{fetch_schedule, find_sheet, render_day, try_fetch_schedule};
use schedule_bot::update::week_groups;
use schedule_bot::workbook::Workbook;
use calamine::Reader;
use std::io::{Cursor, Write};

fn date(year: i32, month: u32, day: u32) -> Date {
    Date::from_ymd_opt(year, month, day).unwrap()
}

/// Opens the workbook of the file bytes `data` and reads every sheet.
fn open(data: Vec<u8>) -> Result<Workbook, calamine::Error> {
    let mut sheets = calamine::open_workbook_auto_from_rs(Cursor::new(data))?;
    let mut book = Workbook::new();
    for name in sheets.sheet_names() {
        let range = sheets.worksheet_range(&name).ok();
        book.push_sheet(name, range);
    }
    Ok(book)
}

fn column_letter(col: usize) -> String {
    let mut n = col + 1;
    let mut s = Vec::new();
    while n > 0 {
        let r = (n - 1) % 26;
        s.push((b'A' + r as u8) as char);
        n = (n - 1) / 26;
    }
    s.iter().rev().collect()
}

enum V {
    T(&'static str),
    N(&'static str),
}

/// The bytes of an xlsx file with the given sheets, each a list of
/// (row, column, value) cells, rows and columns counted from 0.
fn xlsx(sheets: &[(&str, Vec<(usize, usize, V)>)]) -> Vec<u8> {
    let mut zip = zip::ZipWriter::new(std::io::Cursor::new(Vec::new()));
    let opts = zip::write::SimpleFileOptions::default();
    let mut types = String::from(
        "<?xml version=\"1.0\" encoding=\"UTF-8\"?><Types xmlns=\"http://schemas.openxmlformats.org/package/2006/content-types\"><Default Extension=\"rels\" ContentType=\"application/vnd.openxmlformats-package.relationships+xml\"/><Default Extension=\"xml\" ContentType=\"application/xml\"/><Override PartName=\"/xl/workbook.xml\" ContentType=\"application/vnd.openxmlformats-officedocument.spreadsheetml.sheet.main+xml\"/>",
    );
    for i in 0..sheets.len() {
        types.push_str(&format!("<Override PartName=\"/xl/worksheets/sheet{}.xml\" ContentType=\"application/vnd.openxmlformats-officedocument.spreadsheetml.worksheet+xml\"/>", i + 1));
    }
    types.push_str("</Types>");
    zip.start_file("[Content_Types].xml", opts).unwrap();
    zip.write_all(types.as_bytes()).unwrap();
    zip.start_file("_rels/.rels", opts).unwrap();
    zip.write_all(b"<?xml version=\"1.0\" encoding=\"UTF-8\"?><Relationships xmlns=\"http://schemas.openxmlformats.org/package/2006/relationships\"><Relationship Id=\"rId1\" Type=\"http://schemas.openxmlformats.org/officeDocument/2006/relationships/officeDocument\" Target=\"xl/workbook.xml\"/></Relationships>").unwrap();
    let mut wb = String::from("<?xml version=\"1.0\" encoding=\"UTF-8\"?><workbook xmlns=\"http://schemas.openxmlformats.org/spreadsheetml/2006/main\" xmlns:r=\"http://schemas.openxmlformats.org/officeDocument/2006/relationships\"><sheets>");
    let mut rels = String::from("<?xml version=\"1.0\" encoding=\"UTF-8\"?><Relationships xmlns=\"http://schemas.openxmlformats.org/package/2006/relationships\">");
    for (i, (name, _)) in sheets.iter().enumerate() {
        wb.push_str(&format!("<sheet name=\"{}\" sheetId=\"{}\" r:id=\"rId{}\"/>", name, i + 1, i + 1));
        rels.push_str(&format!("<Relationship Id=\"rId{}\" Type=\"http://schemas.openxmlformats.org/officeDocument/2006/relationships/worksheet\" Target=\"worksheets/sheet{}.xml\"/>", i + 1, i + 1));
    }
    wb.push_str("</sheets></workbook>");
    rels.push_str("</Relationships>");
    zip.start_file("xl/workbook.xml", opts).unwrap();
    zip.write_all(wb.as_bytes()).unwrap();
    zip.start_file("xl/_rels/workbook.xml.rels", opts).unwrap();
    zip.write_all(rels.as_bytes()).unwrap();
    for (i, (_, cells)) in sheets.iter().enumerate() {
        let mut rows: Vec<(usize, Vec<(usize, &V)>)> = Vec::new();
        for (r, c, v) in cells {
            match rows.iter_mut().find(|(row, _)| row == r) {
                Some((_, cs)) => cs.push((*c, v)),
                None => rows.push((*r, vec![(*c, v)])),
            }
        }
        rows.sort_by_key(|(r, _)| *r);
        let mut xml = String::from("<?xml version=\"1.0\" encoding=\"UTF-8\"?><worksheet xmlns=\"http://schemas.openxmlformats.org/spreadsheetml/2006/main\"><sheetData>");
        for (r, mut cs) in rows {
            cs.sort_by_key(|(c, _)| *c);
            xml.push_str(&format!("<row r=\"{}\">", r + 1));
            for (c, v) in cs {
                let pos = format!("{}{}", column_letter(c), r + 1);
                match v {
                    V::T(t) => xml.push_str(&format!("<c r=\"{}\" t=\"inlineStr\"><is><t>{}</t></is></c>", pos, t)),
                    V::N(n) => xml.push_str(&format!("<c r=\"{}\"><v>{}</v></c>", pos, n)),
                }
            }
            xml.push_str("</row>");
        }
        xml.push_str("</sheetData></worksheet>");
        zip.start_file(format!("xl/worksheets/sheet{}.xml", i + 1), opts).unwrap();
        zip.write_all(xml.as_bytes()).unwrap();
    }
    zip.finish().unwrap().into_inner()
}

/// A week sheet: the group "ИСП-21" in column D, with Thursday's lessons.
fn week_cells() -> Vec<(usize, usize, V)> {
    vec![
        (0, 0, V::T("Расписание")),
        (4, 3, V::T("ИСП-21")),
        (4, 6, V::T("ИСП-22")),
        (25, 2, V::T("8:30-10:00")),
        (25, 3, V::T("Математика")),
        (25, 5, V::T("101/202")),
        (26, 4, V::T("Физика")),
        (27, 3, V::T("История")),
        (27, 5, V::N("305")),
        (28, 3, V::T("Химия")),
        (28, 5, V::T("спортзал")),
        (29, 3, V::N("7")),
    ]
}

fn odd_book() -> Vec<u8> {
    xlsx(&[("09.11 четная", vec![(4, 3, V::T("ИСП-21"))]), ("16.11 нечетная", week_cells())])
}

fn even_book() -> Vec<u8> {
    xlsx(&[("16.11 четная", week_cells())])
}

const THURSDAY_ODD: &str = "1: Время: <b>8:30-10:00</b>, Аудитория: <b>101</b> <blockquote>Математика</blockquote> \n3: Время: <b></b>, Аудитория: <b>305</b> <blockquote>История</blockquote> \n4: Время: <b></b>, Аудитория: <b></b> <blockquote>Химия</blockquote> \n";

const THURSDAY_EVEN: &str = "1: Время: <b>8:30-10:00</b>, Аудитория: <b>202</b> <blockquote>Математика</blockquote> \n2: Время: <b></b>, Аудитория: <b>Nodata</b> <blockquote>Физика</blockquote> \n3: Время: <b></b>, Аудитория: <b>305</b> <blockquote>История</blockquote> \n4: Время: <b></b>, Аудитория: <b></b> <blockquote>Химия</blockquote> \n";

#[test]
fn week_groups_of_the_week_sheet() {
    let book = open(odd_book()).unwrap();
    let groups = week_groups(&book, date(2026, 11, 19)).unwrap();
    assert_eq!(groups.get("исп-21"), Some((0, 3)));
    assert_eq!(groups.get("исп-22"), Some((0, 6)));
    assert_eq!(groups.get("ИСП-21"), None);
    assert!(!groups.contains("расписание"));
}

#[test]
fn week_groups_without_the_week_sheet() {
    let book = open(odd_book()).unwrap();
    assert!(week_groups(&book, date(2026, 12, 3)).is_none());
    assert!(week_groups(&Workbook::new(), date(2026, 11, 19)).is_none());
}

#[test]
fn week_groups_of_an_unreadable_week_sheet() {
    let mut book = Workbook::new();
    book.push_sheet("16.11 нечетная".to_string(), None);
    assert!(week_groups(&book, date(2026, 11, 19)).is_none());
}

#[test]
fn workbook_sheets_are_read() {
    let book = open(odd_book()).unwrap();
    assert_eq!(book.sheet_names(), &vec!["09.11 четная".to_string(), "16.11 нечетная".to_string()]);
    let sheet = book.worksheet(1).unwrap();
    assert_eq!(sheet.start, (0, 0));
    assert_eq!(sheet.get(25, 3), Some(&Cell::String("Математика".to_string())));
    assert_eq!(sheet.get(27, 5), Some(&Cell::Float("305".to_string())));
    assert_eq!(sheet.get(26, 3), Some(&Cell::Empty));
    assert_eq!(sheet.get(30, 0), None);
    let first = book.worksheet(0).unwrap();
    assert_eq!(first.start, (4, 3));
    assert_eq!(first.get(0, 0), Some(&Cell::String("ИСП-21".to_string())));
}

#[test]
fn fetch_in_an_odd_week() {
    let book = open(odd_book()).unwrap();
    let groups = week_groups(&book, date(2026, 11, 19)).unwrap();
    let book = Some(book);
    let answer = fetch_schedule(date(2026, 11, 19), "ИСП-21".to_string(), &groups, &book);
    assert_eq!(answer, Ok(THURSDAY_ODD.to_string()));
    let again = fetch_schedule(date(2026, 11, 19), "исп-21".to_string(), &groups, &book);
    assert_eq!(again, Ok(THURSDAY_ODD.to_string()));
}

#[test]
fn fetch_in_an_even_week() {
    let book = open(even_book()).unwrap();
    let groups = week_groups(&book, date(2026, 11, 16)).unwrap();
    let book = Some(book);
    let answer = fetch_schedule(date(2026, 11, 19), "Исп-21".to_string(), &groups, &book);
    assert_eq!(answer, Ok(THURSDAY_EVEN.to_string()));
}

#[test]
fn fetch_a_day_without_lessons() {
    let book = open(odd_book()).unwrap();
    let groups = week_groups(&book, date(2026, 11, 19)).unwrap();
    let book = Some(book);
    let answer = fetch_schedule(date(2026, 11, 16), "ИСП-21".to_string(), &groups, &book);
    assert_eq!(answer, Ok(String::new()));
}

#[test]
fn fetch_on_a_sunday() {
    let groups = GroupTable::new();
    let book = None;
    assert_eq!(fetch_schedule(date(2026, 11, 22), "кто угодно".to_string(), &groups, &book), Ok("Выходной".to_string()));
}

#[test]
fn fetch_for_an_unknown_group() {
    let book = open(odd_book()).unwrap();
    let groups = week_groups(&book, date(2026, 11, 19)).unwrap();
    let book = Some(book);
    assert_eq!(fetch_schedule(date(2026, 11, 19), "ИСП-99".to_string(), &groups, &book), Err("Группа не найдена".to_string()));
}

#[test]
fn fetch_without_a_workbook() {
    let book = open(odd_book()).unwrap();
    let groups = week_groups(&book, date(2026, 11, 19)).unwrap();
    let none = None;
    assert_eq!(fetch_schedule(date(2026, 11, 19), "ИСП-21".to_string(), &groups, &none), Err("500 Internal Server Error".to_string()));
}

#[test]
fn fetch_for_a_week_without_a_sheet() {
    let book = open(odd_book()).unwrap();
    let groups = week_groups(&book, date(2026, 11, 19)).unwrap();
    let book = Some(book);
    assert_eq!(fetch_schedule(date(2026, 11, 26), "ИСП-21".to_string(), &groups, &book), Err("500 Internal Server Error".to_string()));
}

#[test]
fn try_fetch_at_the_start_of_chrono_range() {
    let book = open(odd_book()).unwrap();
    let groups = week_groups(&book, date(2026, 11, 19)).unwrap();
    let book = Some(book);
    let earliest = date(-262143, 1, 1);
    assert!(earliest.week_start().is_none());
    assert_eq!(try_fetch_schedule(earliest, "ИСП-21".to_string(), &groups, &book), None);
    assert_eq!(try_fetch_schedule(earliest, "ИСП-99".to_string(), &groups, &book), Some(Err("Группа не найдена".to_string())));
    assert_eq!(try_fetch_schedule(date(2026, 11, 22), "ИСП-21".to_string(), &groups, &book), Some(Ok("Выходной".to_string())));
}

fn grid(cells: &[(usize, usize, Cell)]) -> Grid {
    let mut rows = vec![vec![Cell::Empty; 8]; 40];
    for (r, c, v) in cells {
        rows[*r][*c] = v.clone();
    }
    Grid::new((0, 0), rows).unwrap()
}

#[test]
fn render_monday_lessons() {
    let g = grid(&[
        (7, 2, Cell::String("8:00".to_string())),
        (7, 3, Cell::String("Алгебра".to_string())),
        (7, 5, Cell::Int(-12)),
        (8, 3, Cell::Int(5)),
        (9, 3, Cell::String("Логика".to_string())),
        (9, 5, Cell::Other),
        (11, 3, Cell::String("Право".to_string())),
        (11, 5, Cell::String("a/b/c".to_string())),
        (12, 3, Cell::String("вне дня".to_string())),
    ]);
    assert_eq!(
        render_day(&g, "нечетная", 0, 3),
        "1: Время: <b>8:00</b>, Аудитория: <b>-12</b> <blockquote>Алгебра</blockquote> \n3: Время: <b></b>, Аудитория: <b>Nodata</b> <blockquote>Логика</blockquote> \n5: Время: <b></b>, Аудитория: <b>a</b> <blockquote>Право</blockquote> \n"
    );
    assert_eq!(
        render_day(&g, "четная", 0, 3),
        "1: Время: <b>8:00</b>, Аудитория: <b>-12</b> <blockquote>Алгебра</blockquote> \n3: Время: <b></b>, Аудитория: <b>Nodata</b> <blockquote>Логика</blockquote> \n5: Время: <b></b>, Аудитория: <b>b/c</b> <blockquote>Право</blockquote> \n"
    );
}

#[test]
fn render_at_the_right_edge() {
    let g = grid(&[(37, 7, Cell::String("Последняя".to_string()))]);
    assert_eq!(
        render_day(&g, "x", 5, 7),
        "1: Время: <b></b>, Аудитория: <b>Nodata</b> <blockquote>Последняя</blockquote> \n"
    );
}

#[test]
fn groups_from_the_header_row() {
    let mut rows = vec![vec![Cell::Empty; 300]; 6];
    rows[4][1] = Cell::String("ИСП-21".to_string());
    rows[4][5] = Cell::String("исп-21".to_string());
    rows[4][7] = Cell::Int(3);
    rows[4][290] = Cell::String("Край".to_string());
    rows[4][291] = Cell::String("За краем".to_string());
    rows[3][2] = Cell::String("Не заголовок".to_string());
    let table = GroupTable::from_header(&Grid::new((0, 0), rows).unwrap());
    assert_eq!(table.get("исп-21"), Some((0, 5)));
    assert_eq!(table.get("край"), Some((0, 290)));
    assert!(!table.contains("за краем"));
    assert!(!table.contains("не заголовок"));
}

#[test]
fn header_row_is_a_sheet_position() {
    let mut rows = vec![vec![Cell::Empty; 10]; 3];
    rows[2][4] = Cell::String("Группа".to_string());
    let table = GroupTable::from_header(&Grid::new((2, 1), rows).unwrap());
    assert_eq!(table.get("группа"), Some((0, 5)));
}

#[test]
fn grids_are_rectangles() {
    assert!(Grid::new((0, 0), vec![vec![Cell::Empty], vec![]]).is_none());
    assert!(Grid::new((0, 0), vec![vec![]]).is_none());
    assert!(Grid::new((0, 0), vec![]).is_some());
    let g = Grid::new((3, 4), vec![vec![Cell::Int(1), Cell::Int(2)]]).unwrap();
    assert_eq!(g.get(0, 1), Some(&Cell::Int(2)));
    assert_eq!(g.get(0, 2), None);
    assert_eq!(g.at_position(3, 5), &Cell::Int(2));
    assert_eq!(g.at_position(0, 0), &Cell::Empty);
}

#[test]
fn first_sheet_holding_the_week() {
    let names = vec!["02.11".to_string(), "16.11 нечетная".to_string(), "16.11 копия".to_string()];
    assert_eq!(find_sheet(&names, "16.11"), Some(1));
    assert_eq!(find_sheet(&names, "23.11"), None);
}
