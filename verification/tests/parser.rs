use prokuro::parser::columns::{detect_column_offset, map_columns, ColumnMapping};
use prokuro::parser::compound::workbook_can_be_opened;
use prokuro::parser::csv::{decode_csv_bytes, read_csv, UNSUPPORTED_ENCODING_MESSAGE};
use prokuro::parser::header::find_header_row;
use prokuro::parser::ingest;
use prokuro::parser::package::package_is_plain;
use prokuro::parser::pipeline::{parse_file, parse_grid, try_parse_file, ParseError, ROW_LIMIT};
use prokuro::parser::row::{looks_like_dist_sku, normalize_row, split_parts};
use prokuro::parser::sheet::{has_numeric_qty_column, score_grid, select_sheet};
use prokuro::parser::synonyms::default_synonyms;
use prokuro::parser::warning::WarningCode;
use prokuro::parser::xlsx::{read_xlsx, workbook_can_be_laid_out};

fn grid(rows: &[&[&str]]) -> Vec<Vec<String>> {
    rows.iter().map(|row| texts(row)).collect()
}

fn texts(cells: &[&str]) -> Vec<String> {
    cells.iter().map(|cell| cell.to_string()).collect()
}

fn meaning<'a>(mapping: &'a ColumnMapping, header: &str) -> Option<&'a str> {
    mapping.get(header).map(String::as_str)
}

fn headers_and_mapping(cols: &[&str]) -> (Vec<String>, ColumnMapping) {
    let header = texts(cols);
    let mapped = map_columns(&header, &default_synonyms());
    (header, mapped.mapping)
}

fn crc32(data: &[u8]) -> u32 {
    let mut crc = 0xffff_ffffu32;
    for byte in data {
        crc ^= *byte as u32;
        for _ in 0..8 {
            let low = crc & 1;
            crc >>= 1;
            if low == 1 {
                crc ^= 0xedb8_8320;
            }
        }
    }
    !crc
}

fn push16(out: &mut Vec<u8>, n: usize) {
    out.extend_from_slice(&(n as u16).to_le_bytes());
}

fn push32(out: &mut Vec<u8>, n: usize) {
    out.extend_from_slice(&(n as u32).to_le_bytes());
}

/// An archive whose files are stored as they are.
fn archive(files: &[(&str, String)]) -> Vec<u8> {
    let mut out = Vec::new();
    let mut directory = Vec::new();
    for (name, text) in files {
        let offset = out.len();
        let mut common = Vec::new();
        push16(&mut common, 20);
        push16(&mut common, 0);
        push16(&mut common, 0);
        push16(&mut common, 0);
        push16(&mut common, 33);
        push32(&mut common, crc32(text.as_bytes()) as usize);
        push32(&mut common, text.len());
        push32(&mut common, text.len());
        push16(&mut common, name.len());
        push16(&mut common, 0);
        out.extend_from_slice(b"PK\x03\x04");
        out.extend_from_slice(&common);
        out.extend_from_slice(name.as_bytes());
        out.extend_from_slice(text.as_bytes());
        directory.extend_from_slice(b"PK\x01\x02");
        push16(&mut directory, 20);
        directory.extend_from_slice(&common);
        push16(&mut directory, 0);
        push16(&mut directory, 0);
        push16(&mut directory, 0);
        push32(&mut directory, 0);
        push32(&mut directory, offset);
        directory.extend_from_slice(name.as_bytes());
    }
    let start = out.len();
    out.extend_from_slice(&directory);
    out.extend_from_slice(b"PK\x05\x06");
    push16(&mut out, 0);
    push16(&mut out, 0);
    push16(&mut out, files.len());
    push16(&mut out, files.len());
    push32(&mut out, directory.len());
    push32(&mut out, start);
    push16(&mut out, 0);
    out
}

/// The rows of a sheet. Cells that read as numbers are numbers.
fn sheet_rows(rows: &[&[&str]]) -> String {
    let mut page = String::new();
    for (y, row) in rows.iter().enumerate() {
        page += &format!("<row r=\"{}\">", y + 1);
        for (x, cell) in row.iter().enumerate() {
            let place = format!("{}{}", (b'A' + x as u8) as char, y + 1);
            if cell.parse::<f64>().is_ok() {
                page += &format!("<c r=\"{place}\"><v>{cell}</v></c>");
            } else if !cell.is_empty() {
                page += &format!("<c r=\"{place}\" t=\"inlineStr\"><is><t>{cell}</t></is></c>");
            }
        }
        page += "</row>";
    }
    page
}

/// A workbook with the given sheets, each with its rows.
fn workbook(sheets: &[(&str, String)]) -> Vec<u8> {
    workbook_with(sheets, "", &[])
}

/// A workbook with something before the rows of each sheet, and with further parts.
fn workbook_with(sheets: &[(&str, String)], before: &str, more: &[(&str, String)]) -> Vec<u8> {
    let head = "<?xml version=\"1.0\" encoding=\"UTF-8\" standalone=\"yes\"?>";
    let main = "http://schemas.openxmlformats.org/spreadsheetml/2006/main";
    let relations = "http://schemas.openxmlformats.org/officeDocument/2006/relationships";
    let package = "http://schemas.openxmlformats.org/package/2006";
    let mut types = format!("{head}<Types xmlns=\"{package}/content-types\">");
    types += "<Default Extension=\"rels\" ContentType=\"application/vnd.openxmlformats-package.relationships+xml\"/>";
    types += "<Default Extension=\"xml\" ContentType=\"application/xml\"/></Types>";
    let root = format!(
        "{head}<Relationships xmlns=\"{package}/relationships\"><Relationship Id=\"rId1\" Type=\"{relations}/officeDocument\" Target=\"xl/workbook.xml\"/></Relationships>"
    );
    let mut book = format!("{head}<workbook xmlns=\"{main}\" xmlns:r=\"{relations}\"><sheets>");
    let mut links = format!("{head}<Relationships xmlns=\"{package}/relationships\">");
    let mut pages = Vec::new();
    for (i, (name, rows)) in sheets.iter().enumerate() {
        let n = i + 1;
        book += &format!("<sheet name=\"{name}\" sheetId=\"{n}\" r:id=\"rId{n}\"/>");
        links += &format!(
            "<Relationship Id=\"rId{n}\" Type=\"{relations}/worksheet\" Target=\"worksheets/sheet{n}.xml\"/>"
        );
        let page = format!("{head}<worksheet xmlns=\"{main}\">{before}<sheetData>{rows}</sheetData></worksheet>");
        pages.push((format!("xl/worksheets/sheet{n}.xml"), page));
    }
    book += "</sheets></workbook>";
    links += "</Relationships>";
    let mut files: Vec<(&str, String)> = vec![
        ("[Content_Types].xml", types),
        ("_rels/.rels", root),
        ("xl/workbook.xml", book),
        ("xl/_rels/workbook.xml.rels", links),
    ];
    for (name, page) in &pages {
        files.push((name.as_str(), page.clone()));
    }
    files.extend_from_slice(more);
    archive(&files)
}

fn minimal_workbook() -> Vec<u8> {
    workbook(&[
        (
            "BOM",
            sheet_rows(&[
                &["mpn", "", "qty"],
                &["RC0603FR-0710KL", "", "5"],
                &["GRM155R61A104KA01D", "", "2"],
            ]),
        ),
        ("Notes", sheet_rows(&[&["note"], &["first build"]])),
    ])
}

#[test]
fn strips_utf8_bom_prefix() {
    let input = b"\xEF\xBB\xBFmpn,qty\nABC-123,2\n";
    let grid = read_csv(input).expect("csv with utf-8 bom should parse");
    assert_eq!(grid[0], vec!["mpn".to_string(), "qty".to_string()]);
    assert_eq!(grid[1], vec!["ABC-123".to_string(), "2".to_string()]);
}

#[test]
fn sniffs_comma_delimiter() {
    let input = b"mpn,qty,desc\nABC-123,2,resistor\n";
    let grid = read_csv(input).expect("comma-delimited csv should parse");
    assert_eq!(grid[0].len(), 3);
    assert_eq!(grid[1][2], "resistor");
}

#[test]
fn sniffs_semicolon_delimiter() {
    let input = b"mpn;qty;desc\nABC-123;2;resistor\n";
    let grid = read_csv(input).expect("semicolon-delimited csv should parse");
    assert_eq!(grid[0].len(), 3);
    assert_eq!(grid[1][2], "resistor");
}

#[test]
fn sniffs_tab_delimiter() {
    let input = b"mpn\tqty\tdesc\nABC-123\t2\tresistor\n";
    let grid = read_csv(input).expect("tab-delimited csv should parse");
    assert_eq!(grid[0].len(), 3);
    assert_eq!(grid[1][2], "resistor");
}

#[test]
fn parses_quoted_fields_with_embedded_comma() {
    let input = b"mpn,desc\nABC-123,\"resistor, 1%\"\n";
    let grid = read_csv(input).expect("quoted field with comma should parse");
    assert_eq!(grid[1], vec!["ABC-123".to_string(), "resistor, 1%".to_string()]);
}

#[test]
fn parses_utf16le_with_bom_prefix() {
    let mut input = vec![0xFF, 0xFE];
    for unit in "mpn,qty\nABC-123,2\n".encode_utf16() {
        input.extend_from_slice(&unit.to_le_bytes());
    }
    let grid = read_csv(&input).expect("utf-16le csv should parse");
    assert_eq!(grid[0], vec!["mpn".to_string(), "qty".to_string()]);
    assert_eq!(grid[1], vec!["ABC-123".to_string(), "2".to_string()]);
}

#[test]
fn decodes_windows_1252_bytes() {
    let input = b"mpn,desc\nABC-123,\x93quoted\x94\n";
    let grid = read_csv(input).expect("windows-1252 csv should parse");
    assert_eq!(grid[1][1], "“quoted”");
}

#[test]
fn parses_utf16be_with_bom_prefix() {
    let mut input = vec![0xFE, 0xFF];
    for unit in "mpn,qty\nÄBC,2\n".encode_utf16() {
        input.extend_from_slice(&unit.to_be_bytes());
    }
    let grid = read_csv(&input).expect("utf-16be csv should parse");
    assert_eq!(grid[1], texts(&["ÄBC", "2"]));
}

#[test]
fn malformed_utf16_is_refused() {
    let error = decode_csv_bytes(&[0xFF, 0xFE, 0x00, 0xD8]).unwrap_err();
    assert!(matches!(error, ingest::ParseError::EncodingError(_)));
    assert_eq!(error.message(), UNSUPPORTED_ENCODING_MESSAGE);
}

#[test]
fn rows_may_differ_in_width() {
    let grid = read_csv(b"mpn,qty\nABC\nDEF,2,more\n").unwrap();
    assert_eq!(grid.len(), 3);
    assert_eq!(grid[1], texts(&["ABC"]));
    assert_eq!(grid[2], texts(&["DEF", "2", "more"]));
}

#[test]
fn skips_single_cell_title_rows() {
    let grid = vec![
        vec!["BOM Export — Project".to_string(), "".to_string()],
        vec!["mpn".to_string(), "qty".to_string(), "ref".to_string()],
    ];
    let synonyms = default_synonyms();
    assert_eq!(find_header_row(&grid, &synonyms), Some(1));
}

#[test]
fn single_sheet_is_always_selected() {
    let sheets = vec![(
        "Sheet1".to_string(),
        vec![vec!["mpn".to_string(), "qty".to_string()]],
    )];
    let synonyms = default_synonyms();
    assert_eq!(select_sheet(&sheets, &synonyms).as_deref(), Some("Sheet1"));
}

#[test]
fn empty_sheets_returns_none() {
    let synonyms = default_synonyms();
    assert_eq!(select_sheet(&[], &synonyms), None);
}

#[test]
fn header_below_a_title_is_found() {
    let rows = grid(&[&["Board rev 2", "", ""], &["", "", ""], &["mpn", "qty", "description"], &["A", "1", "x"]]);
    assert_eq!(find_header_row(&rows, &default_synonyms()), Some(2));
    assert_eq!(find_header_row(&grid(&[&["a", "b"]]), &default_synonyms()), None);
}

#[test]
fn sheet_with_numbers_is_preferred() {
    let notes = grid(&[&["mpn", "qty"], &["A", "many"], &["B", "few"]]);
    let bom = grid(&[&["mpn", "qty"], &["A", "1"], &["B", "2"]]);
    assert!(!has_numeric_qty_column(&notes));
    assert!(has_numeric_qty_column(&bom));
    assert_eq!(score_grid(&notes, &default_synonyms()), score_grid(&bom, &default_synonyms()));
    let sheets = vec![("Notes".to_string(), notes), ("BOM".to_string(), bom)];
    assert_eq!(select_sheet(&sheets, &default_synonyms()).as_deref(), Some("BOM"));
}

#[test]
fn reads_all_sheets_from_minimal_fixture() {
    let sheets = read_xlsx(&minimal_workbook()).expect("workbook should parse");
    assert_eq!(sheets.len(), 2);
    assert_eq!(sheets[0].0, "BOM");
    assert_eq!(sheets[1].0, "Notes");
    assert_eq!(sheets[0].1[0], vec!["mpn".to_string(), "".to_string(), "qty".to_string()]);
    assert_eq!(
        sheets[0].1[1],
        vec!["RC0603FR-0710KL".to_string(), "".to_string(), "5".to_string()]
    );
    assert_eq!(sheets[1].1[0], vec!["note".to_string()]);
}

#[test]
fn broken_workbook_is_refused() {
    let error = read_xlsx(b"no workbook").unwrap_err();
    assert!(matches!(error, ingest::ParseError::Xlsx(_)));
    assert!(error.message().starts_with("xlsx parse error: "));
    match parse_file(b"no workbook", "bom.xlsx") {
        Err(ParseError::InternalError(text)) => assert!(text.starts_with("xlsx parse error: ")),
        other => panic!("unexpected: {other:?}"),
    }
}

#[test]
fn fuzzy_match_mfgr_part_to_mpn() {
    let headers = vec!["Mfgr Part #".to_string()];
    let mapped = map_columns(&headers, &default_synonyms());
    assert_eq!(meaning(&mapped.mapping, "Mfgr Part #"), Some("mpn"));
}

#[test]
fn negative_synonym_emits_dist_sku_suspect() {
    let headers = vec!["Digi-Key PN".to_string(), "mpn".to_string()];
    let mapped = map_columns(&headers, &default_synonyms());
    assert!(!mapped.mapping.contains_key("Digi-Key PN"));
    assert_eq!(meaning(&mapped.mapping, "mpn"), Some("mpn"));
    let dist_warn = mapped.warnings.iter().find(|w| w.code == WarningCode::DistSkuSuspect);
    assert!(dist_warn.is_some(), "expected DistSkuSuspect warning");
    assert_eq!(dist_warn.unwrap().column.as_deref(), Some("Digi-Key PN"));
}

#[test]
fn confidence_mpn_and_manufacturer_no_warning() {
    let headers = vec!["mpn".to_string(), "manufacturer".to_string()];
    let mapped = map_columns(&headers, &default_synonyms());
    assert!((mapped.confidence as f32 / 100.0 - 0.7).abs() < 0.001);
    assert!(mapped.warnings.iter().all(|w| w.code != WarningCode::LowMappingConfidence));
}

#[test]
fn confidence_qty_only_triggers_low_confidence_warning() {
    let headers = vec!["qty".to_string()];
    let mapped = map_columns(&headers, &default_synonyms());
    assert!((mapped.confidence as f32 / 100.0 - 0.15).abs() < 0.001);
    assert!(mapped.warnings.iter().any(|w| w.code == WarningCode::LowMappingConfidence));
}

#[test]
fn alt_mpn_header_maps_to_alternate_mpn() {
    let headers = vec!["Alt MPN".to_string(), "mpn".to_string()];
    let mapped = map_columns(&headers, &default_synonyms());
    assert_eq!(meaning(&mapped.mapping, "Alt MPN"), Some("alternate_mpn"));
    assert_eq!(meaning(&mapped.mapping, "mpn"), Some("mpn"));
}

#[test]
fn detects_column_offset_for_shifted_headers() {
    let headers = vec![
        "".to_string(),
        " ".to_string(),
        "".to_string(),
        "MPN".to_string(),
        "Manufacturer".to_string(),
    ];
    let mapped = map_columns(&headers, &default_synonyms());
    assert_eq!(mapped.column_offset, 3);
    assert_eq!(meaning(&mapped.mapping, "MPN"), Some("mpn"));
    assert_eq!(meaning(&mapped.mapping, "Manufacturer"), Some("manufacturer"));
}

#[test]
fn weak_refdes_id_is_ignored_when_designator_exists() {
    let headers = vec!["Id".to_string(), "Designator".to_string(), "Quantity".to_string()];
    let mapped = map_columns(&headers, &default_synonyms());
    assert_eq!(meaning(&mapped.mapping, "Designator"), Some("refdes"));
    assert!(!mapped.mapping.contains_key("Id"));
}

#[test]
fn fuzzy_link_does_not_map_to_refdes_line_alias() {
    let headers = vec!["Link".to_string(), "Designator".to_string(), "Qty".to_string()];
    let mapped = map_columns(&headers, &default_synonyms());
    assert_eq!(meaning(&mapped.mapping, "Designator"), Some("refdes"));
    assert!(!mapped.mapping.contains_key("Link"));
}

#[test]
fn weak_qty_total_is_ignored_when_qty_exists() {
    let headers = vec!["Qty".to_string(), "Total".to_string(), "Part Number".to_string()];
    let mapped = map_columns(&headers, &default_synonyms());
    assert_eq!(meaning(&mapped.mapping, "Qty"), Some("qty"));
    assert!(!mapped.mapping.contains_key("Total"));
}

#[test]
fn distributor_column_is_warned_of_and_not_mapped() {
    let headers = texts(&["Reference", "Qty", "Part Number", "Manufacturer", "Digikey"]);
    let mapped = map_columns(&headers, &default_synonyms());
    assert_eq!(meaning(&mapped.mapping, "Reference"), Some("refdes"));
    assert_eq!(meaning(&mapped.mapping, "Qty"), Some("qty"));
    assert_eq!(meaning(&mapped.mapping, "Part Number"), Some("mpn"));
    assert_eq!(meaning(&mapped.mapping, "Manufacturer"), Some("manufacturer"));
    assert!(!mapped.mapping.contains_key("Digikey"));
    assert_eq!(mapped.confidence, 90);
    assert!(mapped.warnings.iter().any(|w| w.code == WarningCode::DistSkuSuspect));
}

#[test]
fn blank_headers_have_no_offset() {
    assert_eq!(detect_column_offset(&texts(&["", " "])), 0);
    assert_eq!(detect_column_offset(&texts(&[])), 0);
    assert_eq!(detect_column_offset(&texts(&["", "mpn"])), 1);
}

#[test]
fn weak_names_count_when_nothing_stronger_is_there() {
    let mapped = map_columns(&texts(&["Total", "mpn"]), &default_synonyms());
    assert_eq!(meaning(&mapped.mapping, "Total"), Some("qty"));
    assert_eq!(mapped.confidence, 55);
}

#[test]
fn groups_beyond_the_known_kinds_mean_nothing() {
    let mut synonyms = default_synonyms();
    synonyms.push(texts(&["colour"]));
    let mapped = map_columns(&texts(&["colour", "mpn"]), &synonyms);
    assert!(!mapped.mapping.contains_key("colour"));
}

#[test]
fn trims_whitespace_and_uppercases_mpn() {
    let (header, mapping) = headers_and_mapping(&["mpn", "manufacturer"]);
    let raw = vec!["  rc0603  ".to_string(), "  Yageo  ".to_string()];
    let (line, _) = normalize_row(&raw, &mapping, &header, 1);
    let line = line.unwrap();
    assert_eq!(line.mpn.as_deref(), Some("RC0603"));
    assert_eq!(line.manufacturer.as_deref(), Some("Yageo"));
}

#[test]
fn quantity_parsing() {
    let (header, mapping) = headers_and_mapping(&["mpn", "qty"]);
    let row = |q: &str| {
        normalize_row(&["X".to_string(), q.to_string()], &mapping, &header, 1)
            .0
            .unwrap()
            .quantity
            .map(|text| text.parse::<f64>().unwrap())
    };
    assert_eq!(row("10"), Some(10.0));
    assert_eq!(row("2.5"), Some(2.5));
    assert_eq!(row(""), None);
    assert_eq!(row("abc"), None);
}

#[test]
fn empty_mpn_and_description_returns_none() {
    let (header, mapping) = headers_and_mapping(&["mpn", "description"]);
    let raw = vec!["".to_string(), "".to_string()];
    let (line, warnings) = normalize_row(&raw, &mapping, &header, 5);
    assert!(line.is_none());
    assert!(warnings.is_empty());
}

#[test]
fn missing_mpn_warning_when_description_present() {
    let (header, mapping) = headers_and_mapping(&["mpn", "description"]);
    let raw = vec!["".to_string(), "100nF Ceramic 0402".to_string()];
    let (line, warnings) = normalize_row(&raw, &mapping, &header, 3);
    assert!(line.is_some());
    assert!(line.unwrap().mpn.is_none());
    assert!(warnings.iter().any(|w| w.code == WarningCode::MissingMpn));
}

#[test]
fn dist_sku_suspect_for_digikey_mpn() {
    let (header, mapping) = headers_and_mapping(&["mpn"]);
    let raw = vec!["490-1318-1-ND".to_string()];
    let (line, warnings) = normalize_row(&raw, &mapping, &header, 2);
    assert!(line.is_some());
    assert!(warnings.iter().any(|w| w.code == WarningCode::DistSkuSuspect));
}

#[test]
fn aml_split_on_comma() {
    let (header, mapping) = headers_and_mapping(&["mpn"]);
    let raw = vec!["GRM155R61A104KA01D,GRM155R61A104KA01J".to_string()];
    let (line, _) = normalize_row(&raw, &mapping, &header, 1);
    let line = line.unwrap();
    assert_eq!(line.mpn.as_deref(), Some("GRM155R61A104KA01D"));
    assert_eq!(line.aml_candidates, vec!["GRM155R61A104KA01J"]);
}

#[test]
fn extras_populated_for_unmapped_columns() {
    let (header, mapping) = headers_and_mapping(&["mpn", "Digi-Key PN"]);
    let raw = vec!["RC0402".to_string(), "490-1234-1-ND".to_string()];
    let (line, _) = normalize_row(&raw, &mapping, &header, 1);
    let line = line.unwrap();
    assert_eq!(line.extras.get("Digi-Key PN").map(String::as_str), Some("490-1234-1-ND"));
}

#[test]
fn alternate_part_goes_into_the_extras() {
    let (header, mapping) = headers_and_mapping(&["mpn", "Alt MPN", "Blank"]);
    let (line, _) = normalize_row(&texts(&["a1", "b2", " "]), &mapping, &header, 1);
    let line = line.unwrap();
    assert_eq!(line.extras.get("alternate_mpn").map(String::as_str), Some("b2"));
    assert_eq!(line.extras.entries.len(), 1);
}

#[test]
fn later_column_with_the_same_meaning_counts() {
    let (header, mapping) = headers_and_mapping(&["mpn", "part number"]);
    let (line, _) = normalize_row(&texts(&["first", "second"]), &mapping, &header, 1);
    assert_eq!(line.unwrap().mpn.as_deref(), Some("SECOND"));
}

#[test]
fn pieces_between_separators_are_kept() {
    assert_eq!(split_parts("A | B,,C,"), texts(&["A", "B", "C"]));
    assert!(split_parts("A B").is_empty());
    assert!(split_parts(",|").is_empty());
    let (header, mapping) = headers_and_mapping(&["mpn"]);
    let (line, _) = normalize_row(&texts(&[",|"]), &mapping, &header, 1);
    assert_eq!(line.unwrap().mpn.as_deref(), Some(",|"));
}

#[test]
fn distributor_numbers_begin_with_digits_and_a_dash() {
    assert!(looks_like_dist_sku("123-4"));
    assert!(looks_like_dist_sku("12345-X"));
    assert!(!looks_like_dist_sku("12-4"));
    assert!(!looks_like_dist_sku("1234"));
    assert!(!looks_like_dist_sku("A123-4"));
}

#[test]
fn unsupported_extension_returns_error() {
    let result = parse_file(b"data", "bom.txt");
    assert!(matches!(result, Err(ParseError::UnsupportedFormat)));
}

#[test]
fn empty_bytes_returns_error() {
    let result = parse_file(b"", "bom.csv");
    assert!(matches!(result, Err(ParseError::EmptyFile)));
}

#[test]
fn file_without_a_header_is_empty() {
    let error = parse_file(b"alpha,beta\n1,2\n", "bom.csv").unwrap_err();
    assert!(matches!(error, ParseError::EmptyFile));
    assert_eq!(error.message(), "file appears to be empty or has no parseable header");
}

#[test]
fn messages_name_the_error() {
    assert_eq!(
        ParseError::UnsupportedFormat.message(),
        "unsupported file format: only .csv and .xlsx are accepted"
    );
    assert_eq!(ParseError::InternalError("x".to_string()).message(), "internal error: x");
    assert_eq!(ingest::ParseError::Csv("x".to_string()).message(), "csv parse error: x");
    assert_eq!(ingest::ParseError::PasswordProtected("x".to_string()).message(), "x");
}

#[test]
fn minimal_csv_parses_correctly() {
    let bytes = b"mpn,manufacturer,qty\nRC0603FR-0710KL,Yageo,5\nGRM155R61A104KA01D,Murata,2\n";
    let result = parse_file(bytes, "minimal.csv").unwrap();
    assert_eq!(result.stats.parsed_rows, 2);
    assert!(result.mapping_confidence >= 70);
    assert!(result.lines.iter().all(|l| l.mpn.is_some()));
    assert_eq!(result.source_filename, "minimal.csv");
    assert_eq!(result.raw_headers, texts(&["mpn", "manufacturer", "qty"]));
    assert_eq!(result.flywheel_events[1].mpn.as_deref(), Some("GRM155R61A104KA01D"));
    assert_eq!(result.flywheel_events[1].quantity.as_deref(), Some("2"));
}

#[test]
fn minimal_xlsx_selects_bom_sheet() {
    let result = parse_file(&minimal_workbook(), "minimal.XLSX").unwrap();
    assert_eq!(result.sheet_name.as_deref(), Some("BOM"));
    assert_eq!(result.stats.parsed_rows, 2);
}

#[test]
fn cell_with_an_unknown_shared_text_is_refused() {
    let rows = "<row r=\"1\"><c r=\"A1\" t=\"s\"><v>7</v></c></row>".to_string();
    let file = workbook(&[("BOM", rows)]);
    assert!(workbook_can_be_laid_out(&file));
    match try_parse_file(&file, "bom.xlsx") {
        Some(Err(ParseError::InternalError(text))) => {
            assert!(text.starts_with("xlsx parse error: "));
            assert!(text.contains("shared strings table"));
        }
        other => panic!("unexpected: {other:?}"),
    }
}

#[test]
fn cells_too_far_apart_cannot_be_laid_out() {
    let far = "<row r=\"1\"><c r=\"A1\"><v>1</v></c></row>\
               <row r=\"999999999\"><c r=\"ZZZZZZ999999999\"><v>2</v></c></row>";
    let file = workbook(&[("BOM", far.to_string())]);
    assert!(!workbook_can_be_laid_out(&file));
    assert!(try_parse_file(&file, "bom.xlsx").is_none());
    assert!(try_parse_file(&file, "bom.txt").is_some());
    assert!(workbook_can_be_laid_out(&minimal_workbook()));
    assert!(workbook_can_be_laid_out(b"no workbook"));
    let result = try_parse_file(&minimal_workbook(), "bom.xlsx").unwrap().unwrap();
    assert_eq!(result.lines.len(), 2);
    assert_eq!(result.sheet_name.as_deref(), Some("BOM"));
    assert!(matches!(try_parse_file(b"", "bom.xlsx"), Some(Err(ParseError::EmptyFile))));
    assert!(try_parse_file(&compound_file("EncryptedPackage")[..1024], "bom.xlsx").is_none());
    assert!(try_parse_file(&compound_file("EncryptedPackage")[..1024], "bom.csv").is_some());
}

/// A workbook with one cell and what stands before the rows.
fn one_cell(name: &str, before: &str) -> Vec<u8> {
    let row = format!("<row><c r=\"{name}\"><v>1</v></c></row>");
    workbook_with(&[("BOM", row)], before, &[])
}

fn is_refused(file: &[u8]) -> bool {
    let plain = package_is_plain(file);
    assert_eq!(try_parse_file(file, "bom.xlsx").is_some(), plain);
    !plain
}

#[test]
fn cell_names_out_of_range_are_refused() {
    assert!(!is_refused(&one_cell("A1", "")));
    assert!(!is_refused(&one_cell("A999999999", "")));
    assert!(is_refused(&one_cell("A1000000000", "")));
    assert!(is_refused(&one_cell("A0000000001", "")));
    assert!(!is_refused(&one_cell("ZZZZZZ1", "")));
    assert!(is_refused(&one_cell("AAAAAAA1", "")));
    assert!(is_refused(&one_cell("aaaaaaa1", "")));
    assert!(!is_refused(&one_cell("AAAAAAAA", "")));
    assert!(!is_refused(&one_cell("1.23456789", "")));
    let row = "<row r = '1000000000'><c><v>1</v></c></row>".to_string();
    assert!(is_refused(&workbook(&[("BOM", row)])));
    let row = "<x:row t=\">\"r='1000000000' ><c><v>1</v></c></x:row>".to_string();
    assert!(is_refused(&workbook(&[("BOM", row)])));
    let circle = "<svg><circle cx=\"1\" r=\"1.23456789012345\"/></svg>".to_string();
    assert!(!is_refused(&workbook_with(&[("BOM", String::new())], "", &[("xl/media/a.svg", circle)])));
}

#[test]
fn ranges_out_of_order_are_refused() {
    assert!(!is_refused(&one_cell("A1", "<dimension ref=\"A1:B2\"/>")));
    assert!(!is_refused(&one_cell("A1", "<dimension ref=\"A1\"/>")));
    assert!(!is_refused(&one_cell("A1", "<dimension ref=\"Z9:AA10\"/>")));
    assert!(!is_refused(&one_cell("A1", "<dimension ref=\"B:A\"/>")));
    assert!(is_refused(&one_cell("A1", "<dimension ref=\"B2:A3\"/>")));
    assert!(is_refused(&one_cell("A1", "<dimension ref=\"A3:B2\"/>")));
    assert!(is_refused(&one_cell("A1", "<dimension ref=\"A1:A1234567890\"/>")));
    assert!(is_refused(&one_cell("A1", "<dimension ref=\"A1:B2:A1234567890\"/>")));
}

#[test]
fn number_formats_with_too_many_brackets_are_refused() {
    let with_code = |code: String| {
        let styles = format!(
            "<styleSheet><numFmts><numFmt numFmtId=\"164\" formatCode=\"{code}\"/></numFmts>\
             <cellXfs><xf numFmtId=\"164\"/></cellXfs></styleSheet>"
        );
        workbook_with(&[("BOM", String::new())], "", &[("xl/styles.xml", styles)])
    };
    assert!(!is_refused(&with_code("[".repeat(255))));
    assert!(is_refused(&with_code("[".repeat(256))));
}

#[test]
fn compressed_parts_are_looked_into() {
    let page = "<row r=\"1000000000\"/>";
    let mut packed = vec![1, page.len() as u8, 0, !(page.len() as u8), 0xff];
    packed.extend_from_slice(page.as_bytes());
    let mut file = archive(&[("a.xml", String::from_utf8_lossy(&[b'x'; 1]).to_string())]);
    assert!(package_is_plain(&file));
    let mut entry = Vec::new();
    push16(&mut entry, 20);
    push16(&mut entry, 0);
    push16(&mut entry, 8);
    push32(&mut entry, 33 << 16);
    push32(&mut entry, crc32(page.as_bytes()) as usize);
    push32(&mut entry, packed.len());
    push32(&mut entry, page.len());
    push16(&mut entry, 5);
    push16(&mut entry, 0);
    file.clear();
    file.extend_from_slice(b"PK\x03\x04");
    file.extend_from_slice(&entry);
    file.extend_from_slice(b"a.xml");
    file.extend_from_slice(&packed);
    let start = file.len();
    file.extend_from_slice(b"PK\x01\x02\x14\x00");
    file.extend_from_slice(&entry);
    file.extend_from_slice(&[0; 14]);
    file.extend_from_slice(b"a.xml");
    let size = file.len() - start;
    file.extend_from_slice(b"PK\x05\x06\x00\x00\x00\x00\x01\x00\x01\x00");
    push32(&mut file, size);
    push32(&mut file, start);
    push16(&mut file, 0);
    assert!(!package_is_plain(&file));
    let digit = file.windows(3).position(|bytes| bytes == b"100").unwrap();
    file[digit] = b'x';
    assert!(package_is_plain(&file));
}

#[test]
fn empty_timestamps_in_a_directory_are_refused() {
    let mut file = minimal_workbook();
    assert!(package_is_plain(&file));
    assert!(package_is_plain(b"no workbook"));
    let mut entry = b"PK\x01\x02".to_vec();
    entry.extend_from_slice(&[0; 24]);
    push16(&mut entry, 1);
    push16(&mut entry, 4);
    entry.extend_from_slice(&[0; 14]);
    entry.extend_from_slice(b"aUT\x00\x00");
    let at = file.len();
    file.extend_from_slice(&entry);
    assert!(!package_is_plain(&file));
    file[at + 30] = 3;
    assert!(package_is_plain(&file));
}

#[test]
fn rows_beyond_the_limit_are_left_out() {
    let mut rows = grid(&[&["mpn", "qty"]]);
    for i in 0..ROW_LIMIT + 1 {
        rows.push(if i % 2 == 0 { texts(&["A1", "1"]) } else { texts(&["", "1"]) });
    }
    let result = parse_grid(&rows, &default_synonyms(), None, "bom.csv").unwrap();
    assert_eq!(result.stats.total_rows, 2000);
    assert_eq!(result.stats.parsed_rows, 1000);
    assert_eq!(result.stats.skipped_rows, 1000);
    assert_eq!(result.lines[1].row_index, 3);
    let last = result.warnings.last().unwrap();
    assert_eq!(last.code, WarningCode::RowLimitExceeded);
    assert_eq!(last.row_index, 2000);
    rows.pop();
    let result = parse_grid(&rows, &default_synonyms(), None, "bom.csv").unwrap();
    assert!(result.warnings.iter().all(|w| w.code != WarningCode::RowLimitExceeded));
}

/// A compound file with a root entry and one more entry.
fn compound_file(entry: &str) -> Vec<u8> {
    let mut file = vec![0u8; 3 * 512];
    let mut put = |at: usize, bytes: &[u8]| file[at..at + bytes.len()].copy_from_slice(bytes);
    put(0, &[0xd0, 0xcf, 0x11, 0xe0, 0xa1, 0xb1, 0x1a, 0xe1]);
    put(26, &3u16.to_le_bytes());
    put(30, &9u16.to_le_bytes());
    put(32, &6u16.to_le_bytes());
    put(44, &1u32.to_le_bytes());
    put(48, &1u32.to_le_bytes());
    put(60, &0xffff_fffeu32.to_le_bytes());
    put(68, &0xffff_fffeu32.to_le_bytes());
    for slot in 0..109 {
        let sector = if slot == 0 { 0 } else { 0xffff_ffffu32 };
        put(76 + 4 * slot, &sector.to_le_bytes());
    }
    for slot in 0..128 {
        let next = match slot {
            0 => 0xffff_fffdu32,
            1 => 0xffff_fffe,
            _ => 0xffff_ffff,
        };
        put(512 + 4 * slot, &next.to_le_bytes());
    }
    for (slot, name) in ["Root Entry", entry].iter().enumerate() {
        for (i, unit) in name.encode_utf16().enumerate() {
            put(1024 + 128 * slot + 2 * i, &unit.to_le_bytes());
        }
        put(1024 + 128 * slot + 116, &0xffff_fffeu32.to_le_bytes());
    }
    file
}

#[test]
fn workbook_with_a_password_is_refused() {
    let locked = compound_file("EncryptedPackage");
    assert!(workbook_can_be_opened(&locked));
    match read_xlsx(&locked).unwrap_err() {
        ingest::ParseError::PasswordProtected(text) => {
            assert_eq!(text, "Workbook is password protected");
        }
        other => panic!("unexpected: {other:?}"),
    }
    match parse_file(&locked, "bom.xlsx") {
        Err(ParseError::InternalError(text)) => assert_eq!(text, "Workbook is password protected"),
        other => panic!("unexpected: {other:?}"),
    }
    let other = compound_file("Workbook");
    assert!(matches!(read_xlsx(&other), Err(ingest::ParseError::Xlsx(_))));
}

#[test]
fn damaged_compound_files_are_told_apart() {
    assert!(workbook_can_be_opened(b"mpn,qty\n"));
    assert!(workbook_can_be_opened(&minimal_workbook()));
    let mut looping = compound_file("EncryptedPackage");
    looping[512 + 4..512 + 8].copy_from_slice(&1u32.to_le_bytes());
    assert!(!workbook_can_be_opened(&looping));
    let mut missing = compound_file("EncryptedPackage");
    missing[48..52].copy_from_slice(&9u32.to_le_bytes());
    assert!(!workbook_can_be_opened(&missing));
    let mut truncated = compound_file("EncryptedPackage");
    truncated.truncate(1024);
    assert!(!workbook_can_be_opened(&truncated));
    let mut odd = compound_file("EncryptedPackage");
    odd[30] = 7;
    assert!(workbook_can_be_opened(&odd));
}
