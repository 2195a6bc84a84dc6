use campus_dual::exams::{extract_exam_signup_options, extract_exam_verfahren_options};
use campus_dual::rows::{BookingAnchor, Cell, Row, RowTable};

fn e_cell(text: &str) -> Cell {
    Cell { texts: vec![text.to_string()], icon: None }
}

fn e_top_row(id: &str, name: &str) -> Row {
    Row {
        id: Some(id.to_string()),
        classes: vec!["child-of-node-0".to_string()],
        cells: vec![e_cell(name), e_cell("SEP"), e_cell("Sommersemester")],
        texts: Vec::new(),
        icon: None,
        score_anchor: None,
        booking_anchor: None,
    }
}

fn e_main_row(parent: &str, icon: &str, texts: &[&str]) -> Row {
    Row {
        id: None,
        classes: vec![format!("child-of-{}", parent)],
        cells: Vec::new(),
        texts: texts.iter().map(|t| t.to_string()).collect(),
        icon: Some(icon.to_string()),
        score_anchor: None,
        booking_anchor: None,
    }
}

fn e_warn_row(parent: &str, texts: &[&str]) -> Row {
    Row {
        id: None,
        classes: vec![format!("child-of-{}", parent)],
        cells: Vec::new(),
        texts: texts.iter().map(|t| t.to_string()).collect(),
        icon: None,
        score_anchor: None,
        booking_anchor: None,
    }
}

const MAIN_TEXTS: [&str; 5] = [
    "  Prüfungsart: MPMA, Prüfungstermin: ",
    "22.05.2024",
    " | ",
    "13:00",
    ", Raum 2.234",
];

#[test]
fn signup_option_fully_decoded() {
    let mut main = e_main_row("p1", "/images/missed.png", &MAIN_TEXTS);
    main.booking_anchor = Some(BookingAnchor {
        assessment: Some("12345".to_string()),
        peryr: Some("2024".to_string()),
        perid: Some("002".to_string()),
        offerno: Some("01".to_string()),
    });
    let warn = e_warn_row("p1", &["Anmeldung ist nur noch bis morgen möglich, bis 31.12.2024"]);
    let table = RowTable { rows: vec![e_top_row("p1", "P1 Exam"), main, warn] };
    let opts = extract_exam_signup_options(Some(&table));
    assert_eq!(opts.len(), 1);
    let o = &opts[0];
    assert_eq!(o.name, "P1 Exam");
    assert_eq!(o.verfahren, "SEP");
    assert_eq!(o.pruefart, "Sommersemester");
    assert_eq!(o.status, "🚫");
    assert_eq!(o.signup_information, "Prüfungsart: MPMA");
    assert_eq!(o.exam_date, Some("22.05.2024".to_string()));
    assert_eq!(o.exam_time, Some("13:00".to_string()));
    assert_eq!(o.exam_room, Some("Raum 2.234".to_string()));
    assert_eq!(
        o.warning_message,
        Some("Anmeldung ist nur noch bis morgen möglich, bis 31.12.2024".to_string())
    );
    assert_eq!(o.signup_until, Some("31.12.2024".to_string()));
    let m = o.internal_metadata.as_ref().expect("metadata");
    assert_eq!(m.assessment, "12345");
    assert_eq!(m.peryr, "2024");
    assert_eq!(m.perid, "002");
    assert_eq!(m.offerno, "01");
}

#[test]
fn signup_pattern_rejects_signoff_phrasing() {
    let main = e_main_row("p1", "/images/yellow.png", &MAIN_TEXTS);
    let warn = e_warn_row("p1", &["Abmeldung ist nur noch bis morgen möglich, bis zum 31.12.2024"]);
    let table = RowTable { rows: vec![e_top_row("p1", "P1 Exam"), main, warn] };
    let opts = extract_exam_signup_options(Some(&table));
    assert_eq!(opts.len(), 1);
    assert_eq!(opts[0].status, "📝");
    assert_eq!(opts[0].signup_until, None);
}

#[test]
fn signoff_pattern_requires_its_own_phrasing() {
    let main1 = e_main_row("p1", "/images/exclamation.jpg", &MAIN_TEXTS);
    let warn1 = e_warn_row("p1", &["Abmeldung ist nur noch bis morgen möglich, bis zum 31.12.2024"]);
    let main2 = e_main_row("p2", "/images/unknown.png", &MAIN_TEXTS);
    let warn2 = e_warn_row("p2", &["Anmeldung ist nur noch bis morgen möglich, bis 31.12.2024"]);
    let table = RowTable {
        rows: vec![e_top_row("p1", "A"), main1, warn1, e_top_row("p2", "B"), main2, warn2],
    };
    let opts = extract_exam_verfahren_options(Some(&table));
    assert_eq!(opts.len(), 2);
    assert_eq!(opts[0].status, "⚠️");
    assert_eq!(opts[0].signoff_until, Some("31.12.2024".to_string()));
    assert_eq!(opts[1].status, "⁉️");
    assert_eq!(opts[1].signoff_until, None);
}

#[test]
fn empty_detail_row_yields_placeholder_record() {
    let mut main = e_main_row("p1", "/images/yellow.png", &[]);
    main.booking_anchor = Some(BookingAnchor {
        assessment: Some("12345".to_string()),
        peryr: Some("2024".to_string()),
        perid: Some("002".to_string()),
        offerno: Some("01".to_string()),
    });
    let table = RowTable { rows: vec![e_top_row("p1", "P1 Exam"), main] };
    let opts = extract_exam_signup_options(Some(&table));
    assert_eq!(opts.len(), 1);
    let o = &opts[0];
    assert_eq!(o.signup_information, "Daten konnten nicht extrahiert werden");
    assert_eq!(o.exam_date, None);
    assert_eq!(o.exam_time, None);
    assert_eq!(o.exam_room, None);
    assert_eq!(o.warning_message, None);
    assert_eq!(o.signup_until, None);
    assert!(o.internal_metadata.is_none());
}

#[test]
fn top_row_without_main_detail_row_is_skipped() {
    let main2 = e_main_row("p2", "/images/yellow.png", &MAIN_TEXTS);
    let table = RowTable { rows: vec![e_top_row("p1", "A"), e_top_row("p2", "B"), main2] };
    let opts = extract_exam_signup_options(Some(&table));
    assert_eq!(opts.len(), 1);
    assert_eq!(opts[0].name, "B");
}

#[test]
fn top_row_without_id_is_skipped() {
    let mut top = e_top_row("p1", "A");
    top.id = None;
    let main = e_main_row("p1", "/images/yellow.png", &MAIN_TEXTS);
    let table = RowTable { rows: vec![top, main] };
    let opts = extract_exam_verfahren_options(Some(&table));
    assert!(opts.is_empty());
}

#[test]
fn missing_registration_tables_yield_empty_lists() {
    assert!(extract_exam_signup_options(None).is_empty());
    assert!(extract_exam_verfahren_options(None).is_empty());
}

#[test]
fn registration_metadata_is_all_or_nothing() {
    let mut main = e_main_row("p1", "/images/yellow.png", &MAIN_TEXTS);
    main.booking_anchor = Some(BookingAnchor {
        assessment: Some("12345".to_string()),
        peryr: Some("2024".to_string()),
        perid: Some("002".to_string()),
        offerno: None,
    });
    let table = RowTable { rows: vec![e_top_row("p1", "A"), main] };
    let opts = extract_exam_signup_options(Some(&table));
    assert!(opts[0].internal_metadata.is_none());
}

#[test]
fn warning_text_collapses_broken_time_rendering() {
    let main = e_main_row("p1", "/images/yellow.png", &MAIN_TEXTS);
    let warn = e_warn_row("p1", &["  Abmeldung möglich bis", " 31.12.2024   :  um null Uhr"]);
    let table = RowTable { rows: vec![e_top_row("p1", "A"), main, warn] };
    let opts = extract_exam_signup_options(Some(&table));
    assert_eq!(
        opts[0].warning_message,
        Some("Abmeldung möglich bis 31.12.2024um null Uhr".to_string())
    );
    assert_eq!(opts[0].signup_until, Some("31.12.2024".to_string()));
}

#[test]
fn detail_texts_shorter_than_layout_leave_trailing_fields_absent() {
    let main = e_main_row("p1", "/images/yellow.png", &["Info", "22.05.2024"]);
    let table = RowTable { rows: vec![e_top_row("p1", "A"), main] };
    let opts = extract_exam_signup_options(Some(&table));
    let o = &opts[0];
    assert_eq!(o.signup_information, "Info");
    assert_eq!(o.exam_date, Some("22.05.2024".to_string()));
    assert_eq!(o.exam_time, None);
    assert_eq!(o.exam_room, None);
}

#[test]
fn verfahren_defaults_differ_for_missing_cells() {
    let mut top = e_top_row("p1", "A");
    top.cells = vec![e_cell("A")];
    let main = e_main_row("p1", "/images/yellow.png", &MAIN_TEXTS);
    let table = RowTable { rows: vec![top, main] };
    let opts = extract_exam_verfahren_options(Some(&table));
    assert_eq!(opts[0].verfahren, "Kein Name");
    assert_eq!(opts[0].pruefart, "");
}
