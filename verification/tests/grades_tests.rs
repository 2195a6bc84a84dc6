use campus_dual::grades::extract_grades;
use campus_dual::records::CampusDualGrade;
use campus_dual::rows::{Cell, Row, RowTable, ScoreAnchor};

fn g_cell(texts: &[&str], icon: Option<&str>) -> Cell {
    Cell {
        texts: texts.iter().map(|t| t.to_string()).collect(),
        icon: icon.map(|s| s.to_string()),
    }
}

fn g_row(id: Option<&str>, classes: &[&str], cells: Vec<Cell>) -> Row {
    Row {
        id: id.map(|s| s.to_string()),
        classes: classes.iter().map(|s| s.to_string()).collect(),
        cells,
        texts: Vec::new(),
        icon: None,
        score_anchor: None,
        booking_anchor: None,
    }
}

fn g_module_row(id: &str, name: &str, date: &str) -> Row {
    g_row(
        Some(id),
        &["child-of-node-0"],
        vec![
            g_cell(&[name], None),
            g_cell(&["1,3"], None),
            g_cell(&[], Some("/images/green.png")),
            g_cell(&["5"], None),
            g_cell(&[], None),
            g_cell(&[date], None),
            g_cell(&[], None),
            g_cell(&["WS 2023/2024"], None),
        ],
    )
}

fn g_sub_row(parent: &str, date: &str) -> Row {
    g_row(
        None,
        &[&format!("child-of-{}", parent)],
        vec![
            g_cell(&["  P Attempt"], None),
            g_cell(&["1,3"], None),
            g_cell(&[], Some("/images/green.png")),
            g_cell(&["5"], None),
            g_cell(&["17.07.2024"], None),
            g_cell(&[date], None),
            g_cell(&["WP1"], None),
            g_cell(&["WS 2023/2024"], None),
        ],
    )
}

fn g_extract(rows: Vec<Row>) -> Vec<CampusDualGrade> {
    extract_grades(Some(&RowTable { rows }))
}

#[test]
fn module_with_subgrade_extracted() {
    let mut sub = g_sub_row("node-7", "18.07.2024");
    sub.score_anchor = Some(ScoreAnchor {
        module: Some("5CS-ERPS-00".to_string()),
        peryr: Some("2024".to_string()),
        perid: Some("002".to_string()),
    });
    let grades = g_extract(vec![g_module_row("node-7", "Integrierte Systeme", "18.07.2024"), sub]);
    assert_eq!(grades.len(), 1);
    let g = &grades[0];
    assert_eq!(g.name, "Integrierte Systeme");
    assert_eq!(g.grade, "1,3");
    assert_eq!(g.total_passed, Some(true));
    assert_eq!(g.credit_points, 5);
    assert_eq!(g.akad_period, "WS 2023/2024");
    assert_eq!(g.subgrades.len(), 1);
    let s = &g.subgrades[0];
    assert_eq!(s.name, "P Attempt");
    assert_eq!(s.grade, "1,3");
    assert_eq!(s.passed, Some(true));
    assert_eq!(s.beurteilung, "17.07.2024");
    assert_eq!(s.bekanntgabe, "18.07.2024");
    assert_eq!(s.wiederholung, Some("WP1".to_string()));
    assert_eq!(s.akad_period, "WS 2023/2024");
    let m = s.internal_metadata.as_ref().expect("metadata");
    assert_eq!(m.module, "5CS-ERPS-00");
    assert_eq!(m.peryr, "2024");
    assert_eq!(m.perid, "002");
}

#[test]
fn module_row_without_id_is_skipped() {
    let rows = vec![
        g_row(None, &["child-of-node-0"], vec![g_cell(&["Nameless"], None)]),
        g_module_row("node-1", "Kept", "02.04.2024"),
        g_sub_row("node-1", "02.04.2024"),
    ];
    let grades = g_extract(rows);
    assert_eq!(grades.len(), 1);
    assert_eq!(grades[0].name, "Kept");
}

#[test]
fn module_without_attempt_rows_is_not_produced() {
    let grades = g_extract(vec![g_module_row("node-1", "Lonely", "02.04.2024")]);
    assert!(grades.is_empty());
}

#[test]
fn partial_exam_row_synthesized() {
    let part = g_row(
        None,
        &["child-of-node-1000"],
        vec![
            g_cell(&["  Partial Exam  "], None),
            g_cell(&["2,0"], None),
            g_cell(&[], Some("/images/green.png")),
            g_cell(&["4"], None),
            g_cell(&["01.02.2024"], None),
            g_cell(&["05.02.2024"], None),
            g_cell(&[], None),
            g_cell(&["SS 2024"], None),
        ],
    );
    let grades = g_extract(vec![part]);
    assert_eq!(grades.len(), 1);
    let g = &grades[0];
    assert_eq!(g.name, "Partial Exam");
    assert_eq!(g.grade, "2,0");
    assert_eq!(g.credit_points, 0);
    assert_eq!(g.akad_period, "SS 2024");
    assert_eq!(g.subgrades.len(), 1);
    let s = &g.subgrades[0];
    assert_eq!(s.name, "Partial Exam");
    assert_eq!(s.bekanntgabe, "05.02.2024");
    assert_eq!(s.wiederholung, None);
    assert!(s.internal_metadata.is_none());
}

#[test]
fn grades_sorted_by_descending_announcement_date() {
    let rows = vec![
        g_module_row("node-1", "Old", "11.04.2023"),
        g_sub_row("node-1", "11.04.2023"),
        g_module_row("node-2", "New", "18.07.2024"),
        g_sub_row("node-2", "18.07.2024"),
        g_module_row("node-3", "Broken", "kaputt"),
        g_sub_row("node-3", "kaputt"),
    ];
    let grades = g_extract(rows);
    assert_eq!(grades.len(), 3);
    assert_eq!(grades[0].name, "New");
    assert_eq!(grades[1].name, "Old");
    assert_eq!(grades[2].name, "Broken");
}

#[test]
fn equal_dates_keep_discovery_order() {
    let rows = vec![
        g_module_row("node-1", "First", "18.07.2024"),
        g_sub_row("node-1", "18.07.2024"),
        g_module_row("node-2", "Second", "18.07.2024"),
        g_sub_row("node-2", "18.07.2024"),
    ];
    let grades = g_extract(rows);
    assert_eq!(grades.len(), 2);
    assert_eq!(grades[0].name, "First");
    assert_eq!(grades[1].name, "Second");
}

#[test]
fn partial_rows_join_modules_under_the_global_ordering() {
    let part = g_row(
        None,
        &["child-of-node-1000"],
        vec![
            g_cell(&["Partial"], None),
            g_cell(&["2,0"], None),
            g_cell(&[], None),
            g_cell(&[], None),
            g_cell(&["01.05.2024"], None),
            g_cell(&["01.06.2024"], None),
            g_cell(&[], None),
            g_cell(&["SS 2024"], None),
        ],
    );
    let rows = vec![
        g_module_row("node-1", "Older", "11.04.2023"),
        g_sub_row("node-1", "11.04.2023"),
        part,
        g_module_row("node-2", "Newest", "18.07.2024"),
        g_sub_row("node-2", "18.07.2024"),
    ];
    let grades = g_extract(rows);
    assert_eq!(grades.len(), 3);
    assert_eq!(grades[0].name, "Newest");
    assert_eq!(grades[1].name, "Partial");
    assert_eq!(grades[2].name, "Older");
}

#[test]
fn missing_grades_table_yields_empty_list() {
    let grades = extract_grades(None);
    assert!(grades.is_empty());
}

#[test]
fn short_rows_resolve_to_documented_defaults() {
    let rows = vec![
        g_row(Some("node-1"), &["child-of-node-0"], vec![g_cell(&["Only Name"], None)]),
        g_row(None, &["child-of-node-1"], vec![]),
    ];
    let grades = g_extract(rows);
    assert_eq!(grades.len(), 1);
    let g = &grades[0];
    assert_eq!(g.name, "Only Name");
    assert_eq!(g.grade, "?");
    assert_eq!(g.total_passed, None);
    assert_eq!(g.credit_points, 0);
    assert_eq!(g.akad_period, "nicht vorhanden");
    let s = &g.subgrades[0];
    assert_eq!(s.name, "kein Name");
    assert_eq!(s.grade, "?");
    assert_eq!(s.passed, None);
    assert_eq!(s.beurteilung, "01.01.1970");
    assert_eq!(s.bekanntgabe, "01.01.1970");
    assert_eq!(s.akad_period, "nicht vorhanden");
}

#[test]
fn subgrade_metadata_is_all_or_nothing() {
    let mut sub = g_sub_row("node-1", "18.07.2024");
    sub.score_anchor = Some(ScoreAnchor {
        module: Some("5CS-ERPS-00".to_string()),
        peryr: Some("2024".to_string()),
        perid: None,
    });
    let grades = g_extract(vec![g_module_row("node-1", "Mod", "18.07.2024"), sub]);
    assert!(grades[0].subgrades[0].internal_metadata.is_none());
}

#[test]
fn credit_points_default_on_unparsable_text() {
    let mut module = g_module_row("node-1", "Mod", "18.07.2024");
    module.cells[3] = g_cell(&["fünf"], None);
    let grades = g_extract(vec![module, g_sub_row("node-1", "18.07.2024")]);
    assert_eq!(grades[0].credit_points, 0);
}

#[test]
fn credit_points_tolerate_leading_whitespace() {
    let mut module = g_module_row("node-1", "Mod", "18.07.2024");
    module.cells[3] = g_cell(&["  12"], None);
    let grades = g_extract(vec![module, g_sub_row("node-1", "18.07.2024")]);
    assert_eq!(grades[0].credit_points, 12);
}

#[test]
fn passed_flag_reads_icon_reference() {
    let mut module = g_module_row("node-1", "Mod", "18.07.2024");
    module.cells[2] = g_cell(&[], Some("/images/red.png"));
    let grades = g_extract(vec![module, g_sub_row("node-1", "18.07.2024")]);
    assert_eq!(grades[0].total_passed, Some(false));
    assert_eq!(grades[0].subgrades[0].passed, Some(true));
}
