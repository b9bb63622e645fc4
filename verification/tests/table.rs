use catalog_list::table::{format_flows, into_table_row, table_headers, LiveSpecCells, TableRow};

fn strings(values: &[&str]) -> Vec<String> {
    values.iter().map(|v| v.to_string()).collect()
}

fn live_row(reads: Option<Vec<String>>, writes: Option<Vec<String>>) -> TableRow {
    TableRow {
        catalog_name: "acmeCo/anvils".to_string(),
        live_spec: Some(LiveSpecCells {
            live_spec_id: "0a:0b:0c:0d:0e:0f:10:11".to_string(),
            catalog_type: "collection".to_string(),
            updated_at: "2024-05-06T07:08:09+00:00".to_string(),
            data_plane_id: "01:02:03:04:05:06:07:08".to_string(),
            reads_from: reads,
            writes_to: writes,
        }),
        user_info: Some("Wile E. Coyote <wile@coyote.example>".to_string()),
    }
}

#[test]
fn headers_without_flows() {
    assert_eq!(
        table_headers(false),
        vec!["ID", "Name", "Type", "Updated", "Updated By", "Data Plane ID"]
    );
}

#[test]
fn headers_with_flows() {
    assert_eq!(
        table_headers(true),
        vec![
            "ID",
            "Name",
            "Type",
            "Updated",
            "Updated By",
            "Data Plane ID",
            "Reads From",
            "Writes To"
        ]
    );
}

#[test]
fn flows_are_one_name_per_line() {
    let names = strings(&["acmeCo/a", "acmeCo/b", "acmeCo/c"]);
    assert_eq!(format_flows(Some(&names)), "acmeCo/a\nacmeCo/b\nacmeCo/c");
}

#[test]
fn one_flow_has_no_line_break() {
    let names = strings(&["acmeCo/a"]);
    assert_eq!(format_flows(Some(&names)), "acmeCo/a");
}

#[test]
fn no_flows_give_an_empty_cell() {
    assert_eq!(format_flows(Some(&Vec::new())), "");
    assert_eq!(format_flows(None), "");
}

#[test]
fn row_without_flows() {
    let row = live_row(Some(strings(&["acmeCo/a"])), None);
    assert_eq!(
        into_table_row(row, false),
        strings(&[
            "0a:0b:0c:0d:0e:0f:10:11",
            "acmeCo/anvils",
            "collection",
            "2024-05-06T07:08:09+00:00",
            "Wile E. Coyote <wile@coyote.example>",
            "01:02:03:04:05:06:07:08",
        ])
    );
}

#[test]
fn row_with_flows() {
    let row = live_row(Some(strings(&["acmeCo/a", "acmeCo/b"])), None);
    assert_eq!(
        into_table_row(row, true),
        strings(&[
            "0a:0b:0c:0d:0e:0f:10:11",
            "acmeCo/anvils",
            "collection",
            "2024-05-06T07:08:09+00:00",
            "Wile E. Coyote <wile@coyote.example>",
            "01:02:03:04:05:06:07:08",
            "acmeCo/a\nacmeCo/b",
            "",
        ])
    );
}

#[test]
fn row_of_an_entry_that_is_being_deleted() {
    let row = TableRow {
        catalog_name: "acmeCo/gone".to_string(),
        live_spec: None,
        user_info: None,
    };
    assert_eq!(
        into_table_row(row.clone(), false),
        strings(&["", "acmeCo/gone", "", "", "unknown", ""])
    );
    assert_eq!(
        into_table_row(row, true),
        strings(&["", "acmeCo/gone", "", "", "unknown", "", "", ""])
    );
}

#[test]
fn rows_have_one_cell_per_header() {
    for flows in [false, true] {
        let row = live_row(None, Some(strings(&["acmeCo/x"])));
        assert_eq!(into_table_row(row, flows).len(), table_headers(flows).len());
    }
}
