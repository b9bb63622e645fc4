//! The listing as a table: its headers and the cells of a row.

use itertools::Itertools;
use vstd::prelude::*;
use crate::text::views;

verus! {

/// The cells that a live spec contributes to its row, each as it is shown.
#[derive(Clone, Debug)]
pub struct LiveSpecCells {
    pub live_spec_id: String,
    pub catalog_type: String,
    pub updated_at: String,
    pub data_plane_id: String,
    /// The names of the entries this one reads from, if they were asked for.
    pub reads_from: Option<Vec<String>>,
    /// The names of the entries this one writes to, if they were asked for.
    pub writes_to: Option<Vec<String>>,
}

/// One entry of a listing, ready to be shown.
#[derive(Clone, Debug)]
pub struct TableRow {
    pub catalog_name: String,
    /// Absent while the entry is being deleted.
    pub live_spec: Option<LiveSpecCells>,
    /// Who published the entry last, if that is known.
    pub user_info: Option<String>,
}

/// The strings of `parts` in order, with `sep` between each two of them.
pub open spec fn joined(parts: Seq<Seq<char>>, sep: Seq<char>) -> Seq<char>
    decreases parts.len(),
{
    if parts.len() == 0 {
        Seq::empty()
    } else if parts.len() == 1 {
        parts[0]
    } else {
        joined(parts.drop_last(), sep) + sep + parts.last()
    }
}

/// The text of a flows cell: one name per line, or nothing where the flows
/// are not known.
pub open spec fn flows_text(conn: Option<Vec<String>>) -> Seq<char> {
    match conn {
        Some(names) => joined(views(names@), "\n"@),
        None => Seq::empty(),
    }
}

/// The character sequences of a list of string slices, in the same order.
pub open spec fn slice_views(v: Seq<&'static str>) -> Seq<Seq<char>> {
    Seq::new(v.len(), |i: int| v[i]@)
}

/// The headers of the table, with or without the two flows columns.
pub open spec fn headers(flows: bool) -> Seq<Seq<char>> {
    let base = seq!["ID"@, "Name"@, "Type"@, "Updated"@, "Updated By"@, "Data Plane ID"@];
    if flows {
        base.push("Reads From"@).push("Writes To"@)
    } else {
        base
    }
}

/// The cells of a row, one per header.
pub open spec fn cells(row: TableRow, flows: bool) -> Seq<Seq<char>> {
    let user = match row.user_info {
        Some(user) => user@,
        None => "unknown"@,
    };
    let base = match row.live_spec {
        Some(spec) => seq![
            spec.live_spec_id@,
            row.catalog_name@,
            spec.catalog_type@,
            spec.updated_at@,
            user,
            spec.data_plane_id@,
        ],
        None => seq![
            Seq::empty(),
            row.catalog_name@,
            Seq::empty(),
            Seq::empty(),
            user,
            Seq::empty(),
        ],
    };
    if flows {
        match row.live_spec {
            Some(spec) => base.push(flows_text(spec.reads_from)).push(flows_text(spec.writes_to)),
            None => base.push(Seq::empty()).push(Seq::empty()),
        }
    } else {
        base
    }
}

/// Joins the strings with `sep` between them.
///
/// Trusted: `Itertools::join` returns the empty string for no elements, and
/// otherwise the first element followed, for each further element, by `sep`
/// and that element, each written by its `Display`; a string displays as
/// itself.
#[verifier::external_body]
fn join_with(parts: &Vec<String>, sep: &str) -> (r: String)
    ensures
        r@ == joined(views(parts@), sep@),
{
    parts.iter().join(sep)
}

/// The headers of the table. With `flows`, the table has two more columns:
/// what each entry reads from and what it writes to.
pub fn table_headers(flows: bool) -> (r: Vec<&'static str>)
    ensures
        slice_views(r@) == headers(flows),
{
    let mut r = vec!["ID", "Name", "Type", "Updated", "Updated By", "Data Plane ID"];
    if flows {
        r.push("Reads From");
        r.push("Writes To");
    }
    assert(slice_views(r@) =~= headers(flows));
    r
}

/// The text of a flows cell: the names of the connected entries, one per
/// line. Flows that are not known give an empty cell.
pub fn format_flows(conn: Option<&Vec<String>>) -> (r: String)
    ensures
        r@ == match conn {
            Some(names) => joined(views(names@), "\n"@),
            None => Seq::<char>::empty(),
        },
{
    match conn {
        Some(names) => join_with(names, "\n"),
        None => String::new(),
    }
}

/// The cells of a row in the order of the headers. An entry without live spec
/// has empty cells but for its name and its publisher; an unknown publisher
/// is shown as "unknown".
pub fn into_table_row(row: TableRow, flows: bool) -> (r: Vec<String>)
    ensures
        views(r@) == cells(row, flows),
{
    let TableRow { catalog_name, live_spec, user_info } = row;
    let user = match user_info {
        Some(user) => user,
        None => "unknown".to_owned(),
    };
    let mut out: Vec<String> = Vec::new();
    match live_spec {
        Some(spec) => {
            let LiveSpecCells {
                live_spec_id,
                catalog_type,
                updated_at,
                data_plane_id,
                reads_from,
                writes_to,
            } = spec;
            out.push(live_spec_id);
            out.push(catalog_name);
            out.push(catalog_type);
            out.push(updated_at);
            out.push(user);
            out.push(data_plane_id);
            if flows {
                out.push(format_flows(reads_from.as_ref()));
                out.push(format_flows(writes_to.as_ref()));
            }
        },
        None => {
            out.push(String::new());
            out.push(catalog_name);
            out.push(String::new());
            out.push(String::new());
            out.push(user);
            out.push(String::new());
            if flows {
                out.push(String::new());
                out.push(String::new());
            }
        },
    }
    assert(views(out@) =~= cells(row, flows));
    out
}

} // verus!
