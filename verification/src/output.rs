//! What the status table shows and how verbose tracing is.
use vstd::prelude::*;
use comfy_table::{Cell, Color, Table};
use crate::init::views;
use crate::text::{all_digits, decimal, decimal_reads_back, digits_value, push_decimal};
use crate::types::{format_uptime, health_text, process_state_text, uptime_text, HealthStatus, ProcessState, ServerSnapshot};

verus! {

/// Colour of a state cell in the status table.
#[derive(Clone, Copy, PartialEq, Eq, Structural, Debug)]
pub enum CellColor {
    Green,
    Yellow,
    Red,
    DarkGrey,
}

/// The colour of a lifecycle state: running is green, transitional states
/// are yellow, fatal is red, stopped is grey.
pub open spec fn state_color_of(p: ProcessState) -> CellColor {
    match p {
        ProcessState::Running => CellColor::Green,
        ProcessState::Starting => CellColor::Yellow,
        ProcessState::Backoff { .. } => CellColor::Yellow,
        ProcessState::Stopping => CellColor::Yellow,
        ProcessState::Fatal => CellColor::Red,
        ProcessState::Stopped => CellColor::DarkGrey,
    }
}

/// The colour of a state cell.
pub fn state_color(p: &ProcessState) -> (c: CellColor)
    ensures
        c == state_color_of(*p),
{
    match p {
        ProcessState::Running => CellColor::Green,
        ProcessState::Starting => CellColor::Yellow,
        ProcessState::Backoff { .. } => CellColor::Yellow,
        ProcessState::Stopping => CellColor::Yellow,
        ProcessState::Fatal => CellColor::Red,
        ProcessState::Stopped => CellColor::DarkGrey,
    }
}

/// The pid cell text: the pid, `-` when there is none.
pub open spec fn pid_text(pid: Option<u32>) -> Seq<char> {
    match pid {
        Some(p) => decimal(p as nat),
        None => seq!['-'],
    }
}

/// The colour of a health status: healthy is green, degraded yellow,
/// failed red, unknown grey.
pub open spec fn health_color_of(h: HealthStatus) -> CellColor {
    match h {
        HealthStatus::Healthy { .. } => CellColor::Green,
        HealthStatus::Degraded { .. } => CellColor::Yellow,
        HealthStatus::Failed { .. } => CellColor::Red,
        HealthStatus::Unknown => CellColor::DarkGrey,
    }
}

/// The colour of a health cell.
pub fn health_color(h: &HealthStatus) -> (c: CellColor)
    ensures
        c == health_color_of(*h),
{
    match h {
        HealthStatus::Healthy { .. } => CellColor::Green,
        HealthStatus::Degraded { .. } => CellColor::Yellow,
        HealthStatus::Failed { .. } => CellColor::Red,
        HealthStatus::Unknown => CellColor::DarkGrey,
    }
}

/// Green marks only a running server (or a healthy one), red only a fatal
/// (or failed) one, grey only a stopped (or unchecked) one; every other
/// state, being on its way somewhere, is yellow.
pub proof fn colours_single_out_states(p: ProcessState, h: HealthStatus)
    ensures
        state_color_of(p) == CellColor::Green <==> p is Running,
        state_color_of(p) == CellColor::Red <==> p is Fatal,
        state_color_of(p) == CellColor::DarkGrey <==> p is Stopped,
        state_color_of(p) == CellColor::Yellow <==> (p is Starting || p is Backoff || p is Stopping),
        health_color_of(h) == CellColor::Green <==> h is Healthy,
        health_color_of(h) == CellColor::Red <==> h is Failed,
        health_color_of(h) == CellColor::DarkGrey <==> h is Unknown,
        health_color_of(h) == CellColor::Yellow <==> h is Degraded,
{
}

/// A table cell: its text and, when it is coloured, its colour.
pub type TableCell = (String, Option<CellColor>);

/// The text `comfy_table` renders for a table with this header and rows of
/// these cell texts, when no cell is styled.
pub uninterp spec fn comfy_table_text(header: Seq<Seq<char>>, rows: Seq<Seq<Seq<char>>>) -> Seq<char>;

/// The text `comfy_table` renders for a table with this header and these
/// cells (text and colour) when it styles cells: each coloured cell in its
/// foreground colour, through crossterm's colour codes, which crossterm
/// leaves empty when `codes_disabled` (its `NO_COLOR` setting) holds.
pub uninterp spec fn comfy_table_styled_text(
    header: Seq<Seq<char>>,
    rows: Seq<Seq<(Seq<char>, Option<CellColor>)>>,
    codes_disabled: bool,
) -> Seq<char>;

/// `text` is what `comfy_table` renders for this header and these cells:
/// the plain text when styling is off, the styled text when it is on,
/// whichever crossterm's colour-code setting is.
pub open spec fn rendered_as(text: Seq<char>, header: Seq<Seq<char>>, cells: Seq<Seq<(Seq<char>, Option<CellColor>)>>) -> bool {
    ||| text == comfy_table_text(header, texts(cells))
    ||| text == comfy_table_styled_text(header, cells, false)
    ||| text == comfy_table_styled_text(header, cells, true)
}

/// The texts of the cells of `rows`.
pub open spec fn cell_texts(rows: Seq<Vec<TableCell>>) -> Seq<Seq<Seq<char>>> {
    rows.map_values(|row: Vec<TableCell>| row@.map_values(|c: TableCell| c.0@))
}

/// No cell of `rows` is coloured.
pub open spec fn uncoloured(rows: Seq<Vec<TableCell>>) -> bool {
    forall|i: int, j: int| 0 <= i < rows.len() && 0 <= j < rows[i]@.len() ==> (#[trigger] rows[i]@[j]).1 is None
}

/// Renders a table with `comfy_table`: a new `Table` (ASCII preset, no
/// content arrangement), the header set, each row added with every cell
/// given its colour as foreground colour, then `Table::to_string`.  The
/// layout depends on the header and cell texts alone.  Cells are styled
/// only when standard output is a terminal; the colour codes of a styled
/// cell come from crossterm, which omits them when the process's `NO_COLOR`
/// variable is set (read once per process).  So the text is the plain
/// rendering or the styled one under either setting, and the plain one
/// when no cell has a colour.
#[verifier::external_body]
fn render_table(header: &Vec<String>, rows: &Vec<Vec<TableCell>>) -> (r: String)
    ensures
        uncoloured(rows@) ==> r@ == comfy_table_text(views(header@), cell_texts(rows@)),
        r@ == comfy_table_text(views(header@), cell_texts(rows@)) || r@ == comfy_table_styled_text(
            views(header@),
            rows_view(rows@),
            false,
        ) || r@ == comfy_table_styled_text(views(header@), rows_view(rows@), true),
{
    let mut table = Table::new();
    table.set_header(header.clone());
    for row in rows {
        table.add_row(row.iter().map(|(text, c)| match c {
            None => Cell::new(text),
            Some(CellColor::Green) => Cell::new(text).fg(Color::Green),
            Some(CellColor::Yellow) => Cell::new(text).fg(Color::Yellow),
            Some(CellColor::Red) => Cell::new(text).fg(Color::Red),
            Some(CellColor::DarkGrey) => Cell::new(text).fg(Color::DarkGrey),
        }).collect::<Vec<Cell>>());
    }
    table.to_string()
}

/// The header of the status table.
pub open spec fn status_header() -> Seq<Seq<char>> {
    seq!["Name"@, "State"@, "Health"@, "PID"@, "Uptime"@, "Restarts"@, "Transport"@]
}

/// The uptime cell: `HH:MM:SS` of the seconds the process has run, `-`
/// when it has no start time.
pub open spec fn uptime_cell(uptime: Option<u64>) -> Seq<char> {
    match uptime {
        Some(secs) => uptime_text(secs as nat),
        None => seq!['-'],
    }
}

/// The row of a server: name, state, health, pid, uptime, restart count
/// and transport; with `color`, state and health in their colours.
pub open spec fn snapshot_row(name: Seq<char>, s: ServerSnapshot, uptime: Option<u64>, color: bool) -> Seq<(Seq<char>, Option<CellColor>)> {
    seq![
        (name, None),
        (process_state_text(s.process_state), if color { Some(state_color_of(s.process_state)) } else { None }),
        (health_text(s.health), if color { Some(health_color_of(s.health)) } else { None }),
        (pid_text(s.pid), None),
        (uptime_cell(uptime), None),
        (decimal(s.restart_count as nat), None),
        (s.transport@, None),
    ]
}

/// The cells of the status table, a row per server, `uptimes[i]` being
/// the uptime of server `i`.
pub open spec fn status_cells(servers: Seq<(String, ServerSnapshot)>, uptimes: Seq<Option<u64>>, color: bool) -> Seq<Seq<(Seq<char>, Option<CellColor>)>> {
    Seq::new(servers.len(), |i: int| snapshot_row(servers[i].0@, servers[i].1, uptimes[i], color))
}

/// Each row of the status table lines up with the header: under `Name` the
/// server's name, under `State` and `Health` the texts of its state and
/// health, under `PID` its pid (`-` without one), under `Uptime` its
/// uptime, under `Restarts` digits that read back as its restart count, and
/// under `Transport` its transport.  Only the state and health cells carry
/// a colour, and only when colour is asked for.
pub proof fn status_rows_follow_header(
    servers: Seq<(String, ServerSnapshot)>,
    uptimes: Seq<Option<u64>>,
    color: bool,
    i: int,
)
    requires
        uptimes.len() == servers.len(),
        0 <= i < servers.len(),
    ensures
        ({
            let h = status_header();
            let row = status_cells(servers, uptimes, color)[i];
            let s = servers[i].1;
            &&& h.len() == 7 && row.len() == 7
            &&& h[0] == "Name"@ && row[0].0 == servers[i].0@
            &&& h[1] == "State"@ && row[1].0 == process_state_text(s.process_state)
            &&& h[2] == "Health"@ && row[2].0 == health_text(s.health)
            &&& h[3] == "PID"@ && row[3].0 == pid_text(s.pid)
            &&& h[4] == "Uptime"@ && row[4].0 == uptime_cell(uptimes[i])
            &&& h[5] == "Restarts"@ && all_digits(row[5].0) && digits_value(row[5].0) == s.restart_count
            &&& h[6] == "Transport"@ && row[6].0 == s.transport@
            &&& forall|j: int| 0 <= j < 7 ==> ((#[trigger] row[j]).1 is Some <==> (color && (j == 1 || j == 2)))
        }),
{
    let row = status_cells(servers, uptimes, color)[i];
    decimal_reads_back(servers[i].1.restart_count as nat);
    assert forall|j: int| 0 <= j < 7 implies ((#[trigger] row[j]).1 is Some <==> (color && (j == 1 || j
        == 2))) by {
        if j == 0 {
        } else if j == 1 {
        } else if j == 2 {
        } else if j == 3 {
        } else if j == 4 {
        } else if j == 5 {
        } else {
        }
    }
}

/// The texts of table cells.
pub open spec fn texts(cells: Seq<Seq<(Seq<char>, Option<CellColor>)>>) -> Seq<Seq<Seq<char>>> {
    cells.map_values(|row: Seq<(Seq<char>, Option<CellColor>)>| row.map_values(|c: (Seq<char>, Option<CellColor>)| c.0))
}

/// The plain values of table rows.
pub open spec fn rows_view(rows: Seq<Vec<TableCell>>) -> Seq<Seq<(Seq<char>, Option<CellColor>)>> {
    rows.map_values(|row: Vec<TableCell>| row@.map_values(|c: TableCell| (c.0@, c.1)))
}

fn decimal_string(n: u64) -> (s: String)
    ensures
        s@ == decimal(n as nat),
{
    let mut s = String::new();
    push_decimal(&mut s, n);
    s
}

fn dash() -> (s: String)
    ensures
        s@ == seq!['-'],
{
    let s = String::from_str("-");
    proof {
        reveal_strlit("-");
    }
    s
}

fn row_cells(name: &str, s: &ServerSnapshot, uptime: Option<u64>, color: bool) -> (r: Vec<TableCell>)
    ensures
        r@.map_values(|c: TableCell| (c.0@, c.1)) == snapshot_row(name@, *s, uptime, color),
{
    let pid = match s.pid {
        Some(p) => decimal_string(p as u64),
        None => dash(),
    };
    let up = match uptime {
        Some(secs) => format_uptime(secs),
        None => dash(),
    };
    let mut r: Vec<TableCell> = Vec::new();
    r.push((String::from_str(name), None));
    r.push((s.process_state.to_display_string(), if color { Some(state_color(&s.process_state)) } else { None }));
    r.push((s.health.to_display_string(), if color { Some(health_color(&s.health)) } else { None }));
    r.push((pid, None));
    r.push((up, None));
    r.push((decimal_string(s.restart_count as u64), None));
    r.push((s.transport.clone(), None));
    assert(r@.map_values(|c: TableCell| (c.0@, c.1)) =~= snapshot_row(name@, *s, uptime, color));
    r
}

/// The rows of the status table, `uptimes[i]` being the uptime of server
/// `i`.
pub fn status_table_rows(servers: &[(String, ServerSnapshot)], uptimes: &Vec<Option<u64>>, color: bool) -> (r: Vec<Vec<TableCell>>)
    requires
        uptimes@.len() == servers@.len(),
    ensures
        rows_view(r@) == status_cells(servers@, uptimes@, color),
{
    let mut rows: Vec<Vec<TableCell>> = Vec::new();
    for i in 0..servers.len()
        invariant
            uptimes@.len() == servers@.len(),
            rows_view(rows@) == status_cells(servers@.take(i as int), uptimes@, color),
    {
        let row = row_cells(servers[i].0.as_str(), &servers[i].1, uptimes[i], color);
        let ghost before = rows_view(rows@);
        rows.push(row);
        assert(rows_view(rows@) =~= before.push(row@.map_values(|c: TableCell| (c.0@, c.1))));
        assert(status_cells(servers@.take(i + 1), uptimes@, color) =~= status_cells(servers@.take(i as int), uptimes@, color).push(
            snapshot_row(servers@[i as int].0@, servers@[i as int].1, uptimes@[i as int], color),
        ));
    }
    assert(servers@.take(servers@.len() as int) == servers@);
    rows
}

/// The status table as text, `uptimes[i]` being the uptime of server `i`;
/// state and health are coloured when `color` is set.
pub fn status_table_text(servers: &[(String, ServerSnapshot)], uptimes: &Vec<Option<u64>>, color: bool) -> (r: String)
    requires
        uptimes@.len() == servers@.len(),
    ensures
        !color ==> r@ == comfy_table_text(status_header(), texts(status_cells(servers@, uptimes@, false))),
        color ==> rendered_as(r@, status_header(), status_cells(servers@, uptimes@, true)),
{
    let mut header: Vec<String> = Vec::new();
    header.push(String::from_str("Name"));
    header.push(String::from_str("State"));
    header.push(String::from_str("Health"));
    header.push(String::from_str("PID"));
    header.push(String::from_str("Uptime"));
    header.push(String::from_str("Restarts"));
    header.push(String::from_str("Transport"));
    let rows = status_table_rows(servers, uptimes, color);
    proof {
        assert(views(header@) =~= status_header());
        let cv = rows_view(rows@);
        assert forall|i: int| 0 <= i < rows@.len() implies #[trigger] cell_texts(rows@)[i] =~= texts(cv)[i] by {
            assert(cv[i] == rows@[i]@.map_values(|c: TableCell| (c.0@, c.1)));
        }
        assert(cell_texts(rows@) =~= texts(cv));
        if !color {
            assert(cv.len() == rows@.len());
            assert forall|i: int, j: int| 0 <= i < rows@.len() && 0 <= j < rows@[i]@.len() implies (#[trigger] rows@[i]@[j]).1 is None by {
                assert(cv[i] == rows@[i]@.map_values(|c: TableCell| (c.0@, c.1)));
                assert(cv[i][j] == (rows@[i]@[j].0@, rows@[i]@[j].1));
                assert(cv[i] == snapshot_row(servers@[i].0@, servers@[i].1, uptimes@[i], false));
            }
        }
    }
    render_table(&header, &rows)
}

/// `Instant::elapsed`: the time since the instant; it depends on the
/// clock, so nothing is stated of it.
pub assume_specification[ std::time::Instant::elapsed ](i: &std::time::Instant) -> core::time::Duration;

/// `Duration::as_secs`: the whole seconds of a duration, which the library
/// holds as an opaque value, so nothing is stated of it.
pub assume_specification[ core::time::Duration::as_secs ](d: &core::time::Duration) -> u64;

/// The uptime of each server in seconds, for those with a start time.
fn uptimes_of(servers: &[(String, ServerSnapshot)]) -> (u: Vec<Option<u64>>)
    ensures
        u@.len() == servers@.len(),
        forall|i: int| 0 <= i < u@.len() ==> (#[trigger] u@[i] is Some <==> servers@[i].1.uptime_since is Some),
{
    let mut u: Vec<Option<u64>> = Vec::new();
    for i in 0..servers.len()
        invariant
            u@.len() == i,
            forall|k: int| 0 <= k < i ==> (#[trigger] u@[k] is Some <==> servers@[k].1.uptime_since is Some),
    {
        let up = match &servers[i].1.uptime_since {
            Some(t) => Some(t.elapsed().as_secs()),
            None => None,
        };
        u.push(up);
    }
    u
}

/// The status table of the servers as they are now: a row per server with
/// name, state, health, pid, uptime (`HH:MM:SS`, or `-`), restart count
/// and transport; state and health are coloured when `color` is set.  The
/// uptimes are read from the clock.
pub fn format_status_table(servers: &[(String, ServerSnapshot)], color: bool) -> (r: String)
    ensures
        exists|u: Seq<Option<u64>>|
            #![trigger status_cells(servers@, u, true)]
            u.len() == servers@.len() && (forall|i: int| 0 <= i < u.len() ==> (#[trigger] u[i] is Some <==> servers@[i].1.uptime_since is Some))
                && (!color ==> r@ == comfy_table_text(status_header(), texts(status_cells(servers@, u, false))))
                && (color ==> rendered_as(r@, status_header(), status_cells(servers@, u, true))),
{
    let uptimes = uptimes_of(servers);
    let r = status_table_text(servers, &uptimes, color);
    let ghost u = uptimes@;
    let ghost cells = status_cells(servers@, u, true);
    assert(u.len() == servers@.len() && (forall|i: int| 0 <= i < u.len() ==> (#[trigger] u[i] is Some <==> servers@[i].1.uptime_since is Some))
        && (!color ==> r@ == comfy_table_text(status_header(), texts(status_cells(servers@, u, false))))
        && (color ==> rendered_as(r@, status_header(), status_cells(servers@, u, true))));
    r
}

/// The tracing filter for a verbosity level: `warn` by default, `info` with
/// `-v`, `debug` with `-vv` or more.
pub fn tracing_filter(verbose: u8) -> (f: &'static str)
    ensures
        verbose == 0 ==> f@ == "warn"@,
        verbose == 1 ==> f@ == "info"@,
        verbose >= 2 ==> f@ == "debug"@,
{
    if verbose == 0 {
        "warn"
    } else if verbose == 1 {
        "info"
    } else {
        "debug"
    }
}

} // verus!
