//! The files that a fairness run leaves behind.

use crate::control_plane::experiment::text_view;
use crate::text::{
    after_last, chars_of, decimal, decimal_of, has_text, is_ascii_text, joined, joined3, joined7, lower_of,
    lower_text, lowercase, occurs_at, rest_after_last, separated, string_from, string_of,
};
use crate::words::{trim, trimmed};
use vstd::prelude::*;
use vstd::string::*;

verus! {

/// A data point with its numbers written out, with three decimals each.
#[derive(Debug)]
pub struct PointTexts {
    pub timestamp_secs: String,
    pub latency_ms: String,
    pub is_error: bool,
    pub label: Option<String>,
    pub scheduled_latency_ms: Option<String>,
    pub slot_timestamp_secs: Option<String>,
}

/// What a data point says.
pub struct PointView {
    pub timestamp_secs: Seq<char>,
    pub latency_ms: Seq<char>,
    pub is_error: bool,
    pub label: Option<Seq<char>>,
    pub scheduled_latency_ms: Option<Seq<char>>,
    pub slot_timestamp_secs: Option<Seq<char>>,
}

impl View for PointTexts {
    type V = PointView;

    open spec fn view(&self) -> PointView {
        PointView {
            timestamp_secs: self.timestamp_secs@,
            latency_ms: self.latency_ms@,
            is_error: self.is_error,
            label: text_view(self.label),
            scheduled_latency_ms: text_view(self.scheduled_latency_ms),
            slot_timestamp_secs: text_view(self.slot_timestamp_secs),
        }
    }
}

/// What a list of data points says.
pub open spec fn point_views(points: Seq<PointTexts>) -> Seq<PointView> {
    Seq::new(points.len(), |i: int| points[i]@)
}

/// What stands in a column that may be empty.
pub open spec fn column(text: Option<Seq<char>>) -> Seq<char> {
    match text {
        Some(text) => text,
        None => ""@,
    }
}

/// How a truth value is written.
pub open spec fn truth(value: bool) -> Seq<char> {
    if value {
        "true"@
    } else {
        "false"@
    }
}

/// What stands in a column that may be empty.
fn column_of(text: &Option<String>) -> (r: String)
    ensures
        r@ == column(text_view(*text)),
{
    match text {
        Some(text) => text.clone(),
        None => string_from(""),
    }
}

/// How a truth value is written.
fn truth_of(value: bool) -> (r: &'static str)
    ensures
        r@ == truth(value),
{
    if value {
        "true"
    } else {
        "false"
    }
}

/// A data point's row in the table of a phase. The two columns of the schedule
/// come last, so that a reader of the first five is not disturbed by them.
pub open spec fn phase_row(tenant: Seq<char>, point: PointView) -> Seq<char> {
    tenant + ","@ + point.timestamp_secs + ","@ + point.latency_ms + ","@ + truth(point.is_error)
        + ","@ + column(point.label) + ","@ + column(point.scheduled_latency_ms) + ","@ + column(
        point.slot_timestamp_secs,
    ) + "\n"@
}

/// The rows of a tenant's first `n` data points, below what stands above them.
pub open spec fn phase_rows(
    above: Seq<char>,
    tenant: Seq<char>,
    points: Seq<PointView>,
    n: int,
) -> Seq<char>
    decreases n,
{
    if n <= 0 {
        above
    } else {
        phase_rows(above, tenant, points, n - 1) + phase_row(tenant, points[n - 1])
    }
}

/// The head of the table of a phase.
pub open spec fn phase_head() -> Seq<char> {
    "tenant,timestamp_secs,latency_ms,is_error,label,scheduled_latency_ms,slot_timestamp_secs\n"@
}

/// The table of a phase: the first tenant's data points, then the second's.
pub open spec fn phase_table(tenant1: Seq<PointView>, tenant2: Seq<PointView>) -> Seq<char> {
    phase_rows(
        phase_rows(phase_head(), "tenant1"@, tenant1, tenant1.len() as int),
        "tenant2"@,
        tenant2,
        tenant2.len() as int,
    )
}

/// A data point's row in the table of a phase.
fn write_row(tenant: &str, point: &PointTexts) -> (r: String)
    ensures
        r@ == phase_row(tenant@, point@),
{
    joined7(
        tenant,
        ",",
        &point.timestamp_secs,
        ",",
        &point.latency_ms,
        ",",
        truth_of(point.is_error),
    ).concat(",").concat(&column_of(&point.label)).concat(",").concat(
        &column_of(&point.scheduled_latency_ms),
    ).concat(",").concat(&column_of(&point.slot_timestamp_secs)).concat("\n")
}

/// Adds the rows of a tenant's data points.
fn write_rows(above: String, tenant: &str, points: &Vec<PointTexts>) -> (r: String)
    ensures
        r@ == phase_rows(above@, tenant@, point_views(points@), points.len() as int),
{
    let ghost start = above@;
    let ghost views = point_views(points@);
    let mut out = above;
    let mut i: usize = 0;
    while i < points.len()
        invariant
            i <= points.len(),
            views == point_views(points@),
            out@ == phase_rows(start, tenant@, views, i as int),
        decreases points.len() - i,
    {
        assert(views[i as int] == points[i as int]@);
        out = out.concat(&write_row(tenant, &points[i]));
        i += 1;
    }
    out
}

/// The table of a phase: the first tenant's data points, then the second's.
pub fn write_csv(tenant1: &Vec<PointTexts>, tenant2: &Vec<PointTexts>) -> (r: String)
    ensures
        r@ == phase_table(point_views(tenant1@), point_views(tenant2@)),
{
    let head = string_from(
        "tenant,timestamp_secs,latency_ms,is_error,label,scheduled_latency_ms,slot_timestamp_secs\n",
    );
    write_rows(write_rows(head, "tenant1", tenant1), "tenant2", tenant2)
}

/// A data point's row in a tenant's own table.
pub open spec fn metric_row(point: PointView) -> Seq<char> {
    point.timestamp_secs + ","@ + point.latency_ms + ","@ + truth(point.is_error) + ","@ + column(
        point.label,
    ) + "\n"@
}

/// A tenant's own table with the first `n` data points.
pub open spec fn metric_table(points: Seq<PointView>, n: int) -> Seq<char>
    decreases n,
{
    if n <= 0 {
        "timestamp_secs,latency_ms,is_error,operation\n"@
    } else {
        metric_table(points, n - 1) + metric_row(points[n - 1])
    }
}

/// A tenant's own table.
pub fn write_metrics_csv(points: &Vec<PointTexts>) -> (r: String)
    ensures
        r@ == metric_table(point_views(points@), points.len() as int),
{
    let ghost views = point_views(points@);
    let mut out = string_from("timestamp_secs,latency_ms,is_error,operation\n");
    let mut i: usize = 0;
    while i < points.len()
        invariant
            i <= points.len(),
            views == point_views(points@),
            out@ == metric_table(views, i as int),
        decreases points.len() - i,
    {
        assert(views[i as int] == points[i as int]@);
        let row = joined7(
            &points[i].timestamp_secs,
            ",",
            &points[i].latency_ms,
            ",",
            truth_of(points[i].is_error),
            ",",
            &column_of(&points[i].label),
        ).concat("\n");
        out = out.concat(&row);
        i += 1;
    }
    out
}

// ---- Names -----------------------------------------------------------------

/// A character of a subsystem's name as it stands in a file's name.
pub open spec fn file_char(c: char) -> char {
    if c == ' ' {
        '_'
    } else {
        c
    }
}

/// A subsystem's name as it stands in a file's name: in lower case, with `_` for
/// each space.
pub open spec fn file_name(subsystem: Seq<char>) -> Seq<char> {
    underscored(lower_text(subsystem))
}

/// A text with `_` for each space.
pub open spec fn underscored(text: Seq<char>) -> Seq<char> {
    text.map_values(|c: char| file_char(c))
}

/// A text with `_` for each space.
pub fn underscore(text: &str) -> (r: String)
    ensures
        r@ == underscored(text@),
{
    let chars = chars_of(text);
    let mut out = String::new();
    let mut i: usize = 0;
    while i < chars.len()
        invariant
            i <= chars.len(),
            chars@ == text@,
            out@ == underscored(text@).take(i as int),
        decreases chars.len() - i,
    {
        out.push(if chars[i] == ' ' { '_' } else { chars[i] });
        assert(underscored(text@).take(i + 1) =~= underscored(text@).take(i as int).push(
            underscored(text@)[i as int],
        ));
        i += 1;
    }
    assert(underscored(text@).take(chars.len() as int) =~= underscored(text@));
    out
}

/// A subsystem's name as it stands in a file's name.
pub fn file_name_of(subsystem: &str) -> (r: String)
    ensures
        r@ == file_name(subsystem@),
        is_ascii_text(subsystem@) ==> r@ == underscored(lowercase(subsystem@)),
{
    underscore(&lower_of(subsystem))
}

/// The path of a file that a run leaves behind.
pub open spec fn path_of(
    dir: Seq<char>,
    subsystem: Seq<char>,
    part: Seq<char>,
    timestamp: nat,
    extension: Seq<char>,
) -> Seq<char> {
    dir + "/"@ + file_name(subsystem) + part + decimal(timestamp) + extension
}

/// The last part of a path.
pub open spec fn base_name(path: Seq<char>) -> Seq<char> {
    match after_last(path, "/"@) {
        Some(name) => name,
        None => path,
    }
}

/// Where a run's files go. They share the time at which the run started, so that
/// the three of them can be joined on it.
#[derive(Debug)]
pub struct ExportPaths {
    pub baseline: String,
    pub unbalanced: String,
    pub manifest: String,
    /// The name of the baseline's file without its directory.
    pub baseline_name: String,
    /// The name of the unbalanced phase's file without its directory.
    pub unbalanced_name: String,
}

/// The last part of a path.
fn base_name_of(path: &str) -> (r: String)
    ensures
        r@ == base_name(path@),
{
    let chars = chars_of(path);
    match rest_after_last(&chars, &chars_of("/")) {
        Some(name) => {
            let text = string_of(&name, 0, name.len());
            assert(text@ =~= name@);
            text
        },
        None => string_from(path),
    }
}

/// Where a run's files go.
pub fn export_paths(dir: &str, subsystem: &str, timestamp: u64) -> (r: ExportPaths)
    ensures
        r.baseline@ == path_of(dir@, subsystem@, "_baseline_"@, timestamp as nat, ".csv"@),
        r.unbalanced@ == path_of(dir@, subsystem@, "_unbalanced_"@, timestamp as nat, ".csv"@),
        r.manifest@ == path_of(dir@, subsystem@, "_manifest_"@, timestamp as nat, ".json"@),
        r.baseline_name@ == base_name(r.baseline@),
        r.unbalanced_name@ == base_name(r.unbalanced@),
{
    let name = file_name_of(subsystem);
    let time = decimal_of(timestamp);
    let baseline = joined3(dir, "/", &name).concat("_baseline_").concat(&time).concat(".csv");
    let unbalanced = joined3(dir, "/", &name).concat("_unbalanced_").concat(&time).concat(".csv");
    let manifest = joined3(dir, "/", &name).concat("_manifest_").concat(&time).concat(".json");
    let baseline_name = base_name_of(&baseline);
    let unbalanced_name = base_name_of(&unbalanced);
    ExportPaths { baseline, unbalanced, manifest, baseline_name, unbalanced_name }
}

/// What is shown when the files were written.
pub open spec fn export_lines(
    dir: Seq<char>,
    baseline: Seq<char>,
    unbalanced: Seq<char>,
    manifest: Seq<char>,
) -> Seq<char> {
    "  📁 Exported to "@ + dir + "/\n      - "@ + baseline + "\n      - "@ + unbalanced
        + "\n      - "@ + manifest + "\n"@
}

/// What is shown when the files were written.
pub fn announce_export(dir: &str, paths: &ExportPaths) -> (r: String)
    ensures
        r@ == export_lines(dir@, paths.baseline@, paths.unbalanced@, paths.manifest@),
{
    joined7(
        "  📁 Exported to ",
        dir,
        "/\n      - ",
        &paths.baseline,
        "\n      - ",
        &paths.unbalanced,
        "\n      - ",
    ).concat(&paths.manifest).concat("\n")
}

/// Where the files of a run go that keeps each tenant in a table of its own.
#[derive(Debug)]
pub struct DetailedPaths {
    pub baseline_tenant1: String,
    pub baseline_tenant2: String,
    pub unbalanced_regular: String,
    pub unbalanced_malicious: String,
    pub metadata: String,
}

/// The path of a file of a run that keeps each tenant in a table of its own.
pub open spec fn detailed_path(
    dir: Seq<char>,
    subsystem: Seq<char>,
    part: Seq<char>,
    timestamp: nat,
    extension: Seq<char>,
) -> Seq<char> {
    dir + "/fairness_"@ + file_name(subsystem) + part + decimal(timestamp) + extension
}

/// Where the files of a run go that keeps each tenant in a table of its own.
pub fn detailed_paths(dir: &str, subsystem: &str, timestamp: u64) -> (r: DetailedPaths)
    ensures
        r.baseline_tenant1@ == detailed_path(
            dir@,
            subsystem@,
            "_baseline_tenant1_"@,
            timestamp as nat,
            ".csv"@,
        ),
        r.baseline_tenant2@ == detailed_path(
            dir@,
            subsystem@,
            "_baseline_tenant2_"@,
            timestamp as nat,
            ".csv"@,
        ),
        r.unbalanced_regular@ == detailed_path(
            dir@,
            subsystem@,
            "_unbalanced_regular_"@,
            timestamp as nat,
            ".csv"@,
        ),
        r.unbalanced_malicious@ == detailed_path(
            dir@,
            subsystem@,
            "_unbalanced_malicious_"@,
            timestamp as nat,
            ".csv"@,
        ),
        r.metadata@ == detailed_path(
            dir@,
            subsystem@,
            "_metadata_"@,
            timestamp as nat,
            ".json"@,
        ),
{
    let start = joined3(dir, "/fairness_", &file_name_of(subsystem));
    let csv = joined(&decimal_of(timestamp), ".csv");
    let json = joined(&decimal_of(timestamp), ".json");
    let paths = DetailedPaths {
        baseline_tenant1: joined3(&start, "_baseline_tenant1_", &csv),
        baseline_tenant2: joined3(&start, "_baseline_tenant2_", &csv),
        unbalanced_regular: joined3(&start, "_unbalanced_regular_", &csv),
        unbalanced_malicious: joined3(&start, "_unbalanced_malicious_", &csv),
        metadata: joined3(&start, "_metadata_", &json),
    };
    proof {
        let dir = dir@;
        let name = subsystem@;
        let time = timestamp as nat;
        assert(paths.baseline_tenant1@ =~= detailed_path(
            dir,
            name,
            "_baseline_tenant1_"@,
            time,
            ".csv"@,
        ));
        assert(paths.baseline_tenant2@ =~= detailed_path(
            dir,
            name,
            "_baseline_tenant2_"@,
            time,
            ".csv"@,
        ));
        assert(paths.unbalanced_regular@ =~= detailed_path(
            dir,
            name,
            "_unbalanced_regular_"@,
            time,
            ".csv"@,
        ));
        assert(paths.unbalanced_malicious@ =~= detailed_path(
            dir,
            name,
            "_unbalanced_malicious_"@,
            time,
            ".csv"@,
        ));
        assert(paths.metadata@ =~= detailed_path(dir, name, "_metadata_"@, time, ".json"@));
    }
    paths
}

// ---- The manifest ----------------------------------------------------------

/// The commit that a result set is traced back to: none where the revision could
/// not be read or is blank, and marked where the working tree has changes.
pub open spec fn commit_label(revision: Option<Seq<char>>, dirty: bool) -> Option<Seq<char>> {
    match revision {
        Some(output) => if trimmed(output).len() == 0 {
            None
        } else if dirty {
            Some(trimmed(output) + "-dirty"@)
        } else {
            Some(trimmed(output))
        },
        None => None,
    }
}

/// The commit that a result set is traced back to, from what `git rev-parse`
/// printed and whether `git status` showed changes.
pub fn git_commit_hash(revision: Option<&str>, dirty: bool) -> (r: Option<String>)
    ensures
        text_view(r) == commit_label(
            match revision {
                Some(output) => Some(output@),
                None => None,
            },
            dirty,
        ),
{
    let output = match revision {
        Some(output) => output,
        None => {
            return None;
        },
    };
    let kept = trim(&chars_of(output));
    if kept.len() == 0 {
        return None;
    }
    let hash = string_of(&kept, 0, kept.len());
    assert(hash@ =~= kept@);
    if dirty {
        Some(joined(&hash, "-dirty"))
    } else {
        Some(hash)
    }
}

/// The place of the 95th percentile among `count` samples in ascending order: the
/// first below which, itself counted, lie 95 of 100.
pub fn p95_index(count: usize) -> (r: usize)
    requires
        count > 0,
    ensures
        r < count,
        100 * (r + 1) >= 95 * count,
        100 * r < 95 * count,
{
    let scaled: u128 = count as u128 * 95;
    let above: u128 = (scaled + 99) / 100;
    (above - 1) as usize
}

/// The three files of a run are different ones.
pub proof fn export_paths_are_distinct(dir: Seq<char>, subsystem: Seq<char>, timestamp: nat)
    ensures
        path_of(dir, subsystem, "_baseline_"@, timestamp, ".csv"@) != path_of(
            dir,
            subsystem,
            "_unbalanced_"@,
            timestamp,
            ".csv"@,
        ),
        path_of(dir, subsystem, "_baseline_"@, timestamp, ".csv"@) != path_of(
            dir,
            subsystem,
            "_manifest_"@,
            timestamp,
            ".json"@,
        ),
        path_of(dir, subsystem, "_unbalanced_"@, timestamp, ".csv"@) != path_of(
            dir,
            subsystem,
            "_manifest_"@,
            timestamp,
            ".json"@,
        ),
{
    reveal_strlit("_baseline_");
    reveal_strlit("_unbalanced_");
    reveal_strlit("_manifest_");
    reveal_strlit("/");
    let at = (dir + "/"@ + file_name(subsystem)).len() as int + 1;
    let baseline = path_of(dir, subsystem, "_baseline_"@, timestamp, ".csv"@);
    let unbalanced = path_of(dir, subsystem, "_unbalanced_"@, timestamp, ".csv"@);
    let manifest = path_of(dir, subsystem, "_manifest_"@, timestamp, ".json"@);
    assert(baseline[at] == 'b');
    assert(unbalanced[at] == 'u');
    assert(manifest[at] == 'm');
}

/// How many commas a text holds.
pub open spec fn commas(text: Seq<char>) -> nat
    decreases text.len(),
{
    if text.len() == 0 {
        0
    } else {
        commas(text.drop_last()) + if text.last() == ',' {
            1nat
        } else {
            0nat
        }
    }
}

/// The commas of two texts add up.
proof fn commas_add_up(a: Seq<char>, b: Seq<char>)
    ensures
        commas(a + b) == commas(a) + commas(b),
    decreases b.len(),
{
    if b.len() == 0 {
        assert(a + b =~= a);
    } else {
        assert((a + b).drop_last() =~= a + b.drop_last());
        assert((a + b).last() == b.last());
        commas_add_up(a, b.drop_last());
    }
}

/// How many commas stand in what the library itself writes into a row.
proof fn commas_of_what_is_between()
    ensures
        commas(","@) == 1,
        commas("\n"@) == 0,
        commas("true"@) == 0,
        commas("false"@) == 0,
{
    reveal_strlit(",");
    reveal_strlit("\n");
    reveal_strlit("true");
    reveal_strlit("false");
    reveal_with_fuel(commas, 7);
}

/// Every row has the same number of columns: a field that is absent is left
/// empty, not dropped. The fields themselves hold no commas.
pub proof fn every_row_has_the_same_columns(tenant: Seq<char>, point: PointView)
    requires
        commas(tenant) == 0,
        commas(point.timestamp_secs) == 0,
        commas(point.latency_ms) == 0,
        commas(column(point.label)) == 0,
        commas(column(point.scheduled_latency_ms)) == 0,
        commas(column(point.slot_timestamp_secs)) == 0,
    ensures
        commas(phase_row(tenant, point)) == 6,
{
    commas_of_what_is_between();
    let fields = seq![
        point.timestamp_secs,
        point.latency_ms,
        truth(point.is_error),
        column(point.label),
        column(point.scheduled_latency_ms),
        column(point.slot_timestamp_secs),
    ];
    let row1 = tenant + ","@ + fields[0];
    commas_add_up(tenant, ","@);
    commas_add_up(tenant + ","@, fields[0]);
    let row2 = row1 + ","@ + fields[1];
    commas_add_up(row1, ","@);
    commas_add_up(row1 + ","@, fields[1]);
    let row3 = row2 + ","@ + fields[2];
    commas_add_up(row2, ","@);
    commas_add_up(row2 + ","@, fields[2]);
    let row4 = row3 + ","@ + fields[3];
    commas_add_up(row3, ","@);
    commas_add_up(row3 + ","@, fields[3]);
    let row5 = row4 + ","@ + fields[4];
    commas_add_up(row4, ","@);
    commas_add_up(row4 + ","@, fields[4]);
    let row6 = row5 + ","@ + fields[5];
    commas_add_up(row5, ","@);
    commas_add_up(row5 + ","@, fields[5]);
    commas_add_up(row6, "\n"@);
}

/// Texts with commas between them and a line feed at the end.
proof fn seven_columns(list: Seq<Seq<char>>)
    requires
        list.len() == 7,
    ensures
        separated(list, ","@) == list[0] + ","@ + list[1] + ","@ + list[2] + ","@ + list[3] + ","@
            + list[4] + ","@ + list[5] + ","@ + list[6],
{
    four_columns(list.take(4));
    let (five, six) = (list.take(5), list.take(6));
    assert(list.drop_last() =~= six);
    assert(six.drop_last() =~= five);
    assert(five.drop_last() =~= list.take(4));
    assert(separated(five, ","@) == separated(list.take(4), ","@) + ","@ + list[4]);
    assert(separated(six, ","@) == separated(five, ","@) + ","@ + list[5]);
}

proof fn four_columns(list: Seq<Seq<char>>)
    requires
        list.len() == 4,
    ensures
        separated(list, ","@) == list[0] + ","@ + list[1] + ","@ + list[2] + ","@ + list[3],
{
    let (one, two, three) = (list.take(1), list.take(2), list.take(3));
    assert(list.drop_last() =~= three);
    assert(three.drop_last() =~= two);
    assert(two.drop_last() =~= one);
    assert(separated(one, ","@) == list[0]);
    assert(separated(two, ","@) == list[0] + ","@ + list[1]);
    assert(separated(three, ","@) == separated(two, ","@) + ","@ + list[2]);
}

/// Each column holds what its name says: the rows of a phase have their fields
/// in the order in which the first line names them.
pub proof fn the_columns_are_as_named(tenant: Seq<char>, point: PointView)
    ensures
        phase_head() == separated(
            seq![
                "tenant"@,
                "timestamp_secs"@,
                "latency_ms"@,
                "is_error"@,
                "label"@,
                "scheduled_latency_ms"@,
                "slot_timestamp_secs"@,
            ],
            ","@,
        ) + "\n"@,
        phase_row(tenant, point) == separated(
            seq![
                tenant,
                point.timestamp_secs,
                point.latency_ms,
                if point.is_error {
                    "true"@
                } else {
                    "false"@
                },
                match point.label {
                    Some(label) => label,
                    None => ""@,
                },
                match point.scheduled_latency_ms {
                    Some(latency) => latency,
                    None => ""@,
                },
                match point.slot_timestamp_secs {
                    Some(time) => time,
                    None => ""@,
                },
            ],
            ","@,
        ) + "\n"@,
{
    reveal_strlit("tenant");
    reveal_strlit("timestamp_secs");
    reveal_strlit("latency_ms");
    reveal_strlit("is_error");
    reveal_strlit("label");
    reveal_strlit("scheduled_latency_ms");
    reveal_strlit("slot_timestamp_secs");
    reveal_strlit(",");
    reveal_strlit("\n");
    reveal_strlit(
        "tenant,timestamp_secs,latency_ms,is_error,label,scheduled_latency_ms,slot_timestamp_secs\n",
    );
    let names = seq![
        "tenant"@,
        "timestamp_secs"@,
        "latency_ms"@,
        "is_error"@,
        "label"@,
        "scheduled_latency_ms"@,
        "slot_timestamp_secs"@,
    ];
    let fields = seq![
        tenant,
        point.timestamp_secs,
        point.latency_ms,
        if point.is_error {
            "true"@
        } else {
            "false"@
        },
        match point.label {
            Some(label) => label,
            None => ""@,
        },
        match point.scheduled_latency_ms {
            Some(latency) => latency,
            None => ""@,
        },
        match point.slot_timestamp_secs {
            Some(time) => time,
            None => ""@,
        },
    ];
    seven_columns(names);
    seven_columns(fields);
    assert(phase_head() =~= separated(names, ","@) + "\n"@);
}

/// The columns of a single tenant's measurements are as named too.
pub proof fn the_metric_columns_are_as_named(point: PointView)
    ensures
        metric_table(seq![], 0) == separated(
            seq!["timestamp_secs"@, "latency_ms"@, "is_error"@, "operation"@],
            ","@,
        ) + "\n"@,
        metric_row(point) == separated(
            seq![
                point.timestamp_secs,
                point.latency_ms,
                if point.is_error {
                    "true"@
                } else {
                    "false"@
                },
                match point.label {
                    Some(label) => label,
                    None => ""@,
                },
            ],
            ","@,
        ) + "\n"@,
{
    reveal_strlit("timestamp_secs");
    reveal_strlit("latency_ms");
    reveal_strlit("is_error");
    reveal_strlit("operation");
    reveal_strlit(",");
    reveal_strlit("\n");
    reveal_strlit("timestamp_secs,latency_ms,is_error,operation\n");
    let names = seq!["timestamp_secs"@, "latency_ms"@, "is_error"@, "operation"@];
    let fields = seq![
        point.timestamp_secs,
        point.latency_ms,
        if point.is_error {
            "true"@
        } else {
            "false"@
        },
        match point.label {
            Some(label) => label,
            None => ""@,
        },
    ];
    four_columns(names);
    four_columns(fields);
    assert(metric_table(seq![], 0) =~= separated(names, ","@) + "\n"@);
}

/// The text in which the rows of `points` follow one another.
pub open spec fn rows_in_order(tenant: Seq<char>, points: Seq<PointView>) -> Seq<char>
    decreases points.len(),
{
    if points.len() == 0 {
        Seq::empty()
    } else {
        phase_row(tenant, points[0]) + rows_in_order(tenant, points.skip(1))
    }
}

proof fn rows_follow(above: Seq<char>, tenant: Seq<char>, points: Seq<PointView>, n: int)
    requires
        0 <= n <= points.len(),
    ensures
        phase_rows(above, tenant, points, n) == above + rows_in_order(tenant, points.take(n)),
    decreases n,
{
    if n > 0 {
        rows_follow(above, tenant, points, n - 1);
        rows_end_with(tenant, points.take(n));
        assert(points.take(n).drop_last() =~= points.take(n - 1));
        assert(above + (rows_in_order(tenant, points.take(n - 1)) + phase_row(
            tenant,
            points[n - 1],
        )) =~= above + rows_in_order(tenant, points.take(n - 1)) + phase_row(
            tenant,
            points[n - 1],
        ));
    } else {
        assert(points.take(0) =~= seq![]);
        assert(above + Seq::<char>::empty() =~= above);
    }
}

proof fn rows_end_with(tenant: Seq<char>, points: Seq<PointView>)
    requires
        points.len() > 0,
    ensures
        rows_in_order(tenant, points) == rows_in_order(tenant, points.drop_last()) + phase_row(
            tenant,
            points.last(),
        ),
    decreases points.len(),
{
    let row = phase_row(tenant, points[0]);
    let rest = points.skip(1);
    if points.len() == 1 {
        assert(rest =~= seq![]);
        assert(points.drop_last() =~= seq![]);
        assert(row + Seq::<char>::empty() =~= Seq::<char>::empty() + row);
    } else {
        rows_end_with(tenant, rest);
        assert(rest.drop_last() =~= points.drop_last().skip(1));
        assert(rest.last() == points.last());
        assert(points.drop_last()[0] == points[0]);
        assert(row + (rows_in_order(tenant, rest.drop_last()) + phase_row(tenant, rest.last()))
            =~= row + rows_in_order(tenant, rest.drop_last()) + phase_row(tenant, rest.last()));
    }
}

/// A phase's file holds every measurement once, each under its own tenant: below
/// the first line the first tenant's rows in their order, then the second's.
pub proof fn a_phase_file_holds_every_measurement(
    tenant1: Seq<PointView>,
    tenant2: Seq<PointView>,
)
    ensures
        phase_table(tenant1, tenant2) == phase_head() + rows_in_order("tenant1"@, tenant1)
            + rows_in_order("tenant2"@, tenant2),
{
    let n1 = tenant1.len() as int;
    let n2 = tenant2.len() as int;
    rows_follow(phase_head(), "tenant1"@, tenant1, n1);
    rows_follow(phase_head() + rows_in_order("tenant1"@, tenant1), "tenant2"@, tenant2, n2);
    assert(tenant1.take(n1) =~= tenant1);
    assert(tenant2.take(n2) =~= tenant2);
}

/// A commit is labelled by what the revision says, and as changed exactly where
/// there are changes; without a revision there is no label.
pub proof fn a_commit_is_labelled_by_its_revision(revision: Option<Seq<char>>, dirty: bool)
    ensures
        commit_label(revision, dirty) is Some <==> revision is Some && trimmed(
            revision->Some_0,
        ).len() > 0,
        commit_label(revision, dirty) is Some ==> commit_label(revision, false) == Some(
            trimmed(revision->Some_0),
        ) && commit_label(revision, true) == Some(trimmed(revision->Some_0) + "-dirty"@),
{
}


/// The path of a file of a run names its directory first, then the subsystem and
/// the time of the run, and its kind last.
pub proof fn a_path_names_its_run(
    dir: Seq<char>,
    subsystem: Seq<char>,
    part: Seq<char>,
    timestamp: nat,
    extension: Seq<char>,
)
    ensures
        ({
            let path = path_of(dir, subsystem, part, timestamp, extension);
            &&& occurs_at(path, dir + "/"@ + file_name(subsystem), 0)
            &&& occurs_at(path, extension, path.len() - extension.len())
            &&& has_text(path, part + decimal(timestamp))
        }),
        ({
            let path = detailed_path(dir, subsystem, part, timestamp, extension);
            &&& occurs_at(path, dir + "/fairness_"@ + file_name(subsystem), 0)
            &&& occurs_at(path, extension, path.len() - extension.len())
            &&& has_text(path, part + decimal(timestamp))
        }),
{
    let time = decimal(timestamp);
    path_is_put_together(dir + "/"@ + file_name(subsystem), part, time, extension);
    path_is_put_together(dir + "/fairness_"@ + file_name(subsystem), part, time, extension);
}

proof fn path_is_put_together(
    start: Seq<char>,
    part: Seq<char>,
    time: Seq<char>,
    extension: Seq<char>,
)
    ensures
        ({
            let path = start + part + time + extension;
            &&& occurs_at(path, start, 0)
            &&& occurs_at(path, extension, path.len() - extension.len())
            &&& has_text(path, part + time)
        }),
{
    let path = start + part + time + extension;
    assert(path.subrange(0, start.len() as int) =~= start);
    assert(path.subrange(path.len() - extension.len(), path.len() as int) =~= extension);
    let middle = part + time;
    let at = start.len() as int;
    assert(path.subrange(at, at + middle.len()) =~= middle);
    assert(occurs_at(path, middle, at));
}

/// What is shown of an export names the directory and the three files in their
/// order: the baseline, the unbalanced phase, the manifest.
pub proof fn an_export_names_its_files(
    dir: Seq<char>,
    baseline: Seq<char>,
    unbalanced: Seq<char>,
    manifest: Seq<char>,
)
    ensures
        has_text(
            export_lines(dir, baseline, unbalanced, manifest),
            "\n      - "@ + baseline + "\n      - "@ + unbalanced + "\n      - "@ + manifest
                + "\n"@,
        ),
        has_text(export_lines(dir, baseline, unbalanced, manifest), dir + "/\n"@),
{
    reveal_strlit("/\n      - ");
    reveal_strlit("\n      - ");
    reveal_strlit("/\n");
    let whole = export_lines(dir, baseline, unbalanced, manifest);
    let head = "  📁 Exported to "@;
    let end = "\n      - "@ + baseline + "\n      - "@ + unbalanced + "\n      - "@ + manifest
        + "\n"@;
    let at: int = head.len() as int + dir.len() + 1;
    assert(whole.len() == at + end.len());
    assert(whole.subrange(at, at + end.len()) =~= end);
    assert(occurs_at(whole, end, at));
    let place = dir + "/\n"@;
    assert(whole.subrange(head.len() as int, head.len() as int + place.len()) =~= place);
    assert(occurs_at(whole, place, head.len() as int));
}

}
