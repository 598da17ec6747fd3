//! The focused window's place from niri's IPC output: its tile position and
//! workspace (`niri msg -j focused-window`), and the output showing that
//! workspace (`niri msg -j workspaces`).

use vstd::prelude::*;

verus! {

/// The fields of one workspace entry that the panel reads: its `id` when it
/// is an unsigned integer, and its `output` when it is a string.
pub struct WorkspaceEntry {
    pub id: Option<u64>,
    pub output: Option<String>,
}

impl View for WorkspaceEntry {
    type V = (Option<u64>, Option<Seq<char>>);

    open spec fn view(&self) -> (Option<u64>, Option<Seq<char>>) {
        (
            self.id,
            match self.output {
                Some(s) => Some(s@),
                None => None,
            },
        )
    }
}

/// The workspace entries that `serde_json` reads from a workspace list: for
/// each element of the top-level array, its `id` as an unsigned integer and
/// its `output` as a string; `None` when the text is not JSON or not an
/// array.
pub uninterp spec fn workspaces_json(json: Seq<char>) -> Option<Seq<(Option<u64>, Option<Seq<char>>)>>;

/// Parses a workspace list with `serde_json::from_str` into a
/// `serde_json::Value` and reads each element of its top-level array with
/// `Value::get`, `Value::as_u64` and `Value::as_str`. The result is the named
/// value `workspaces_json` of the text; what JSON serde_json accepts is not
/// restated.
#[verifier::external_body]
fn parse_workspace_entries(json: &str) -> (r: Option<Vec<WorkspaceEntry>>)
    ensures
        r is Some == workspaces_json(json@) is Some,
        r matches Some(es) ==> es@.map_values(|e: WorkspaceEntry| e@) == workspaces_json(json@)->0,
{
    let v: serde_json::Value = serde_json::from_str(json).ok()?;
    let entries = v.as_array()?.iter().map(|ws| WorkspaceEntry {
        id: ws.get("id").and_then(|id| id.as_u64()),
        output: ws.get("output").and_then(|o| o.as_str()).map(|o| o.to_string()),
    });
    Some(entries.collect())
}

/// Index of the first entry whose id is `id`.
pub open spec fn first_with_id(entries: Seq<(Option<u64>, Option<Seq<char>>)>, id: u64) -> Option<
    int,
>
    decreases entries.len(),
{
    if entries.len() == 0 {
        None
    } else {
        match first_with_id(entries.drop_last(), id) {
            Some(i) => Some(i),
            None => if entries.last().0 == Some(id) {
                Some(entries.len() - 1)
            } else {
                None
            },
        }
    }
}

/// The output named by the first entry for the workspace; none when there
/// is no such entry or that entry names no output.
pub open spec fn output_of_workspace(entries: Seq<(Option<u64>, Option<Seq<char>>)>, id: u64) -> Option<
    Seq<char>,
> {
    match first_with_id(entries, id) {
        Some(i) => entries[i].1,
        None => None,
    }
}

proof fn lemma_first_with_id_prefix(entries: Seq<(Option<u64>, Option<Seq<char>>)>, id: u64, k: int)
    requires
        0 <= k <= entries.len(),
        first_with_id(entries.take(k), id) is Some,
    ensures
        first_with_id(entries, id) == first_with_id(entries.take(k), id),
    decreases entries.len() - k,
{
    if k < entries.len() {
        assert(entries.take(k + 1).drop_last() =~= entries.take(k));
        lemma_first_with_id_prefix(entries, id, k + 1);
    } else {
        assert(entries.take(k) =~= entries);
    }
}

/// Name of the output showing workspace `workspace_id`.
pub fn workspace_output(entries: &Vec<WorkspaceEntry>, workspace_id: u64) -> (r: Option<String>)
    ensures
        r is Some == output_of_workspace(entries@.map_values(|e: WorkspaceEntry| e@), workspace_id) is Some,
        r matches Some(s) ==> Some(s@) == output_of_workspace(
            entries@.map_values(|e: WorkspaceEntry| e@),
            workspace_id,
        ),
{
    let ghost es = entries@.map_values(|e: WorkspaceEntry| e@);
    let mut i: usize = 0;
    while i < entries.len()
        invariant
            i <= entries@.len(),
            es == entries@.map_values(|e: WorkspaceEntry| e@),
            first_with_id(es.take(i as int), workspace_id) is None,
        decreases entries@.len() - i,
    {
        assert(es.take(i + 1).drop_last() =~= es.take(i as int));
        assert(es[i as int] == entries@[i as int]@);
        if entries[i].id == Some(workspace_id) {
            proof {
                lemma_first_with_id_prefix(es, workspace_id, i + 1);
            }
            return match &entries[i].output {
                Some(s) => Some(s.clone()),
                None => None,
            };
        }
        i = i + 1;
    }
    assert(es.take(i as int) =~= es);
    None
}

/// Name of the output showing workspace `workspace_id`, from the text of a
/// workspace list.
pub fn parse_workspace_output(json: &str, workspace_id: u64) -> (r: Option<String>)
    ensures
        r is Some == (match workspaces_json(json@) {
            Some(es) => output_of_workspace(es, workspace_id),
            None => None,
        }) is Some,
        r matches Some(s) ==> Some(s@) == match workspaces_json(json@) {
            Some(es) => output_of_workspace(es, workspace_id),
            None => None,
        },
{
    match parse_workspace_entries(json) {
        Some(entries) => workspace_output(&entries, workspace_id),
        None => None,
    }
}

/// The raw fields of a focused-window report: the two position arrays of
/// its `layout`, each element as the bits of a JSON number, and its
/// `workspace_id`.
pub struct FocusedWindowFields {
    pub tile_pos: Option<Vec<Option<u64>>>,
    pub offset_in_tile: Option<Vec<Option<u64>>>,
    pub workspace_id: Option<u64>,
}

/// The fields that `serde_json` reads from a focused-window report:
/// `layout.tile_pos_in_workspace_view` and `layout.window_offset_in_tile`
/// when they are arrays (each element as the `f64::to_bits` of the number,
/// or `None` when it is not a number), and `workspace_id` when it is an
/// unsigned integer; `None` when the text is not JSON.
pub uninterp spec fn focused_window_json(json: Seq<char>) -> Option<
    (Option<Seq<Option<u64>>>, Option<Seq<Option<u64>>>, Option<u64>),
>;

pub open spec fn fields_view(f: FocusedWindowFields) -> (
    Option<Seq<Option<u64>>>,
    Option<Seq<Option<u64>>>,
    Option<u64>,
) {
    (
        match f.tile_pos {
            Some(v) => Some(v@),
            None => None,
        },
        match f.offset_in_tile {
            Some(v) => Some(v@),
            None => None,
        },
        f.workspace_id,
    )
}

/// Parses a focused-window report with `serde_json::from_str` and reads its
/// fields with `Value::get`, `Value::as_array`, `Value::as_f64` (kept as
/// bits) and `Value::as_u64`. The result is the named value
/// `focused_window_json` of the text; what JSON serde_json accepts is not
/// restated.
#[verifier::external_body]
fn read_focused_window_fields(json: &str) -> (r: Option<FocusedWindowFields>)
    ensures
        r is Some == focused_window_json(json@) is Some,
        r matches Some(f) ==> fields_view(f) == focused_window_json(json@)->0,
{
    let v: serde_json::Value = serde_json::from_str(json).ok()?;
    let layout = v.get("layout");
    let bits = |key: &str| {
        let a = layout?.get(key)?.as_array()?;
        Some(a.iter().map(|e| e.as_f64().map(|x| x.to_bits())).collect())
    };
    let workspace_id = v.get("workspace_id").and_then(|w| w.as_u64());
    Some(FocusedWindowFields {
        tile_pos: bits("tile_pos_in_workspace_view"),
        offset_in_tile: bits("window_offset_in_tile"),
        workspace_id,
    })
}

/// The focused window's tile position and offset in its tile (as
/// `f64::to_bits` pairs) and its workspace.
#[derive(Debug, Clone, Copy, PartialEq, Eq)]
pub struct FocusedWindow {
    pub tile_pos_bits: (u64, u64),
    pub offset_bits: (u64, u64),
    pub workspace_id: u64,
}

/// A two-element array of numbers.
pub open spec fn number_pair(a: Option<Seq<Option<u64>>>) -> Option<(u64, u64)> {
    match a {
        Some(s) => if s.len() == 2 && s[0] is Some && s[1] is Some {
            Some((s[0]->0, s[1]->0))
        } else {
            None
        },
        None => None,
    }
}

/// The focused window described by a report's fields: both positions must
/// be pairs of numbers and the workspace id must be present.
pub open spec fn focused_window_of(
    f: (Option<Seq<Option<u64>>>, Option<Seq<Option<u64>>>, Option<u64>),
) -> Option<FocusedWindow> {
    match (number_pair(f.0), number_pair(f.1), f.2) {
        (Some(p), Some(o), Some(w)) => Some(FocusedWindow { tile_pos_bits: p, offset_bits: o, workspace_id: w }),
        _ => None,
    }
}

fn number_pair_of(a: &Option<Vec<Option<u64>>>) -> (r: Option<(u64, u64)>)
    ensures
        r == number_pair(match a {
            Some(v) => Some(v@),
            None => None,
        }),
{
    match a {
        Some(v) => if v.len() == 2 {
            match (v[0], v[1]) {
                (Some(x), Some(y)) => Some((x, y)),
                _ => None,
            }
        } else {
            None
        },
        None => None,
    }
}

/// The focused window from the text of a focused-window report; `None`
/// when the window has no tile position (niri reports `null` for tiled
/// windows without the tile-position IPC) or the shape is unexpected.
pub fn parse_focused_window(json: &str) -> (r: Option<FocusedWindow>)
    ensures
        r == match focused_window_json(json@) {
            Some(f) => focused_window_of(f),
            None => None,
        },
{
    let f = read_focused_window_fields(json)?;
    focused_window_from_fields(&f)
}

/// The focused window described by the fields read from a report: both
/// positions must be two-element arrays of numbers and the workspace id
/// must be present.
pub fn focused_window_from_fields(f: &FocusedWindowFields) -> (r: Option<FocusedWindow>)
    ensures
        r == focused_window_of(fields_view(*f)),
{
    let p = number_pair_of(&f.tile_pos);
    let o = number_pair_of(&f.offset_in_tile);
    match (p, o, f.workspace_id) {
        (Some(p), Some(o), Some(w)) => Some(FocusedWindow { tile_pos_bits: p, offset_bits: o, workspace_id: w }),
        _ => None,
    }
}

} // verus!
