use vstd::prelude::*;

use crate::keys::text_len;
use crate::keys::utf8;
use crate::planner::PlanError;
use crate::request::FileEdit;
use crate::request::FileMutation;
use crate::request::LineAnchor;
use crate::request::TransactionAction;
use crate::request::TransactionLimits;
use crate::request::TransactionRequest;

verus! {

/// Sum of two counters, saturating at `u64::MAX`.
pub open spec fn sat_add(a: int, b: int) -> int {
    if a + b > u64::MAX {
        u64::MAX as int
    } else {
        a + b
    }
}

/// Left-to-right saturating sum of a sequence of counters.
pub open spec fn sat_sum(s: Seq<int>) -> int
    decreases s.len(),
{
    if s.len() == 0 {
        0
    } else {
        sat_add(sat_sum(s.drop_last()), s.last())
    }
}

/// Byte length of a string.
pub open spec fn text_bytes(s: String) -> int {
    utf8(s@).len() as int
}

pub open spec fn lines_bytes(lines: Seq<String>) -> int {
    sat_sum(lines.map_values(|l: String| text_bytes(l)))
}

pub open spec fn anchor_cost(anchor: LineAnchor) -> int {
    sat_add(8, text_bytes(anchor.expected_hash))
}

/// Input bytes charged for one edit.
pub open spec fn edit_cost(edit: FileEdit) -> int {
    match edit {
        FileEdit::ReplaceAll { contents } => contents@.len() as int,
        FileEdit::ReplaceLines { range, lines } => sat_add(
            sat_add(anchor_cost(range.start), anchor_cost(range.end)),
            lines_bytes(lines@),
        ),
        FileEdit::InsertBefore { anchor, lines } => sat_add(
            anchor_cost(anchor),
            lines_bytes(lines@),
        ),
        FileEdit::InsertAfter { anchor, lines } => sat_add(anchor_cost(anchor), lines_bytes(lines@)),
    }
}

/// Lines carried by one edit.
pub open spec fn edit_lines(edit: FileEdit) -> int {
    match edit {
        FileEdit::ReplaceAll { .. } => 0,
        FileEdit::ReplaceLines { lines, .. } => lines@.len() as int,
        FileEdit::InsertBefore { lines, .. } => lines@.len() as int,
        FileEdit::InsertAfter { lines, .. } => lines@.len() as int,
    }
}

pub open spec fn edits_cost(edits: Seq<FileEdit>) -> int {
    sat_sum(edits.map_values(|e: FileEdit| edit_cost(e)))
}

pub open spec fn edits_lines(edits: Seq<FileEdit>) -> int {
    sat_sum(edits.map_values(|e: FileEdit| edit_lines(e)))
}

/// Input bytes charged for one mutation; an expected digest counts 32 bytes.
pub open spec fn mutation_cost(m: FileMutation) -> int {
    match m {
        FileMutation::Create { path, contents } => sat_add(text_bytes(path), contents@.len() as int),
        FileMutation::Update { path, edits, .. } => sat_add(
            sat_add(text_bytes(path), 32),
            edits_cost(edits@),
        ),
        FileMutation::Delete { path, .. } => sat_add(text_bytes(path), 32),
        FileMutation::Move { source, destination, edits, .. } => sat_add(
            sat_add(sat_add(text_bytes(source), 32), text_bytes(destination)),
            edits_cost(edits@),
        ),
    }
}

pub open spec fn mutation_edit_total(m: FileMutation) -> int {
    match m {
        FileMutation::Update { edits, .. } => edits@.len() as int,
        FileMutation::Move { edits, .. } => edits@.len() as int,
        _ => 0,
    }
}

pub open spec fn mutation_line_total(m: FileMutation) -> int {
    match m {
        FileMutation::Update { edits, .. } => edits_lines(edits@),
        FileMutation::Move { edits, .. } => edits_lines(edits@),
        _ => 0,
    }
}

/// Bytes charged for the request header: environment id, root and a previewed digest.
pub open spec fn header_cost(request: TransactionRequest) -> int {
    let base = sat_add(text_bytes(request.environment_id), text_bytes(request.root));
    if request.action is CommitPreviewed {
        sat_add(base, 32)
    } else {
        base
    }
}

/// Resources consumed by a request before planning.
#[derive(Clone, Copy, Debug, PartialEq, Eq, Structural)]
pub struct RequestCosts {
    pub input_bytes: u64,
    pub edits: u64,
    pub edit_lines: u64,
}

/// Costs of the first `n` mutations on top of the header.
pub open spec fn costs_prefix(request: TransactionRequest, n: int) -> (int, int, int)
    decreases n,
{
    if n <= 0 {
        (header_cost(request), 0, 0)
    } else {
        let p = costs_prefix(request, n - 1);
        let m = request.mutations@[n - 1];
        (
            sat_add(p.0, mutation_cost(m)),
            sat_add(p.1, mutation_edit_total(m)),
            sat_add(p.2, mutation_line_total(m)),
        )
    }
}

pub open spec fn request_costs_spec(request: TransactionRequest) -> (int, int, int) {
    costs_prefix(request, request.mutations@.len() as int)
}

fn sat(a: u64, b: u64) -> (r: u64)
    ensures
        r == sat_add(a as int, b as int),
{
    a.saturating_add(b)
}

/// Byte length of a byte sequence.
pub fn byte_len(value: &[u8]) -> (r: u64)
    ensures
        r == value@.len(),
{
    value.len() as u64
}

fn text_cost(value: &String) -> (r: u64)
    ensures
        r == text_bytes(*value),
{
    text_len(value) as u64
}

fn lines_cost(lines: &Vec<String>) -> (r: u64)
    ensures
        r == lines_bytes(lines@),
{
    let mut total: u64 = 0;
    let mut i: usize = 0;
    while i < lines.len()
        invariant
            i <= lines@.len(),
            total == sat_sum(lines@.take(i as int).map_values(|l: String| text_bytes(l))),
        decreases lines@.len() - i,
    {
        let ghost before = lines@.take(i as int).map_values(|l: String| text_bytes(l));
        total = sat(total, text_cost(&lines[i]));
        proof {
            let after = lines@.take(i + 1).map_values(|l: String| text_bytes(l));
            assert(after.drop_last() =~= before);
        }
        i += 1;
    }
    assert(lines@.take(lines@.len() as int) =~= lines@);
    total
}

/// Input bytes charged for a line anchor: 8 for the line number plus the hash text.
pub fn anchor_bytes(anchor: &LineAnchor) -> (r: u64)
    ensures
        r == anchor_cost(*anchor),
{
    sat(8, text_cost(&anchor.expected_hash))
}

/// Input bytes charged for one edit.
pub fn edit_input_bytes(edit: &FileEdit) -> (r: u64)
    ensures
        r == edit_cost(*edit),
{
    match edit {
        FileEdit::ReplaceAll { contents } => byte_len(contents.as_slice()),
        FileEdit::ReplaceLines { range, lines } => sat(
            sat(anchor_bytes(&range.start), anchor_bytes(&range.end)),
            lines_cost(lines),
        ),
        FileEdit::InsertBefore { anchor, lines } => sat(anchor_bytes(anchor), lines_cost(lines)),
        FileEdit::InsertAfter { anchor, lines } => sat(anchor_bytes(anchor), lines_cost(lines)),
    }
}

fn edits_input_bytes(edits: &Vec<FileEdit>) -> (r: u64)
    ensures
        r == edits_cost(edits@),
{
    let mut total: u64 = 0;
    let mut i: usize = 0;
    while i < edits.len()
        invariant
            i <= edits@.len(),
            total == sat_sum(edits@.take(i as int).map_values(|e: FileEdit| edit_cost(e))),
        decreases edits@.len() - i,
    {
        let ghost before = edits@.take(i as int).map_values(|e: FileEdit| edit_cost(e));
        total = sat(total, edit_input_bytes(&edits[i]));
        proof {
            let after = edits@.take(i + 1).map_values(|e: FileEdit| edit_cost(e));
            assert(after.drop_last() =~= before);
        }
        i += 1;
    }
    assert(edits@.take(edits@.len() as int) =~= edits@);
    total
}

fn edits_line_count(edits: &Vec<FileEdit>) -> (r: u64)
    ensures
        r == edits_lines(edits@),
{
    let mut total: u64 = 0;
    let mut i: usize = 0;
    while i < edits.len()
        invariant
            i <= edits@.len(),
            total == sat_sum(edits@.take(i as int).map_values(|e: FileEdit| edit_lines(e))),
        decreases edits@.len() - i,
    {
        let ghost before = edits@.take(i as int).map_values(|e: FileEdit| edit_lines(e));
        let count = match &edits[i] {
            FileEdit::ReplaceAll { .. } => 0,
            FileEdit::ReplaceLines { lines, .. } => lines.len() as u64,
            FileEdit::InsertBefore { lines, .. } => lines.len() as u64,
            FileEdit::InsertAfter { lines, .. } => lines.len() as u64,
        };
        total = sat(total, count);
        proof {
            let after = edits@.take(i + 1).map_values(|e: FileEdit| edit_lines(e));
            assert(after.drop_last() =~= before);
        }
        i += 1;
    }
    assert(edits@.take(edits@.len() as int) =~= edits@);
    total
}

/// Input bytes charged for one mutation.
pub fn mutation_input_bytes(mutation: &FileMutation) -> (r: u64)
    ensures
        r == mutation_cost(*mutation),
{
    match mutation {
        FileMutation::Create { path, contents } => sat(
            text_cost(path),
            byte_len(contents.as_slice()),
        ),
        FileMutation::Update { path, edits, .. } => sat(
            sat(text_cost(path), 32),
            edits_input_bytes(edits),
        ),
        FileMutation::Delete { path, .. } => sat(text_cost(path), 32),
        FileMutation::Move { source, destination, edits, .. } => sat(
            sat(sat(text_cost(source), 32), text_cost(destination)),
            edits_input_bytes(edits),
        ),
    }
}

/// Number of edits of one mutation.
pub fn mutation_edit_count(mutation: &FileMutation) -> (r: u64)
    ensures
        r == mutation_edit_total(*mutation),
{
    match mutation {
        FileMutation::Update { edits, .. } => edits.len() as u64,
        FileMutation::Move { edits, .. } => edits.len() as u64,
        _ => 0,
    }
}

/// Number of edit lines of one mutation.
pub fn mutation_edit_line_count(mutation: &FileMutation) -> (r: u64)
    ensures
        r == mutation_line_total(*mutation),
{
    match mutation {
        FileMutation::Update { edits, .. } => edits_line_count(edits),
        FileMutation::Move { edits, .. } => edits_line_count(edits),
        _ => 0,
    }
}

/// Saturating resource costs of a whole request.
pub fn request_costs(request: &TransactionRequest) -> (r: RequestCosts)
    ensures
        (r.input_bytes as int, r.edits as int, r.edit_lines as int) == request_costs_spec(*request),
{
    let mut input_bytes = sat(text_cost(&request.environment_id), text_cost(&request.root));
    match &request.action {
        TransactionAction::CommitPreviewed { .. } => {
            input_bytes = sat(input_bytes, 32);
        },
        _ => {},
    }
    let mut costs = RequestCosts { input_bytes, edits: 0, edit_lines: 0 };
    let mut i: usize = 0;
    while i < request.mutations.len()
        invariant
            i <= request.mutations@.len(),
            (costs.input_bytes as int, costs.edits as int, costs.edit_lines as int)
                == costs_prefix(*request, i as int),
        decreases request.mutations@.len() - i,
    {
        let mutation = &request.mutations[i];
        costs.input_bytes = sat(costs.input_bytes, mutation_input_bytes(mutation));
        costs.edits = sat(costs.edits, mutation_edit_count(mutation));
        costs.edit_lines = sat(costs.edit_lines, mutation_edit_line_count(mutation));
        i += 1;
    }
    costs
}

/// Rejects an observed amount above its limit.
pub fn check_limit(resource: &'static str, observed: u64, limit: u64) -> (r: Result<(), PlanError>)
    ensures
        observed <= limit ==> r is Ok,
        observed > limit ==> r == Err::<(), PlanError>(
            PlanError::Limit { resource, observed, limit },
        ),
{
    if observed > limit {
        Err(PlanError::Limit { resource, observed, limit })
    } else {
        Ok(())
    }
}

/// The first request limit that a request exceeds, in the order the checks run.
pub open spec fn request_limit_error(request: TransactionRequest, limits: TransactionLimits) -> Option<PlanError> {
    let n = request.mutations@.len();
    let c = request_costs_spec(request);
    if n == 0 {
        Some(PlanError::Empty)
    } else if n > limits.max_mutations {
        Some(PlanError::Limit { resource: "mutation count", observed: n as u64, limit: limits.max_mutations })
    } else if c.1 > limits.max_edits {
        Some(PlanError::Limit { resource: "edit count", observed: c.1 as u64, limit: limits.max_edits })
    } else if c.2 > limits.max_edit_lines {
        Some(PlanError::Limit { resource: "edit line count", observed: c.2 as u64, limit: limits.max_edit_lines })
    } else if c.0 > limits.max_input_bytes {
        Some(PlanError::Limit { resource: "input bytes", observed: c.0 as u64, limit: limits.max_input_bytes })
    } else {
        None
    }
}

/// Checks a request against the mutation, edit, edit-line and input-byte limits.
pub fn validate_request_limits(request: &TransactionRequest, limits: TransactionLimits) -> (r: Result<(), PlanError>)
    ensures
        match request_limit_error(*request, limits) {
            Some(e) => r == Err::<(), PlanError>(e),
            None => r is Ok,
        },
{
    if request.mutations.len() == 0 {
        return Err(PlanError::Empty);
    }
    check_limit("mutation count", request.mutations.len() as u64, limits.max_mutations)?;
    let costs = request_costs(request);
    check_limit("edit count", costs.edits, limits.max_edits)?;
    check_limit("edit line count", costs.edit_lines, limits.max_edit_lines)?;
    check_limit("input bytes", costs.input_bytes, limits.max_input_bytes)
}

} // verus!
