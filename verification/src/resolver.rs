use vstd::prelude::*;
use vstd::string::StringSliceAdditionalSpecFns;
use vstd::utf8::encode_utf8;

use crate::errors::ResolveError;
use crate::geometry::{parse_region, region_parse_spec, Region};

verus! {

/// The scale factor that stands for 1.0, in thousandths. Scale factors are
/// carried as thousandths throughout, so that they stay exact integers.
pub const SCALE_ONE_MILLIS: u32 = 1000;

/// One compositor output, as a snapshot: its unique name, its geometry in
/// logical coordinates, and its scale factor in thousandths.
#[derive(Debug)]
pub struct OutputDescriptor {
    pub name: String,
    pub geometry: Region,
    pub scale_millis: u32,
}

/// A sparse capture request: every field may be left for the resolver to
/// fill in. `geometry`, when present, is a region literal `X,Y WxH` (a
/// request to read it from standard input is expected to have been
/// replaced by the line read before resolution).
#[derive(Debug)]
pub struct CaptureRequest {
    /// Explicit scale factor in thousandths; absent means "default to the
    /// greatest applicable output scale".
    pub scale_millis: Option<u32>,
    /// Region literal to capture; absent means no region restriction.
    pub geometry: Option<String>,
    /// Name of the single output to capture; absent means no restriction.
    pub output_name: Option<String>,
    /// Whether to overlay the cursor.
    pub cursor: bool,
}

/// The capture mode a request resolves to.
#[derive(Debug, PartialEq)]
pub enum CaptureMode {
    /// Capture everything.
    WholeScreen,
    /// Capture one whole output through the dedicated single-output entry
    /// point.
    SingleOutput { name: String },
    /// Capture an arbitrary region.
    RegionCapture { region: Region },
    /// Capture a region scoped to one named output.
    SingleOutputWithRegion { name: String, region: Region },
}

/// A fully resolved capture operation: nothing is optional any more.
#[derive(Debug, PartialEq)]
pub struct CapturePlan {
    pub mode: CaptureMode,
    /// Scale factor in thousandths; always positive once resolution
    /// defaulted it, and taken verbatim when the request supplied one.
    pub scale_millis: u32,
    pub cursor: bool,
}

/// Index of the first output with the given name, if any.
pub open spec fn find_output(outputs: Seq<OutputDescriptor>, name: Seq<char>) -> Option<int>
    decreases outputs.len(),
{
    if outputs.len() == 0 {
        None
    } else if outputs[0].name@ == name {
        Some(0int)
    } else {
        match find_output(outputs.drop_first(), name) {
            None => None,
            Some(i) => Some(i + 1),
        }
    }
}

/// Whether an output takes part in scale defaulting: with no reference
/// region every output does, otherwise only those whose geometry
/// intersects it.
pub open spec fn scale_candidate(o: OutputDescriptor, reference: Option<Region>) -> bool {
    match reference {
        None => true,
        Some(r) => o.geometry.spec_intersects(r),
    }
}

/// The greatest scale factor among the candidate outputs, with a floor of
/// 1.0: the sharpest scale that applies to the reference region. The
/// floor is deliberate — it is what grim falls back to when nothing
/// intersects, and compositor scale factors are never below 1.0, so for
/// real output lists this is exactly the maximum candidate scale.
pub open spec fn greatest_scale_millis(
    outputs: Seq<OutputDescriptor>,
    reference: Option<Region>,
) -> u32
    decreases outputs.len(),
{
    if outputs.len() == 0 {
        SCALE_ONE_MILLIS
    } else {
        let rest = greatest_scale_millis(outputs.drop_last(), reference);
        if scale_candidate(outputs.last(), reference) && outputs.last().scale_millis > rest {
            outputs.last().scale_millis
        } else {
            rest
        }
    }
}

/// Whether the request's geometry text, if any, is well-formed.
pub open spec fn geometry_ok(req: CaptureRequest) -> bool {
    match req.geometry {
        None => true,
        Some(g) => region_parse_spec(encode_utf8(g@)) is Some,
    }
}

/// The region the request asks for: `None` when no geometry was given (or
/// when it is malformed, in which case resolution fails instead).
pub open spec fn requested_region(req: CaptureRequest) -> Option<Region> {
    match req.geometry {
        None => None,
        Some(g) => region_parse_spec(encode_utf8(g@)),
    }
}

/// Whether resolution succeeds: the geometry must parse, and a named
/// output must exist in the snapshot.
pub open spec fn resolve_ok(req: CaptureRequest, outputs: Seq<OutputDescriptor>) -> bool {
    &&& geometry_ok(req)
    &&& match req.output_name {
        Some(n) => find_output(outputs, n@) is Some,
        None => true,
    }
}

/// The region that scale defaulting is measured against: the named
/// output's full geometry when an output was named, else whatever region
/// the request asked for.
pub open spec fn scale_reference(
    req: CaptureRequest,
    outputs: Seq<OutputDescriptor>,
) -> Option<Region> {
    match req.output_name {
        Some(n) => match find_output(outputs, n@) {
            Some(i) => Some(outputs[i].geometry),
            None => None,
        },
        None => requested_region(req),
    }
}

/// The scale a successful resolution carries: the explicit one verbatim,
/// else the greatest applicable output scale.
pub open spec fn resolved_scale(req: CaptureRequest, outputs: Seq<OutputDescriptor>) -> u32 {
    match req.scale_millis {
        Some(s) => s,
        None => greatest_scale_millis(outputs, scale_reference(req, outputs)),
    }
}

/// The mode-selection decision table: output name and region each present
/// or absent give the four modes; the cursor flag never affects the mode.
pub open spec fn mode_matches(mode: CaptureMode, req: CaptureRequest) -> bool {
    match (req.output_name, requested_region(req)) {
        (Some(n), Some(r)) => mode matches CaptureMode::SingleOutputWithRegion { name, region }
            && name@ == n@ && region == r,
        (Some(n), None) => mode matches CaptureMode::SingleOutput { name } && name@ == n@,
        (None, Some(r)) => mode matches CaptureMode::RegionCapture { region } && region == r,
        (None, None) => mode matches CaptureMode::WholeScreen,
    }
}

/// What a resolution error must look like: a geometry error carries the
/// offending text and arises exactly when the text is malformed; an
/// output error carries the requested name and arises exactly when the
/// lookup fails.
pub open spec fn error_matches(
    e: ResolveError,
    req: CaptureRequest,
    outputs: Seq<OutputDescriptor>,
) -> bool {
    match e {
        ResolveError::GeometryParse(t) => {
            &&& !geometry_ok(req)
            &&& req.geometry matches Some(g) && t@ == g@
        },
        ResolveError::OutputNotFound(n) => {
            &&& geometry_ok(req)
            &&& req.output_name matches Some(nm) && n@ == nm@ && find_output(outputs, nm@) is None
        },
    }
}

proof fn lemma_find_output_at(outputs: Seq<OutputDescriptor>, name: Seq<char>, i: int)
    requires
        0 <= i < outputs.len(),
        outputs[i].name@ == name,
        forall|m: int| 0 <= m < i ==> outputs[m].name@ != name,
    ensures
        find_output(outputs, name) == Some(i),
    decreases outputs.len(),
{
    if i > 0 {
        lemma_find_output_at(outputs.drop_first(), name, i - 1);
    }
}

proof fn lemma_find_output_none(outputs: Seq<OutputDescriptor>, name: Seq<char>)
    requires
        forall|m: int| 0 <= m < outputs.len() ==> outputs[m].name@ != name,
    ensures
        find_output(outputs, name) is None,
    decreases outputs.len(),
{
    if outputs.len() > 0 {
        lemma_find_output_none(outputs.drop_first(), name);
    }
}

fn find_output_exec(outputs: &Vec<OutputDescriptor>, name: &String) -> (r: Option<usize>)
    ensures
        match r {
            Some(i) => i < outputs@.len() && find_output(outputs@, name@) == Some(i as int),
            None => find_output(outputs@, name@) is None,
        },
{
    let mut j: usize = 0;
    while j < outputs.len()
        invariant
            j <= outputs@.len(),
            forall|m: int| 0 <= m < j ==> outputs@[m].name@ != name@,
        decreases outputs@.len() - j,
    {
        if outputs[j].name == *name {
            proof {
                lemma_find_output_at(outputs@, name@, j as int);
            }
            return Some(j);
        }
        j += 1;
    }
    proof {
        lemma_find_output_none(outputs@, name@);
    }
    None
}

fn greatest_scale_exec(outputs: &Vec<OutputDescriptor>, reference: Option<Region>) -> (r: u32)
    ensures
        r == greatest_scale_millis(outputs@, reference),
{
    let mut best: u32 = SCALE_ONE_MILLIS;
    let mut j: usize = 0;
    while j < outputs.len()
        invariant
            j <= outputs@.len(),
            best == greatest_scale_millis(outputs@.subrange(0, j as int), reference),
        decreases outputs@.len() - j,
    {
        let ghost prefix = outputs@.subrange(0, j as int);
        let ghost prefix2 = outputs@.subrange(0, j + 1);
        proof {
            assert(prefix2.drop_last() =~= prefix);
        }
        let candidate = match reference {
            None => true,
            Some(r) => outputs[j].geometry.intersects(&r),
        };
        if candidate && outputs[j].scale_millis > best {
            best = outputs[j].scale_millis;
        }
        j += 1;
    }
    proof {
        assert(outputs@.subrange(0, outputs@.len() as int) =~= outputs@);
    }
    best
}

/// Resolve a sparse capture request against a snapshot of the live
/// outputs into an unambiguous capture plan.
///
/// The geometry text is parsed first; a malformed text aborts with a
/// geometry error. A named output is then looked up by exact name, and a
/// missing one aborts with an output error. The scale is the explicit one
/// verbatim when given, else the greatest scale among outputs that
/// intersect the reference region (the named output's geometry, else the
/// requested region, else all outputs). The mode follows the decision
/// table; the cursor flag is forwarded unchanged.
pub fn resolve(request: &CaptureRequest, outputs: &Vec<OutputDescriptor>) -> (r: Result<
    CapturePlan,
    ResolveError,
>)
    ensures
        r is Ok <==> resolve_ok(*request, outputs@),
        r matches Ok(plan) ==> {
            &&& mode_matches(plan.mode, *request)
            &&& plan.scale_millis == resolved_scale(*request, outputs@)
            &&& plan.cursor == request.cursor
        },
        r matches Err(e) ==> error_matches(e, *request, outputs@),
{
    let region: Option<Region> = match &request.geometry {
        None => None,
        Some(g) => match parse_region(g.as_str()) {
            Ok(reg) => Some(reg),
            Err(e) => {
                return Err(e);
            },
        },
    };
    let scale_ref: Option<Region> = match &request.output_name {
        Some(name) => match find_output_exec(outputs, name) {
            Some(i) => Some(outputs[i].geometry),
            None => {
                return Err(ResolveError::OutputNotFound(name.clone()));
            },
        },
        None => region,
    };
    let scale: u32 = match request.scale_millis {
        Some(s) => s,
        None => greatest_scale_exec(outputs, scale_ref),
    };
    let mode: CaptureMode = match (&request.output_name, region) {
        (Some(n), Some(reg)) => CaptureMode::SingleOutputWithRegion {
            name: n.clone(),
            region: reg,
        },
        (Some(n), None) => CaptureMode::SingleOutput { name: n.clone() },
        (None, Some(reg)) => CaptureMode::RegionCapture { region: reg },
        (None, None) => CaptureMode::WholeScreen,
    };
    Ok(CapturePlan { mode, scale_millis: scale, cursor: request.cursor })
}

/// The defaulted scale dominates every candidate output's scale: no
/// output that intersects the reference region is sharper than the
/// resolved scale.
pub proof fn lemma_greatest_scale_dominates(
    outputs: Seq<OutputDescriptor>,
    reference: Option<Region>,
    i: int,
)
    requires
        0 <= i < outputs.len(),
        scale_candidate(outputs[i], reference),
    ensures
        greatest_scale_millis(outputs, reference) >= outputs[i].scale_millis,
    decreases outputs.len(),
{
    if i < outputs.len() - 1 {
        lemma_greatest_scale_dominates(outputs.drop_last(), reference, i);
    }
}

/// The defaulted scale is attained: it is either the 1.0 floor or the
/// scale of some candidate output. Together with domination this makes it
/// the maximum scale among outputs intersecting the reference region.
pub proof fn lemma_greatest_scale_attained(outputs: Seq<OutputDescriptor>, reference: Option<Region>)
    ensures
        greatest_scale_millis(outputs, reference) == SCALE_ONE_MILLIS || exists|i: int|
            0 <= i < outputs.len() && scale_candidate(#[trigger] outputs[i], reference)
                && outputs[i].scale_millis == greatest_scale_millis(outputs, reference),
    decreases outputs.len(),
{
    if outputs.len() > 0 {
        lemma_greatest_scale_attained(outputs.drop_last(), reference);
        let rest = greatest_scale_millis(outputs.drop_last(), reference);
        let whole = greatest_scale_millis(outputs, reference);
        if scale_candidate(outputs.last(), reference) && outputs.last().scale_millis > rest {
            assert(outputs[outputs.len() - 1].scale_millis == whole);
        } else if rest != SCALE_ONE_MILLIS {
            let i = choose|i: int|
                0 <= i < outputs.drop_last().len() && scale_candidate(
                    #[trigger] outputs.drop_last()[i],
                    reference,
                ) && outputs.drop_last()[i].scale_millis == rest;
            assert(outputs[i].scale_millis == whole);
        }
    }
}

/// The defaulted scale is exactly the maximum scale among the outputs
/// that intersect the reference region, whenever some output does and no
/// scale lies below 1.0 (compositor scale factors never do): it
/// dominates every such output and is attained by one of them.
pub proof fn lemma_greatest_scale_is_max(
    outputs: Seq<OutputDescriptor>,
    reference: Option<Region>,
    i: int,
)
    requires
        0 <= i < outputs.len(),
        scale_candidate(outputs[i], reference),
        forall|j: int|
            0 <= j < outputs.len() ==> #[trigger] outputs[j].scale_millis >= SCALE_ONE_MILLIS,
    ensures
        forall|j: int|
            0 <= j < outputs.len() && scale_candidate(#[trigger] outputs[j], reference)
                ==> greatest_scale_millis(outputs, reference) >= outputs[j].scale_millis,
        exists|k: int|
            0 <= k < outputs.len() && scale_candidate(#[trigger] outputs[k], reference)
                && outputs[k].scale_millis == greatest_scale_millis(outputs, reference),
{
    let g = greatest_scale_millis(outputs, reference);
    assert forall|j: int|
        0 <= j < outputs.len() && scale_candidate(#[trigger] outputs[j], reference) implies g
        >= outputs[j].scale_millis by {
        lemma_greatest_scale_dominates(outputs, reference, j);
    }
    lemma_greatest_scale_attained(outputs, reference);
    if g == SCALE_ONE_MILLIS {
        // the floor can only be hit by an output that sits exactly on it
        assert(outputs[i].scale_millis == SCALE_ONE_MILLIS);
    }
}

} // verus!
