//! Which evidence a tool call calls for, and what becomes of it.

use crate::json::{Json, JsonView, compact, json_compact, json_parsed, member, parse};
use crate::plan::model::{
    CapturedPlanEvidence, EvidenceView, PlanEvidence, PlanEvidenceKind, evidence_view,
};
use crate::text::{opt_text, owned, replace_char, replaced_char, same};
use vstd::prelude::*;
use vstd::string::*;

verus! {

/// What is to be fingerprinted for a tool call.
#[derive(Debug, PartialEq, Eq)]
pub enum EvidenceRequest {
    /// A file, a directory or a directory tree of the workspace.
    Path { path: String, kind: PlanEvidenceKind },
    /// A Git inspection, by its arguments in compact notation.
    Git { path: String, selector: String },
    Nothing,
}

pub enum RequestView {
    Path { path: Seq<char>, kind: PlanEvidenceKind },
    Git { path: Seq<char>, selector: Seq<char> },
    Nothing,
}

impl EvidenceRequest {
    pub open spec fn view(self) -> RequestView {
        match self {
            EvidenceRequest::Path { path, kind } => RequestView::Path { path: path@, kind },
            EvidenceRequest::Git { path, selector } => RequestView::Git {
                path: path@,
                selector: selector@,
            },
            EvidenceRequest::Nothing => RequestView::Nothing,
        }
    }
}

/// The text under `path` in the arguments of a call.
pub open spec fn path_argument(args: JsonView) -> Option<Seq<char>> {
    match member(args, "path"@) {
        Some(JsonView::Text(t)) => Some(t),
        _ => None,
    }
}

/// The text under `path`, or the workspace itself.
pub open spec fn path_or_here(args: JsonView) -> Seq<char> {
    match path_argument(args) {
        Some(t) => t,
        None => "."@,
    }
}

/// What is to be fingerprinted for a call with these arguments.
pub open spec fn request_for(tool_name: Seq<char>, args: JsonView) -> Result<
    RequestView,
    Seq<char>,
> {
    if tool_name == "read_file"@ || tool_name == "view_image"@ {
        match path_argument(args) {
            Some(path) => Ok(RequestView::Path { path, kind: PlanEvidenceKind::File }),
            None => Err("evidence path is missing"@),
        }
    } else if tool_name == "list_dir"@ {
        Ok(RequestView::Path { path: path_or_here(args), kind: PlanEvidenceKind::Directory })
    } else if tool_name == "search_files"@ {
        Ok(RequestView::Path { path: path_or_here(args), kind: PlanEvidenceKind::DirectoryTree })
    } else if tool_name == "git_inspect"@ {
        Ok(RequestView::Git { path: path_or_here(args), selector: json_compact(args) })
    } else {
        Ok(RequestView::Nothing)
    }
}

/// What is to be fingerprinted for a call, from the text of its arguments.
pub open spec fn request_of(tool_name: Seq<char>, args_json: Seq<char>) -> Result<
    RequestView,
    Seq<char>,
> {
    match json_parsed(args_json) {
        Err(e) => Err("invalid evidence arguments: "@ + e),
        Ok(args) => request_for(tool_name, args),
    }
}

fn argument_path(args: &Json) -> (r: Option<String>)
    ensures
        opt_text(r) == path_argument(args@),
{
    match args.get("path") {
        Some(j) => match j.as_str() {
            Some(s) => Some(owned(s)),
            None => None,
        },
        None => None,
    }
}

fn argument_path_or_here(args: &Json) -> (r: String)
    ensures
        r@ == path_or_here(args@),
{
    match argument_path(args) {
        Some(s) => s,
        None => owned("."),
    }
}

/// What is to be fingerprinted for a call with these arguments.
pub fn evidence_request_for(tool_name: &str, args: &Json) -> (r: Result<EvidenceRequest, String>)
    ensures
        match r {
            Ok(q) => request_for(tool_name@, args@) == Ok::<RequestView, Seq<char>>(q@),
            Err(e) => request_for(tool_name@, args@) == Err::<RequestView, Seq<char>>(e@),
        },
{
    if same(tool_name, "read_file") || same(tool_name, "view_image") {
        return match argument_path(args) {
            Some(path) => Ok(EvidenceRequest::Path { path, kind: PlanEvidenceKind::File }),
            None => Err(owned("evidence path is missing")),
        };
    }
    if same(tool_name, "list_dir") {
        return Ok(
            EvidenceRequest::Path {
                path: argument_path_or_here(args),
                kind: PlanEvidenceKind::Directory,
            },
        );
    }
    if same(tool_name, "search_files") {
        return Ok(
            EvidenceRequest::Path {
                path: argument_path_or_here(args),
                kind: PlanEvidenceKind::DirectoryTree,
            },
        );
    }
    if same(tool_name, "git_inspect") {
        return Ok(
            EvidenceRequest::Git { path: argument_path_or_here(args), selector: compact(args) },
        );
    }
    Ok(EvidenceRequest::Nothing)
}

/// What is to be fingerprinted for a call, from the text of its arguments.
pub fn evidence_request(tool_name: &str, args_json: &str) -> (r: Result<EvidenceRequest, String>)
    ensures
        match r {
            Ok(q) => request_of(tool_name@, args_json@) == Ok::<RequestView, Seq<char>>(q@),
            Err(e) => request_of(tool_name@, args_json@) == Err::<RequestView, Seq<char>>(e@),
        },
{
    match parse(args_json) {
        Err(e) => {
            let mut m = owned("invalid evidence arguments: ");
            m.append(e.as_str());
            Err(m)
        },
        Ok(args) => evidence_request_for(tool_name, &args),
    }
}

/// The way a path inside the workspace is written in evidence.
pub open spec fn evidence_path(relative: Seq<char>) -> Seq<char> {
    if relative.len() == 0 {
        "."@
    } else {
        replaced_char(relative, '\\', "/"@)
    }
}

/// The piece of evidence for a path, from its place in the workspace and its
/// fingerprint.
pub fn evidence_for_path(
    relative: &str,
    kind: PlanEvidenceKind,
    hashed: Result<(String, bool), String>,
) -> (r: Result<(PlanEvidence, bool), String>)
    ensures
        match r {
            Ok(p) => {
                &&& !(kind is Git)
                &&& hashed matches Ok(h)
                &&& p.0@ == (EvidenceView {
                    path: evidence_path(relative@),
                    kind,
                    fingerprint: h.0@,
                    selector: None,
                })
                &&& p.1 == h.1
            },
            Err(e) => if kind is Git {
                e@ == "Git evidence requires an inspection selector"@
            } else {
                hashed matches Err(reason) && e@ == reason@
            },
        },
{
    if let PlanEvidenceKind::Git = kind {
        return Err(owned("Git evidence requires an inspection selector"));
    }
    let (fingerprint, truncated) = match hashed {
        Ok(h) => h,
        Err(e) => {
            return Err(e);
        },
    };
    let path = if relative.is_empty() {
        owned(".")
    } else {
        replace_char(relative, '\\', "/")
    };
    Ok((PlanEvidence { path, kind, fingerprint, selector: None }, truncated))
}

/// What was observed while evidence was captured: whether the capture was
/// cancelled before and after, and in between the place of the object in the
/// workspace, its fingerprint and whether that leaves something out.
#[derive(Debug, PartialEq, Eq)]
pub struct CaptureObservation {
    pub cancelled_before: bool,
    pub relative: String,
    pub hashed: Result<(String, bool), String>,
    pub cancelled_after: bool,
}

/// What is captured for a tool call: evidence and whether it leaves something
/// out, or why nothing could be captured.
pub open spec fn capture_outcome(
    tool_name: Seq<char>,
    args_json: Seq<char>,
    o: CaptureObservation,
) -> Result<(Seq<EvidenceView>, bool), Seq<char>> {
    if o.cancelled_before {
        Err("plan evidence capture cancelled"@)
    } else {
        match request_of(tool_name, args_json) {
            Err(e) => Err(e),
            Ok(q) => match (q, o.hashed) {
                (RequestView::Nothing, _) => if o.cancelled_after {
                    Err("plan evidence capture cancelled"@)
                } else {
                    Ok((Seq::empty(), false))
                },
                (_, Err(e)) => Err(e@),
                (RequestView::Path { path, kind }, Ok(h)) => if o.cancelled_after {
                    Err("plan evidence capture cancelled"@)
                } else {
                    Ok(
                        (
                            seq![
                                EvidenceView {
                                    path: evidence_path(o.relative@),
                                    kind,
                                    fingerprint: h.0@,
                                    selector: None,
                                },
                            ],
                            h.1,
                        ),
                    )
                },
                (RequestView::Git { path, selector }, Ok(h)) => if o.cancelled_after {
                    Err("plan evidence capture cancelled"@)
                } else {
                    Ok(
                        (
                            seq![
                                EvidenceView {
                                    path,
                                    kind: PlanEvidenceKind::Git,
                                    fingerprint: h.0@,
                                    selector: Some(selector),
                                },
                            ],
                            false,
                        ),
                    )
                },
            },
        }
    }
}

fn copy_hashed(h: &Result<(String, bool), String>) -> (r: Result<(String, bool), String>)
    ensures
        match (r, *h) {
            (Ok(a), Ok(b)) => a.0@ == b.0@ && a.1 == b.1,
            (Err(a), Err(b)) => a@ == b@,
            _ => false,
        },
{
    match h {
        Ok(p) => Ok((p.0.clone(), p.1)),
        Err(e) => Err(e.clone()),
    }
}

/// Captures evidence for a tool call from what was observed.
pub fn try_capture_tool_evidence(tool_name: &str, args_json: &str, o: &CaptureObservation) -> (r:
    Result<CapturedPlanEvidence, String>)
    ensures
        match r {
            Ok(c) => capture_outcome(tool_name@, args_json@, *o) == Ok::<
                (Seq<EvidenceView>, bool),
                Seq<char>,
            >((evidence_view(c.evidence@), c.truncated)),
            Err(e) => capture_outcome(tool_name@, args_json@, *o) == Err::<
                (Seq<EvidenceView>, bool),
                Seq<char>,
            >(e@),
        },
{
    if o.cancelled_before {
        return Err(owned("plan evidence capture cancelled"));
    }
    let request = match evidence_request(tool_name, args_json) {
        Ok(q) => q,
        Err(e) => {
            return Err(e);
        },
    };
    let mut evidence: Vec<PlanEvidence> = Vec::new();
    let mut truncated: bool = false;
    match request {
        EvidenceRequest::Nothing => {
            assert(evidence_view(evidence@) =~= Seq::empty());
        },
        EvidenceRequest::Path { path, kind } => {
            assert(!(kind is Git));
            let piece = match evidence_for_path(o.relative.as_str(), kind, copy_hashed(&o.hashed)) {
                Ok(p) => p,
                Err(e) => {
                    return Err(e);
                },
            };
            truncated = piece.1;
            let ghost view = piece.0@;
            evidence.push(piece.0);
            assert(evidence_view(evidence@) =~= seq![view]);
        },
        EvidenceRequest::Git { path, selector } => {
            let fingerprint = match &o.hashed {
                Ok(h) => h.0.clone(),
                Err(e) => {
                    return Err(e.clone());
                },
            };
            let piece = PlanEvidence {
                path,
                kind: PlanEvidenceKind::Git,
                fingerprint,
                selector: Some(selector),
            };
            let ghost view = piece@;
            evidence.push(piece);
            assert(evidence_view(evidence@) =~= seq![view]);
        },
    }
    if o.cancelled_after {
        return Err(owned("plan evidence capture cancelled"));
    }
    Ok(CapturedPlanEvidence { evidence, truncated })
}

} // verus!
