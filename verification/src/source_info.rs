//! Source text of spans.

use vstd::prelude::*;
use crate::mir::{span_of, SpanInfo, Tcx};

verus! {

/// The source lines of a span: its location, a newline and tab, then its text.
pub open spec fn spec_source_lines(tcx: Tcx, span: u32) -> Option<Seq<char>> {
    match span_of(tcx, span) {
        Some(info) => Some(info.diagnostic@ + " \n\t"@ + match info.snippet {
            Some(s) => s@,
            None => Seq::<char>::empty(),
        }),
        None => None,
    }
}

/// The file (or the two files, joined by ":") that a span lies in.
pub open spec fn spec_source_file(tcx: Tcx, span: u32) -> Option<Seq<char>> {
    match span_of(tcx, span) {
        Some(info) => if info.same_file {
            match info.lo_file {
                Some(f) => Some(f@),
                None => None,
            }
        } else {
            match info.lo_file {
                Some(lo) => Some(lo@ + ":"@ + match info.hi_file {
                    Some(hi) => hi@,
                    None => Seq::<char>::empty(),
                }),
                None => match info.hi_file {
                    Some(hi) => Some(hi@),
                    None => None,
                },
            }
        },
        None => None,
    }
}

/// The location of a span as a diagnostic string (empty when unknown).
pub open spec fn spec_diagnostic(tcx: Tcx, span: u32) -> Seq<char> {
    match span_of(tcx, span) {
        Some(info) => info.diagnostic@,
        None => Seq::empty(),
    }
}

/// The value of an optional string, or the empty string.
pub open spec fn or_empty(s: Option<Seq<char>>) -> Seq<char> {
    match s {
        Some(v) => v,
        None => Seq::empty(),
    }
}

/// The span information of span `s`, when it exists.
pub fn span_info(tcx: &Tcx, span: u32) -> (r: Option<&SpanInfo>)
    ensures
        r == match span_of(*tcx, span) {
            Some(i) => Some(&i),
            None => None::<&SpanInfo>,
        },
{
    if (span as usize) < tcx.spans.len() {
        Some(&tcx.spans[span as usize])
    } else {
        None
    }
}

/// Get the source code for a given span, preceded by its location.
pub fn get_source_lines(tcx: &Tcx, span: u32) -> (r: Option<String>)
    ensures
        match r {
            Some(s) => spec_source_lines(*tcx, span) == Some(s@),
            None => spec_source_lines(*tcx, span).is_none(),
        },
{
    match span_info(tcx, span) {
        Some(info) => {
            let mut s = info.diagnostic.clone();
            s.append(" \n\t");
            match &info.snippet {
                Some(snip) => s.append(snip.as_str()),
                None => {},
            }
            proof {
                reveal_strlit(" \n\t");
                assert(s@ =~= spec_source_lines(*tcx, span).unwrap());
            }
            Some(s)
        },
        None => None,
    }
}

/// The first line shown for a span starting at line `lo`, with `margin`
/// lines of context (no earlier than the file's first line).
pub open spec fn context_first(lo: int, margin: int) -> int {
    if lo >= margin { lo - margin } else { 0 }
}

/// One past the last line shown for a span ending at line `hi`, with
/// `margin` lines of context, in a file of `count` lines (no later than the
/// file's last line).
pub open spec fn context_end(hi: int, margin: int, count: int) -> int {
    if count == 0 {
        0
    } else if hi + margin < count - 1 {
        hi + margin + 1
    } else {
        count
    }
}

/// Lines `a` up to `b` (excluded), each followed by a line break.
pub open spec fn lines_text(lines: Seq<String>, a: int, b: int) -> Seq<char>
    decreases b - a,
{
    if b <= a {
        Seq::empty()
    } else {
        lines_text(lines, a, b - 1) + lines[b - 1]@ + "\n"@
    }
}

/// The lines of a span with `margin` lines of context before and after,
/// clamped to the file's first and last line.
pub open spec fn spec_context_source_lines(tcx: Tcx, span: u32, margin: usize) -> Option<Seq<char>> {
    match span_of(tcx, span) {
        Some(info) => match info.lines {
            Some(l) => Some(
                lines_text(
                    l.file_lines@,
                    context_first(l.lo_line as int, margin as int),
                    context_end(l.hi_line as int, margin as int, l.file_lines@.len() as int),
                ),
            ),
            None => None,
        },
        None => None,
    }
}

/// Get the source code for a given span, with `margin` lines of context
/// before and after it (see `spec_context_source_lines`); nothing when the
/// lines of the span cannot be looked up.
pub fn get_context_source_lines(tcx: &Tcx, span: u32, margin: usize) -> (r: Option<String>)
    ensures
        match r {
            Some(s) => spec_context_source_lines(*tcx, span, margin) == Some(s@),
            None => spec_context_source_lines(*tcx, span, margin).is_none(),
        },
{
    let info = match span_info(tcx, span) {
        Some(i) => i,
        None => {
            return None;
        },
    };
    let l = match &info.lines {
        Some(l) => l,
        None => {
            return None;
        },
    };
    let count = l.file_lines.len();
    let first: usize = if l.lo_line >= margin { l.lo_line - margin } else { 0 };
    let end: usize = if count == 0 {
        0
    } else if l.hi_line < count - 1 && margin < count - 1 - l.hi_line {
        l.hi_line + margin + 1
    } else {
        count
    };
    let mut s = String::new();
    let mut k: usize = first;
    proof {
        reveal_strlit("\n");
    }
    if first < end {
        while k < end
            invariant
                first <= k <= end,
                end <= l.file_lines@.len(),
                s@ == lines_text(l.file_lines@, first as int, k as int),
            decreases end - k,
        {
            s.append(l.file_lines[k].as_str());
            s.append("\n");
            k = k + 1;
        }
    }
    Some(s)
}

/// Get the source file path for the given span. If the start and end of the
/// span lie in different files, return both, joined by ":".
pub fn get_source_file(tcx: &Tcx, span: u32) -> (r: Option<String>)
    ensures
        match r {
            Some(s) => spec_source_file(*tcx, span) == Some(s@),
            None => spec_source_file(*tcx, span).is_none(),
        },
{
    match span_info(tcx, span) {
        Some(info) => {
            if info.same_file {
                match &info.lo_file {
                    Some(f) => Some(f.clone()),
                    None => None,
                }
            } else {
                match &info.lo_file {
                    Some(lo) => {
                        let mut s = lo.clone();
                        s.append(":");
                        match &info.hi_file {
                            Some(hi) => s.append(hi.as_str()),
                            None => {},
                        }
                        proof {
                            reveal_strlit(":");
                            assert(s@ =~= spec_source_file(*tcx, span).unwrap());
                        }
                        Some(s)
                    },
                    None => match &info.hi_file {
                        Some(hi) => Some(hi.clone()),
                        None => None,
                    },
                }
            }
        },
        None => None,
    }
}

/// The location of a span as a diagnostic string (empty when unknown).
pub fn get_diagnostic(tcx: &Tcx, span: u32) -> (r: String)
    ensures
        r@ == spec_diagnostic(*tcx, span),
{
    match span_info(tcx, span) {
        Some(info) => info.diagnostic.clone(),
        None => String::new(),
    }
}

/// The value of an optional string, or the empty string.
pub fn unwrap_or_empty(s: Option<String>) -> (r: String)
    ensures
        r@ == or_empty(match s {
            Some(v) => Some(v@),
            None => None,
        }),
{
    match s {
        Some(v) => v,
        None => String::new(),
    }
}

/// The source lines of each span that has them, in order.
pub open spec fn spans_lines(tcx: Tcx, spans: Seq<u32>) -> Seq<Seq<char>>
    decreases spans.len(),
{
    if spans.len() == 0 {
        Seq::empty()
    } else {
        let rest = spans_lines(tcx, spans.drop_last());
        match spec_source_lines(tcx, spans.last()) {
            Some(l) => rest.push(l),
            None => rest,
        }
    }
}

/// The source of the definitions of the structs, one after another on
/// separate lines.
pub fn get_type_defs_src(tcx: &Tcx, defs: &[&crate::ty_confusion::StructDefLayout]) -> (r: String)
    ensures
        r@ == crate::strs::join_with(
            spans_lines(*tcx, defs@.map_values(|d: &crate::ty_confusion::StructDefLayout| d.span)),
            "\n"@,
        ),
{
    let ghost spans = defs@.map_values(|d: &crate::ty_confusion::StructDefLayout| d.span);
    let mut defs_code: Vec<String> = Vec::new();
    let mut i: usize = 0;
    while i < defs.len()
        invariant
            i <= defs@.len(),
            spans == defs@.map_values(|d: &crate::ty_confusion::StructDefLayout| d.span),
            defs_code@.map_values(|s: String| s@) == spans_lines(*tcx, spans.subrange(0, i as int)),
        decreases defs@.len() - i,
    {
        assert(spans.subrange(0, i + 1).drop_last() =~= spans.subrange(0, i as int));
        let ghost before = defs_code@;
        match get_source_lines(tcx, defs[i].span) {
            Some(code) => {
                defs_code.push(code);
                assert(defs_code@.map_values(|s: String| s@) =~= before.map_values(|s: String| s@).push(
                    defs_code@.last()@,
                ));
            },
            None => {},
        }
        i = i + 1;
    }
    assert(spans.subrange(0, defs@.len() as int) =~= spans);
    crate::strs::join_strings(&defs_code, "\n")
}

} // verus!
