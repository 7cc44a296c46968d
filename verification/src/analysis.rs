//! The whole analysis of a crate: each checker walks the program from its
//! entry point, then the crate's structs are checked for type confusion.

use vstd::prelude::*;
use crate::checkers::bump_seed::BumpSeed;
use crate::checkers::cross_program_invocation::ProgramId;
use crate::checkers::instruction_id::InstructionIdChecker;
use crate::checkers::overflow::ExternalNumeric;
use crate::checkers::precision::RoundChecker;
use crate::checkers::staking_validator::StakingValidator;
use crate::mir::{body_of, Tcx};
use crate::ty_confusion::{confusions_recorded, crate_layouts, findings_before, is_grouping, StructDefLayoutView};
use crate::reporter::{report_grows, report_wf, Report};
use crate::version::{check_version, parse_version, version_answer, LockPackage};
use crate::wpa::{entry_of, program_calls_fit, StateTransitor, WholeProgramTraverser};
use crate::walk::{filter_cleared, fresh_walk, start_walk, WalkState};

verus! {

/// The version of `spl-token` from which the program id of a token
/// instruction is checked by the token program itself.
pub open spec fn spl_token_safe_version() -> (u64, u64, u64) {
    (3, 1, 1)
}

/// The crate has no entry point with a body, so a walk from the entry
/// point analyses nothing.
pub open spec fn no_walk(tcx: Tcx) -> bool {
    match entry_of(tcx) {
        Some(e) => body_of(tcx, e) is None,
        None => true,
    }
}

/// The report with the project's name set.
pub open spec fn with_proj(r: Report, name: String) -> Report {
    Report { proj: Some(name), ..r }
}

/// The report `rb` is what one checker's walk of the program, from a new
/// traverser, makes of the report `ra`.
pub open spec fn checker_walk<T: StateTransitor>(tcx: Tcx, ra: Report, rb: Report) -> bool {
    exists|w: WalkState<T>| #[trigger] start_walk::<T>(tcx, fresh_walk::<T>(ra), w) && w.report == rb
}

/// The report `rb` is what the checkers' walks make of the report `ra`, one
/// after the other: integer overflow, rounding, bump seeds, staking
/// validators, instruction ids and, when `with_program_id`, program ids.
pub open spec fn checkers_walk(tcx: Tcx, ra: Report, rb: Report, with_program_id: bool) -> bool {
    exists|r1: Report| #[trigger] checker_walk::<ExternalNumeric>(tcx, ra, r1) && exists|r2: Report|
        #[trigger] checker_walk::<RoundChecker>(tcx, r1, r2) && exists|r3: Report|
        #[trigger] checker_walk::<BumpSeed>(tcx, r2, r3) && exists|r4: Report|
        #[trigger] checker_walk::<StakingValidator>(tcx, r3, r4) && exists|r5: Report|
        #[trigger] checker_walk::<InstructionIdChecker>(tcx, r4, r5) && if with_program_id {
        checker_walk::<ProgramId>(tcx, r5, rb)
    } else {
        rb == r5
    }
}

/// Runs the checkers of integer overflow, rounding, bump seeds, staking
/// validators and instruction ids, and, unless the project depends on
/// `spl-token` 3.1.1 or later (as the lock files say, see
/// `check_version`), the checker of program ids. Returns whether the
/// program-id checker ran.
pub fn run_checkers(tcx: &Tcx, report: &mut Report, lockfiles: &Vec<Option<Vec<LockPackage>>>) -> (r: bool)
    requires
        program_calls_fit(*tcx),
        report_wf(*old(report)),
    ensures
        report_grows(*old(report), *final(report)),
        r == !version_answer(lockfiles@, "spl-token"@, spl_token_safe_version()),
        no_walk(*tcx) ==> filter_cleared(*old(report), *final(report)),
        checkers_walk(*tcx, *old(report), *final(report), r),
{
    let ghost r0 = *report;
    let mut traverser = WholeProgramTraverser::<ExternalNumeric>::new(tcx);
    proof {
        assert(traverser.walk_state(r0) == fresh_walk::<ExternalNumeric>(r0));
    }
    traverser.start(report);
    let ghost r1 = *report;
    proof {
        assert(checker_walk::<ExternalNumeric>(*tcx, r0, r1));
    }
    let mut traverser = WholeProgramTraverser::<RoundChecker>::new(tcx);
    proof {
        assert(traverser.walk_state(r1) == fresh_walk::<RoundChecker>(r1));
    }
    traverser.start(report);
    let ghost r2 = *report;
    proof {
        assert(checker_walk::<RoundChecker>(*tcx, r1, r2));
    }
    let mut traverser = WholeProgramTraverser::<BumpSeed>::new(tcx);
    proof {
        assert(traverser.walk_state(r2) == fresh_walk::<BumpSeed>(r2));
    }
    traverser.start(report);
    let ghost r3 = *report;
    proof {
        assert(checker_walk::<BumpSeed>(*tcx, r2, r3));
    }
    let mut traverser = WholeProgramTraverser::<StakingValidator>::new(tcx);
    proof {
        assert(traverser.walk_state(r3) == fresh_walk::<StakingValidator>(r3));
    }
    traverser.start(report);
    let ghost r4 = *report;
    proof {
        assert(checker_walk::<StakingValidator>(*tcx, r3, r4));
    }
    let mut traverser = WholeProgramTraverser::<InstructionIdChecker>::new(tcx);
    proof {
        assert(traverser.walk_state(r4) == fresh_walk::<InstructionIdChecker>(r4));
    }
    traverser.start(report);
    let ghost r5 = *report;
    proof {
        assert(checker_walk::<InstructionIdChecker>(*tcx, r4, r5));
    }
    let safe = match parse_version("3.1.1") {
        Some(_) => check_version("spl-token", "3.1.1", lockfiles),
        None => true,
    };
    proof {
        crate::version::lemma_parse_3_1_1();
    }
    if !safe {
        let mut traverser = WholeProgramTraverser::<ProgramId>::new(tcx);
        proof {
            assert(traverser.walk_state(r5) == fresh_walk::<ProgramId>(r5));
        }
        traverser.start(report);
        proof {
            assert(checker_walk::<ProgramId>(*tcx, r5, *report));
        }
    }
    !safe
}

/// Analyses a crate: the report is given the crate's name, the checkers
/// run, and the crate's structs are checked for type confusion.
pub fn analyze(tcx: &Tcx, report: &mut Report, crate_name: String, lockfiles: &Vec<Option<Vec<LockPackage>>>)
    requires
        program_calls_fit(*tcx),
        report_wf(*old(report)),
    ensures
        report_grows(Report { proj: Some(crate_name), ..*old(report) }, *final(report)),
        exists|mid: Report|
            {
                &&& #[trigger] report_grows(with_proj(*old(report), crate_name), mid)
                &&& no_walk(*tcx) ==> filter_cleared(with_proj(*old(report), crate_name), mid)
                &&& checkers_walk(
                    *tcx,
                    with_proj(*old(report), crate_name),
                    mid,
                    !version_answer(lockfiles@, "spl-token"@, spl_token_safe_version()),
                )
                &&& exists|gv: Seq<(usize, Seq<StructDefLayoutView>)>|
                    is_grouping(crate_layouts(*tcx), gv) && confusions_recorded(
                        mid,
                        *final(report),
                        findings_before(*tcx, gv, gv.len() as int, 0),
                    )
            },
{
    let ghost named = with_proj(*old(report), crate_name);
    report.set_proj(crate_name);
    run_checkers(tcx, report, lockfiles);
    let ghost mid = *report;
    crate::ty_confusion::check_confusion_types(tcx, report);
    proof {
        assert(report_grows(named, mid));
    }
}

} // verus!
