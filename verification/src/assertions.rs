//! Assertions and signer checks of each function: the calls that assert,
//! compare or borrow account data mutably, where their operands come from,
//! whether a signer account is named and checked, and which accounts whose
//! data is borrowed mutably have no ownership check.

use vstd::prelude::*;
use crate::collections::{place_index_contents, PlaceIndex};
use crate::conf::check_is_signer_name;
use crate::mir::{def_path, symbol, ty_display, ty_of, Body, Constant, DefId, Operand, OperandView, Place, Tcx, TyKind};
use crate::strs::{after_first, before_first, chars_of, seq_contains, split_first, str_contains, str_eq, string_of_chars};
use crate::dd::{DataDepsGraph, DdNode};
use crate::callgraph::CallGraph;
use crate::visit::BodyVisitor;
use crate::mir::{ProjElem, PlaceView};
use crate::visit::{views, CallFocus, DefSource, DefSourceView};

verus! {

/// Which arguments of an assertion are its operands.
#[derive(Clone, Copy, Debug, PartialEq, Eq)]
pub enum AssertionOperands {
    Unary(u32),
    Binary(u32, u32),
}

/// A call that matters to the checks: an assertion, a mutable borrow of a
/// `RefCell`, or an equality test.
pub enum KeyStmt {
    AssertionStmt {
        assertion_call_name: &'static str,
        op_arg_index: u32,
        elements: AssertionOperands,
        args: Vec<Operand>,
    },
    BorrowMutStmt { arg: Operand },
    AssertIFStmt {
        assertion_call_name: &'static str,
        op_arg_index: u32,
        elements: AssertionOperands,
        args: Vec<Operand>,
    },
}

/// The view of a `KeyStmt`.
pub enum KeyStmtView {
    AssertionStmt { name: Seq<char>, op_arg_index: u32, elements: AssertionOperands, args: Seq<OperandView> },
    BorrowMutStmt { arg: OperandView },
    AssertIFStmt { name: Seq<char>, op_arg_index: u32, elements: AssertionOperands, args: Seq<OperandView> },
}

impl View for KeyStmt {
    type V = KeyStmtView;

    open spec fn view(&self) -> KeyStmtView {
        match self {
            KeyStmt::AssertionStmt { assertion_call_name, op_arg_index, elements, args } => KeyStmtView::AssertionStmt {
                name: assertion_call_name@,
                op_arg_index: *op_arg_index,
                elements: *elements,
                args: views(args@),
            },
            KeyStmt::BorrowMutStmt { arg } => KeyStmtView::BorrowMutStmt { arg: arg@ },
            KeyStmt::AssertIFStmt { assertion_call_name, op_arg_index, elements, args } => KeyStmtView::AssertIFStmt {
                name: assertion_call_name@,
                op_arg_index: *op_arg_index,
                elements: *elements,
                args: views(args@),
            },
        }
    }
}

/// The argument positions that the operands name lie among `n` arguments.
pub open spec fn elements_in_range(e: AssertionOperands, n: nat) -> bool {
    match e {
        AssertionOperands::Unary(a) => (a as nat) < n,
        AssertionOperands::Binary(a, b) => (a as nat) < n && (b as nat) < n,
    }
}

/// The positions of the statement lie among its arguments.
pub open spec fn key_stmt_wf(k: KeyStmtView) -> bool {
    match k {
        KeyStmtView::AssertionStmt { op_arg_index, elements, args, .. } => (op_arg_index as nat) < args.len()
            && elements_in_range(elements, args.len()),
        KeyStmtView::BorrowMutStmt { .. } => true,
        KeyStmtView::AssertIFStmt { elements, args, .. } => elements_in_range(elements, args.len()),
    }
}

/// The operands that the element positions name.
pub open spec fn element_ops(e: AssertionOperands, args: Seq<OperandView>) -> Seq<OperandView> {
    match e {
        AssertionOperands::Unary(a) => seq![args[a as int]],
        AssertionOperands::Binary(a, b) => seq![args[a as int], args[b as int]],
    }
}

impl KeyStmt {
    /// Whether the positions of the statement lie among its arguments.
    pub fn well_formed(&self) -> (r: bool)
        ensures
            r == key_stmt_wf(self@),
    {
        match self {
            KeyStmt::AssertionStmt { op_arg_index, elements, args, .. } => (*op_arg_index as usize) < args.len()
                && elements_ok(*elements, args.len()),
            KeyStmt::BorrowMutStmt { .. } => true,
            KeyStmt::AssertIFStmt { elements, args, .. } => elements_ok(*elements, args.len()),
        }
    }

    /// The operand that an assertion asserts on.
    pub fn get_op(&self) -> (r: Option<&Operand>)
        requires
            key_stmt_wf(self@),
        ensures
            match self@ {
                KeyStmtView::AssertionStmt { op_arg_index, args, .. } => r matches Some(o) && o@ == args[op_arg_index as int],
                _ => r is None,
            },
    {
        match self {
            KeyStmt::AssertionStmt { op_arg_index: idx, args, .. } => Some(&args[*idx as usize]),
            _ => None,
        }
    }

    /// The operands of the statement: those that its element positions name,
    /// or the borrowed value.
    pub fn get_elements(&self) -> (r: Vec<&Operand>)
        requires
            key_stmt_wf(self@),
        ensures
            r@.map_values(|o: &Operand| o@) == match self@ {
                KeyStmtView::AssertionStmt { elements, args, .. } => element_ops(elements, args),
                KeyStmtView::BorrowMutStmt { arg } => seq![arg],
                KeyStmtView::AssertIFStmt { elements, args, .. } => element_ops(elements, args),
            },
    {
        let mut res: Vec<&Operand> = Vec::new();
        match self {
            KeyStmt::AssertionStmt { elements, args, .. } | KeyStmt::AssertIFStmt { elements, args, .. } => {
                match elements {
                    AssertionOperands::Unary(e1) => {
                        res.push(&args[*e1 as usize]);
                    },
                    AssertionOperands::Binary(e1, e2) => {
                        res.push(&args[*e1 as usize]);
                        res.push(&args[*e2 as usize]);
                    },
                }
            },
            KeyStmt::BorrowMutStmt { arg } => {
                res.push(arg);
            },
        }
        proof {
            assert(res@.map_values(|o: &Operand| o@) =~= match self@ {
                KeyStmtView::AssertionStmt { elements, args, .. } => element_ops(elements, args),
                KeyStmtView::BorrowMutStmt { arg } => seq![arg],
                KeyStmtView::AssertIFStmt { elements, args, .. } => element_ops(elements, args),
            });
        }
        res
    }
}

/// Whether the element positions lie among `n` arguments.
fn elements_ok(e: AssertionOperands, n: usize) -> (r: bool)
    ensures
        r == elements_in_range(e, n as nat),
{
    match e {
        AssertionOperands::Unary(a) => (a as usize) < n,
        AssertionOperands::Binary(a, b) => (a as usize) < n && (b as usize) < n,
    }
}

/// A copy of the arguments.
fn copy_operands(args: &Vec<Operand>) -> (r: Vec<Operand>)
    ensures
        views(r@) == views(args@),
{
    let mut r: Vec<Operand> = Vec::new();
    let mut i: usize = 0;
    while i < args.len()
        invariant
            i <= args@.len(),
            views(r@) == views(args@).subrange(0, i as int),
        decreases args@.len() - i,
    {
        let ghost before = r@;
        r.push(args[i].copy());
        assert(views(r@) =~= views(before).push(args@[i as int]@));
        assert(views(args@).subrange(0, i + 1) =~= views(args@).subrange(0, i as int).push(args@[i as int]@));
        i = i + 1;
    }
    assert(views(args@).subrange(0, args@.len() as int) =~= views(args@));
    r
}

/// What a call contributes: `core::panicking::assert_failed` asserts on its
/// first argument with the next two as operands; `core::panicking::panic`
/// asserts on its first argument; `std::cmp::PartialEq::eq` compares its two
/// arguments; `RefCell::borrow_mut` with one argument borrows it.
pub open spec fn key_focus(tcx: Tcx, func: Operand, args: Seq<Operand>) -> Seq<KeyStmtView> {
    match func {
        Operand::Constant(c) => match ty_of(tcx, c.ty) {
            Some(d) => match d.kind {
                TyKind::FnDef(f) => {
                    let name = def_path(tcx, f);
                    if name == "core::panicking::assert_failed"@ {
                        seq![KeyStmtView::AssertionStmt {
                            name: "core::panicking::assert_failed"@,
                            op_arg_index: 0,
                            elements: AssertionOperands::Binary(1, 2),
                            args: views(args),
                        }]
                    } else if name == "std::cmp::PartialEq::eq"@ {
                        seq![KeyStmtView::AssertIFStmt {
                            name: "std::cmp::PartialEq::eq"@,
                            op_arg_index: 0,
                            elements: AssertionOperands::Binary(0, 1),
                            args: views(args),
                        }]
                    } else if name == "core::panicking::panic"@ {
                        seq![KeyStmtView::AssertionStmt {
                            name: "core::panicking::assert_failed"@,
                            op_arg_index: 0,
                            elements: AssertionOperands::Unary(0),
                            args: views(args),
                        }]
                    } else if name == "std::cell::RefCell::<T>::borrow_mut"@ && args.len() == 1 {
                        seq![KeyStmtView::BorrowMutStmt { arg: args[0]@ }]
                    } else {
                        Seq::empty()
                    }
                },
                _ => Seq::empty(),
            },
            None => Seq::empty(),
        },
        _ => Seq::empty(),
    }
}

/// Records the key statement of a call (see `key_focus`); a call of
/// `borrow_mut` with other than one argument is passed over.
pub fn check_key_calls(
    tcx: &Tcx,
    func: &Operand,
    args: &Vec<Operand>,
    _dest: &Option<(Place, usize)>,
    key_stmts: &mut Vec<KeyStmt>,
)
    ensures
        views(final(key_stmts)@) == views(old(key_stmts)@) + key_focus(*tcx, *func, args@),
{
    let ghost before = key_stmts@;
    proof {
        reveal_strlit("core::panicking::assert_failed");
        reveal_strlit("std::cmp::PartialEq::eq");
        reveal_strlit("core::panicking::panic");
        reveal_strlit("std::cell::RefCell::<T>::borrow_mut");
    }
    match func {
        Operand::Constant(c) => match tcx.ty(c.ty) {
            Some(d) => match &d.kind {
                TyKind::FnDef(f) => {
                    let call_name = tcx.def_path_str(*f);
                    if str_eq(call_name.as_str(), "core::panicking::assert_failed") {
                        key_stmts.push(KeyStmt::AssertionStmt {
                            assertion_call_name: "core::panicking::assert_failed",
                            op_arg_index: 0,
                            elements: AssertionOperands::Binary(1, 2),
                            args: copy_operands(args),
                        });
                    } else if str_eq(call_name.as_str(), "std::cmp::PartialEq::eq") {
                        key_stmts.push(KeyStmt::AssertIFStmt {
                            assertion_call_name: "std::cmp::PartialEq::eq",
                            op_arg_index: 0,
                            elements: AssertionOperands::Binary(0, 1),
                            args: copy_operands(args),
                        });
                    } else if str_eq(call_name.as_str(), "core::panicking::panic") {
                        key_stmts.push(KeyStmt::AssertionStmt {
                            assertion_call_name: "core::panicking::assert_failed",
                            op_arg_index: 0,
                            elements: AssertionOperands::Unary(0),
                            args: copy_operands(args),
                        });
                    } else if str_eq(call_name.as_str(), "std::cell::RefCell::<T>::borrow_mut") && args.len() == 1 {
                        key_stmts.push(KeyStmt::BorrowMutStmt { arg: args[0].copy() });
                    }
                },
                _ => {},
            },
            None => {},
        },
        _ => {},
    }
    assert(views(key_stmts@) =~= views(before) + key_focus(*tcx, *func, args@));
}

impl CallFocus for KeyStmt {
    open spec fn focus_of(tcx: Tcx, func: Operand, args: Seq<Operand>, dest: Option<(Place, usize)>) -> Seq<KeyStmtView> {
        key_focus(tcx, func, args)
    }

    fn on_call(tcx: &Tcx, func: &Operand, args: &Vec<Operand>, dest: &Option<(Place, usize)>, focus: &mut Vec<Self>) {
        check_key_calls(tcx, func, args, dest, focus);
    }
}

/// The place of each user variable, with its debug-information entry
/// (0-based), among the first `n` entries; a later entry wins.
pub open spec fn local_vars_map(infos: Seq<crate::mir::VarDebugInfo>, n: int) -> Map<crate::mir::PlaceView, usize>
    decreases n,
{
    if n <= 0 {
        Map::empty()
    } else {
        match infos[n - 1].place {
            Some(p) => local_vars_map(infos, n - 1).insert(p@, (n - 1) as usize),
            None => local_vars_map(infos, n - 1),
        }
    }
}

/// The place of each user variable, with its debug-information entry.
pub fn get_local_vars(tcx: &Tcx, body: &Body) -> (r: PlaceIndex)
    ensures
        place_index_contents(r) == local_vars_map(body.var_debug_info@, body.var_debug_info@.len() as int),
{
    let mut vars_map = PlaceIndex::new();
    let mut i: usize = 0;
    assert(place_index_contents(vars_map) =~= local_vars_map(body.var_debug_info@, 0));
    while i < body.var_debug_info.len()
        invariant
            i <= body.var_debug_info@.len(),
            place_index_contents(vars_map) == local_vars_map(body.var_debug_info@, i as int),
        decreases body.var_debug_info@.len() - i,
    {
        match &body.var_debug_info[i].place {
            Some(place) => {
                vars_map.insert(place.copy_place(), i);
            },
            None => {},
        }
        i = i + 1;
    }
    vars_map
}

/// An assertion: the constant it asserts on and the sources of its
/// operands.
pub type Assertion = (Constant, Vec<DefSource>);

/// Whether a source is the field path `var.field` (one field, named `field`).
pub open spec fn is_var_field(tcx: Tcx, s: DefSourceView, var: u32, field: Seq<char>) -> bool {
    match s {
        DefSourceView::Var { name, fields } => name == var && fields.len() == 1 && symbol(tcx, fields[0]) == field,
        _ => false,
    }
}

/// Whether a source is `x.is_signer` for a variable `x` named like a signer.
pub open spec fn is_signer_field(tcx: Tcx, s: DefSourceView) -> bool {
    match s {
        DefSourceView::Var { name, fields } => crate::conf::contains_any(symbol(tcx, name), crate::conf::spec_is_signer_vars())
            && fields.len() == 1 && symbol(tcx, fields[0]) == "is_signer"@,
        _ => false,
    }
}

/// The sources of the operands of every assertion.
pub open spec fn assertion_sources(assertions: Seq<(Constant, Vec<DefSource>)>) -> Seq<Seq<DefSourceView>> {
    assertions.map_values(|a: (Constant, Vec<DefSource>)| views(a.1@))
}

/// Whether the sources hold a source that satisfies `p`.
pub open spec fn some_source(srcs: Seq<Seq<DefSourceView>>, p: spec_fn(DefSourceView) -> bool) -> bool {
    exists|i: int, j: int| 0 <= i < srcs.len() && 0 <= j < srcs[i].len() && #[trigger] p(srcs[i][j])
}

/// Whether the field path from `name`'s fields is the one field `field`.
fn var_field_is(tcx: &Tcx, fields: &Vec<u32>, field: &str) -> (r: bool)
    ensures
        r == (fields@.len() == 1 && symbol(*tcx, fields@[0]) == field@),
{
    if fields.len() != 1 {
        return false;
    }
    let f = tcx.symbol_str(fields[0]);
    str_eq(f.as_str(), field)
}

/// Whether some assertion compares the account's `owner` field.
pub fn check_account_ownership(tcx: &Tcx, account: u32, assertions: &[(Constant, Vec<DefSource>)]) -> (r: bool)
    ensures
        r == some_source(assertion_sources(assertions@), |s: DefSourceView| is_var_field(*tcx, s, account, "owner"@)),
{
    let ghost srcs = assertion_sources(assertions@);
    let ghost p = |s: DefSourceView| is_var_field(*tcx, s, account, "owner"@);
    proof {
        reveal_strlit("owner");
    }
    let mut i: usize = 0;
    while i < assertions.len()
        invariant
            i <= assertions@.len(),
            srcs == assertion_sources(assertions@),
            p == (|s: DefSourceView| is_var_field(*tcx, s, account, "owner"@)),
            forall|a: int, b: int| 0 <= a < i && 0 <= b < srcs[a].len() ==> !#[trigger] p(srcs[a][b]),
        decreases assertions@.len() - i,
    {
        let args = &assertions[i].1;
        let mut j: usize = 0;
        while j < args.len()
            invariant
                i < assertions@.len(),
                *args == assertions@[i as int].1,
                j <= args@.len(),
                srcs == assertion_sources(assertions@),
                p == (|s: DefSourceView| is_var_field(*tcx, s, account, "owner"@)),
                forall|a: int, b: int| 0 <= a < i && 0 <= b < srcs[a].len() ==> !#[trigger] p(srcs[a][b]),
                forall|b: int| 0 <= b < j ==> !#[trigger] p(srcs[i as int][b]),
            decreases args@.len() - j,
        {
            assert(srcs[i as int][j as int] == args@[j as int]@);
            match &args[j] {
                DefSource::Var { name, fields } => {
                    if *name == account && var_field_is(tcx, fields, "owner") {
                        assert(p(srcs[i as int][j as int]));
                        return true;
                    }
                },
                _ => {},
            }
            j = j + 1;
        }
        assert forall|a: int, b: int| 0 <= a < i + 1 && 0 <= b < srcs[a].len() implies !#[trigger] p(srcs[a][b]) by {
            if a == i {
                assert(srcs[a].len() == args@.len());
            }
        }
        i = i + 1;
    }
    false
}

/// Whether some assertion tests `x.is_signer` for a variable named like a
/// signer.
pub fn check_is_signer_check(tcx: &Tcx, assertions: &[(Constant, Vec<DefSource>)]) -> (r: bool)
    ensures
        r == some_source(assertion_sources(assertions@), |s: DefSourceView| is_signer_field(*tcx, s)),
{
    let ghost srcs = assertion_sources(assertions@);
    let ghost p = |s: DefSourceView| is_signer_field(*tcx, s);
    proof {
        reveal_strlit("is_signer");
    }
    let mut i: usize = 0;
    while i < assertions.len()
        invariant
            i <= assertions@.len(),
            srcs == assertion_sources(assertions@),
            p == (|s: DefSourceView| is_signer_field(*tcx, s)),
            forall|a: int, b: int| 0 <= a < i && 0 <= b < srcs[a].len() ==> !#[trigger] p(srcs[a][b]),
        decreases assertions@.len() - i,
    {
        let args = &assertions[i].1;
        let mut j: usize = 0;
        while j < args.len()
            invariant
                i < assertions@.len(),
                *args == assertions@[i as int].1,
                j <= args@.len(),
                srcs == assertion_sources(assertions@),
                p == (|s: DefSourceView| is_signer_field(*tcx, s)),
                forall|a: int, b: int| 0 <= a < i && 0 <= b < srcs[a].len() ==> !#[trigger] p(srcs[a][b]),
                forall|b: int| 0 <= b < j ==> !#[trigger] p(srcs[i as int][b]),
            decreases args@.len() - j,
        {
            assert(srcs[i as int][j as int] == args@[j as int]@);
            match &args[j] {
                DefSource::Var { name, fields } => {
                    let var = tcx.symbol_str(*name);
                    if check_is_signer_name(var) && var_field_is(tcx, fields, "is_signer") {
                        assert(p(srcs[i as int][j as int]));
                        return true;
                    }
                },
                _ => {},
            }
            j = j + 1;
        }
        assert forall|a: int, b: int| 0 <= a < i + 1 && 0 <= b < srcs[a].len() implies !#[trigger] p(srcs[a][b]) by {
            if a == i {
                assert(srcs[a].len() == args@.len());
            }
        }
        i = i + 1;
    }
    false
}

/// The string with its trailing line feeds and carriage returns removed.
pub open spec fn trim_newline_spec(s: Seq<char>) -> Seq<char>
    decreases s.len(),
{
    if s.len() > 0 && (s.last() == '\n' || s.last() == '\r') {
        trim_newline_spec(s.drop_last())
    } else {
        s
    }
}

/// Removes the trailing line feeds and carriage returns: while the string
/// ends with a line feed, it is removed with the carriage returns before
/// it; then, while it ends with a carriage return, it is removed with the
/// line feeds before it.
pub fn trim_newline(s: &mut String)
    ensures
        final(s)@ == trim_newline_spec(old(s)@),
{
    let mut v = chars_of(s.as_str());
    let ghost orig = v@;
    while v.len() > 0 && v[v.len() - 1] == '\n'
        invariant
            trim_newline_spec(v@) == trim_newline_spec(orig),
        decreases v@.len(),
    {
        v.pop();
        let ghost n1 = v@.len();
        while v.len() > 0 && v[v.len() - 1] == '\r'
            invariant
                trim_newline_spec(v@) == trim_newline_spec(orig),
                v@.len() <= n1,
            decreases v@.len(),
        {
            v.pop();
        }
    }
    while v.len() > 0 && v[v.len() - 1] == '\r'
        invariant
            trim_newline_spec(v@) == trim_newline_spec(orig),
            !(v@.len() > 0 && v@.last() == '\n'),
        decreases v@.len(),
    {
        v.pop();
        let ghost n1 = v@.len();
        while v.len() > 0 && v[v.len() - 1] == '\n'
            invariant
                trim_newline_spec(v@) == trim_newline_spec(orig),
                v@.len() <= n1,
            decreases v@.len(),
        {
            v.pop();
        }
    }
    *s = string_of_chars(&v);
}

/// What is known of the signer of a function: whether it is checked,
/// whether a signer variable is named, its name and where it is.
pub struct SignerState {
    pub checked: bool,
    pub has_var: bool,
    pub var: String,
    pub span: Option<u32>,
}

/// The view of a `SignerState`.
pub struct SignerStateView {
    pub checked: bool,
    pub has_var: bool,
    pub var: Seq<char>,
    pub span: Option<u32>,
}

impl View for SignerState {
    type V = SignerStateView;

    open spec fn view(&self) -> SignerStateView {
        SignerStateView { checked: self.checked, has_var: self.has_var, var: self.var@, span: self.span }
    }
}

/// The signer state after the call graph's findings: a signer check shows a
/// checked signer; a passed signer account shows a signer variable.
pub open spec fn signer_from_callgraph(cg: CallGraph) -> SignerStateView {
    let st0 = SignerStateView { checked: false, has_var: false, var: "Unknown"@, span: None };
    let st1 = if cg.is_signer {
        SignerStateView { checked: true, has_var: true, var: cg.is_signer_var@, span: cg.is_signer_span }
    } else {
        st0
    };
    if cg.has_signer {
        SignerStateView { has_var: true, var: cg.is_signer_var@, span: cg.is_signer_span, ..st1 }
    } else {
        st1
    }
}

/// The field position that the source of a switch condition shows: the
/// second projection of a partial field reference, when it is a field.
pub open spec fn switch_posi(n: Option<DdNode>) -> u64 {
    match n {
        Some(DdNode::PartialFieldRef { base }) => if base.projection@.len() > 1 {
            match base.projection@[1] {
                ProjElem::Field { field, .. } => field as u64,
                _ => 9999999u64,
            }
        } else {
            9999999u64
        },
        _ => 9999999u64,
    }
}

/// Whether the projections hold a field of Anchor's `AccountInfo` type
/// followed by its field 1 (`is_signer`).
pub open spec fn anchor_signer_field(tcx: Tcx, proj: Seq<ProjElem>) -> bool {
    exists|i: int|
        0 <= i && i + 1 < proj.len() && #[trigger] anchor_account_field(tcx, proj[i]) && is_field(proj[i + 1], 1)
}

/// Whether a projection is field `n`.
pub open spec fn is_field(e: ProjElem, n: u32) -> bool {
    match e {
        ProjElem::Field { field, .. } => field == n,
        _ => false,
    }
}

/// Whether a projection is a field of Anchor's `AccountInfo` type.
pub open spec fn anchor_account_field(tcx: Tcx, e: ProjElem) -> bool {
    match e {
        ProjElem::Field { ty, .. } => match ty_of(tcx, ty) {
            Some(d) => seq_contains(d.display@, "anchor_lang::prelude::AccountInfo"@),
            None => false,
        },
        _ => false,
    }
}

/// The signer state after a switch on `op`: a switch on Anchor's
/// `is_signer` field shows a check; a switch on a value from a user variable
/// of Solana's `AccountInfo` type named like a signer (its debug entry after
/// the first) shows the signer variable, and in a `withdraw` function a
/// switch on its field 1 shows a check.
pub open spec fn switch_step(tcx: Tcx, def_id: DefId, ddg: DataDepsGraph, op: Operand, st: SignerStateView) -> SignerStateView {
    let field_src = ddg.op_origin_of(op, false);
    let posi = switch_posi(field_src);
    let st1 = match field_src {
        Some(DdNode::PartialFieldRef { base }) => if base.projection@.len() > 1 && anchor_signer_field(tcx, base.projection@) {
            SignerStateView { checked: true, ..st }
        } else {
            st
        },
        _ => st,
    };
    match ddg.op_origin_of(op, true) {
        Some(DdNode::LocalDecl { ty, dbg_info, .. }) => if seq_contains(
            ty_display(tcx, ty),
            "solana_program::account_info::AccountInfo"@,
        ) {
            if dbg_info >= 2 && dbg_info - 1 < ddg.var_dbg_info@.len() {
                let info = ddg.var_dbg_info@[dbg_info - 1];
                let name = symbol(tcx, info.name);
                if crate::conf::contains_any(name, crate::conf::spec_is_signer_vars()) {
                    SignerStateView {
                        checked: st1.checked || (posi == 1 && seq_contains(def_path(tcx, def_id), "withdraw"@)),
                        has_var: true,
                        var: name,
                        span: Some(info.span),
                    }
                } else {
                    st1
                }
            } else {
                st1
            }
        } else {
            st1
        },
        _ => st1,
    }
}

/// The signer state after the switches, in order.
pub open spec fn switches_step(tcx: Tcx, def_id: DefId, ddg: DataDepsGraph, ops: Seq<Operand>, st: SignerStateView) -> SignerStateView
    decreases ops.len(),
{
    if ops.len() == 0 {
        st
    } else {
        switch_step(tcx, def_id, ddg, ops.last(), switches_step(tcx, def_id, ddg, ops.drop_last(), st))
    }
}

/// Whether the projections hold a field of Anchor's `AccountInfo` type
/// followed by its field 1.
fn anchor_signer_field_exec(tcx: &Tcx, proj: &Vec<ProjElem>) -> (r: bool)
    ensures
        r == anchor_signer_field(*tcx, proj@),
{
    proof {
        reveal_strlit("anchor_lang::prelude::AccountInfo");
    }
    let mut i: usize = 0;
    while i < proj.len()
        invariant
            i <= proj@.len(),
            forall|k: int| 0 <= k < i && k + 1 < proj@.len() ==> !(#[trigger] anchor_account_field(*tcx, proj@[k]) && is_field(proj@[k + 1], 1)),
        decreases proj@.len() - i,
    {
        let is_anchor = match proj[i] {
            ProjElem::Field { ty, .. } => match tcx.ty(ty) {
                Some(d) => str_contains(d.display.as_str(), "anchor_lang::prelude::AccountInfo"),
                None => false,
            },
            _ => false,
        };
        if is_anchor && i + 1 < proj.len() {
            match proj[i + 1] {
                ProjElem::Field { field, .. } => {
                    if field == 1 {
                        assert(anchor_account_field(*tcx, proj@[i as int]));
                        return true;
                    }
                },
                _ => {},
            }
        }
        i = i + 1;
    }
    false
}

/// Applies one switch to the signer state (see `switch_step`).
fn apply_switch(tcx: &Tcx, def_id: DefId, ddg: &DataDepsGraph, op: &Operand, st: &mut SignerState)
    requires
        ddg.wf(),
    ensures
        final(st)@ == switch_step(*tcx, def_id, *ddg, *op, old(st)@),
{
    proof {
        reveal_strlit("anchor_lang::prelude::AccountInfo");
        reveal_strlit("solana_program::account_info::AccountInfo");
        reveal_strlit("withdraw");
    }
    let field_src = ddg.origin_op_source(op, false);
    let mut posi: u64 = 9999999;
    match field_src {
        Some(DdNode::PartialFieldRef { base }) => {
            if base.projection.len() > 1 {
                match base.projection[1] {
                    ProjElem::Field { field, .. } => {
                        posi = field as u64;
                    },
                    _ => {},
                }
                if anchor_signer_field_exec(tcx, &base.projection) {
                    st.checked = true;
                }
            }
        },
        _ => {},
    }
    match ddg.origin_op_source(op, true) {
        Some(DdNode::LocalDecl { ty, dbg_info, .. }) => {
            let disp = match tcx.ty(*ty) {
                Some(d) => str_contains(d.display.as_str(), "solana_program::account_info::AccountInfo"),
                None => false,
            };
            if disp && *dbg_info >= 2 && *dbg_info - 1 < ddg.var_dbg_info.len() {
                let info = &ddg.var_dbg_info[*dbg_info - 1];
                let name = tcx.symbol_str(info.name);
                if check_is_signer_name(name.clone()) {
                    st.has_var = true;
                    st.var = name;
                    st.span = Some(info.span);
                    if posi == 1 {
                        let path = tcx.def_path_str(def_id);
                        if str_contains(path.as_str(), "withdraw") {
                            st.checked = true;
                        }
                    }
                }
            }
        },
        _ => {},
    }
}

/// The sources of the operands that come from places and have a source.
pub open spec fn elem_sources(v: BodyVisitor<KeyStmt>, body: Body, dbg: PlaceIndex, ops: Seq<OperandView>) -> Seq<DefSourceView>
    decreases ops.len(),
{
    if ops.len() == 0 {
        Seq::empty()
    } else {
        let rest = elem_sources(v, body, dbg, ops.drop_last());
        match ops.last() {
            OperandView::Copy(p) => match v.def_of(p, body, dbg) {
                Some(d) => rest.push(d),
                None => rest,
            },
            OperandView::Move(p) => match v.def_of(p, body, dbg) {
                Some(d) => rest.push(d),
                None => rest,
            },
            OperandView::Constant(_) => rest,
        }
    }
}

/// What the text of a failed assertion names: in
/// `"... assertion failed: var.field..."`, the variable and the field.
pub open spec fn assert_text_parts(text: Seq<char>) -> Option<(Seq<char>, Seq<char>)> {
    match after_first(text, "assertion failed: "@) {
        Some(r1) => {
            let v1 = before_first(r1, "assertion failed: "@);
            match after_first(v1, "."@) {
                Some(r2) => Some((before_first(v1, "."@), before_first(before_first(r2, "."@), "\""@))),
                None => None,
            }
        },
        None => None,
    }
}

/// The state of the checks: the signer state, the assertions found (the
/// constant each asserts on and the sources of its operands), and the
/// variables whose data is borrowed mutably.
pub type KeyAcc = (SignerStateView, Seq<(Constant, Seq<DefSourceView>)>, Seq<u32>);

/// The checks after one key statement. An assertion on a place whose
/// source is a constant records that constant with the sources of its
/// operands; an assertion on a constant whose first operand is a constant
/// with the text of a failed assertion on `var.field`, for a variable named
/// like a signer, names that variable and shows a check when the field is
/// `is_signer`; a mutable borrow of `var.data` records `var`. A statement
/// whose positions lie outside its arguments is passed over.
pub open spec fn key_step(tcx: Tcx, body: Body, v: BodyVisitor<KeyStmt>, dbg: PlaceIndex, k: KeyStmtView, acc: KeyAcc) -> KeyAcc {
    if !key_stmt_wf(k) {
        acc
    } else {
        match k {
            KeyStmtView::AssertionStmt { op_arg_index, elements, args, .. } => match args[op_arg_index as int] {
                OperandView::Constant(_) => match element_ops(elements, args)[0] {
                    OperandView::Constant(c) => match assert_text_parts(c.display@) {
                        Some((var, field)) => if crate::conf::contains_any(var, crate::conf::spec_is_signer_vars()) {
                            (
                                SignerStateView {
                                    checked: acc.0.checked || field == "is_signer"@,
                                    has_var: true,
                                    var: var,
                                    span: None,
                                },
                                acc.1,
                                acc.2,
                            )
                        } else {
                            acc
                        },
                        None => acc,
                    },
                    _ => acc,
                },
                OperandView::Copy(p) => key_assert_place(tcx, body, v, dbg, p, element_ops(elements, args), acc),
                OperandView::Move(p) => key_assert_place(tcx, body, v, dbg, p, element_ops(elements, args), acc),
            },
            KeyStmtView::BorrowMutStmt { arg } => match arg {
                OperandView::Copy(p) => key_borrow(tcx, body, v, dbg, p, acc),
                OperandView::Move(p) => key_borrow(tcx, body, v, dbg, p, acc),
                OperandView::Constant(_) => acc,
            },
            KeyStmtView::AssertIFStmt { .. } => acc,
        }
    }
}

/// An assertion on a place: recorded when the place's source is a constant.
pub open spec fn key_assert_place(tcx: Tcx, body: Body, v: BodyVisitor<KeyStmt>, dbg: PlaceIndex, p: PlaceView, ops: Seq<OperandView>, acc: KeyAcc) -> KeyAcc {
    match v.def_of(p, body, dbg) {
        Some(DefSourceView::Const(c)) => (acc.0, acc.1.push((c, elem_sources(v, body, dbg, ops))), acc.2),
        _ => acc,
    }
}

/// A mutable borrow: `var.data` records `var` once.
pub open spec fn key_borrow(tcx: Tcx, body: Body, v: BodyVisitor<KeyStmt>, dbg: PlaceIndex, p: PlaceView, acc: KeyAcc) -> KeyAcc {
    match v.def_of(p, body, dbg) {
        Some(DefSourceView::Var { name, fields }) => if fields.len() == 1 && symbol(tcx, fields[0]) == "data"@
            && !acc.2.contains(name) {
            (acc.0, acc.1, acc.2.push(name))
        } else {
            acc
        },
        _ => acc,
    }
}

/// The checks after the key statements, in order.
pub open spec fn key_steps(tcx: Tcx, body: Body, v: BodyVisitor<KeyStmt>, dbg: PlaceIndex, ks: Seq<KeyStmtView>, acc: KeyAcc) -> KeyAcc
    decreases ks.len(),
{
    if ks.len() == 0 {
        acc
    } else {
        key_step(tcx, body, v, dbg, ks.last(), key_steps(tcx, body, v, dbg, ks.drop_last(), acc))
    }
}

/// The views of recorded assertions.
pub open spec fn assertions_view(a: Seq<(Constant, Vec<DefSource>)>) -> Seq<(Constant, Seq<DefSourceView>)> {
    a.map_values(|x: (Constant, Vec<DefSource>)| (x.0, views(x.1@)))
}

/// The sources of the operands that come from places and have a source.
fn get_elem_sources(v: &BodyVisitor<KeyStmt>, body: &Body, dbg: &PlaceIndex, ops: &Vec<&Operand>) -> (r: Vec<DefSource>)
    ensures
        views(r@) == elem_sources(*v, *body, *dbg, ops@.map_values(|o: &Operand| o@)),
{
    let ghost ov = ops@.map_values(|o: &Operand| o@);
    let mut r: Vec<DefSource> = Vec::new();
    let mut i: usize = 0;
    while i < ops.len()
        invariant
            i <= ops@.len(),
            ov == ops@.map_values(|o: &Operand| o@),
            views(r@) == elem_sources(*v, *body, *dbg, ov.subrange(0, i as int)),
        decreases ops@.len() - i,
    {
        assert(ov.subrange(0, i + 1).drop_last() =~= ov.subrange(0, i as int));
        assert(ov.subrange(0, i + 1).last() == ops@[i as int]@);
        let ghost before = r@;
        match ops[i] {
            Operand::Copy(p) | Operand::Move(p) => {
                let mut from = v.get_def(p, body, dbg);
                let ghost f0 = from@;
                assert(views(f0).len() == f0.len());
                if from.len() > 0 {
                    assert(views(f0)[0] == f0[0]@);
                    let d = from.remove(0);
                    assert(d == f0[0]);
                    r.push(d);
                    assert(views(r@) =~= views(before).push(d@));
                }
            },
            _ => {},
        }
        i = i + 1;
    }
    assert(ov.subrange(0, ops@.len() as int) =~= ov);
    r
}

/// Applies one key statement to the checks (see `key_step`).
fn apply_key_stmt(
    tcx: &Tcx,
    body: &Body,
    v: &BodyVisitor<KeyStmt>,
    dbg: &PlaceIndex,
    k: &KeyStmt,
    st: &mut SignerState,
    assertions: &mut Vec<(Constant, Vec<DefSource>)>,
    sensitive: &mut Vec<u32>,
)
    ensures
        (final(st)@, assertions_view(final(assertions)@), final(sensitive)@) == key_step(
            *tcx,
            *body,
            *v,
            *dbg,
            k@,
            (old(st)@, assertions_view(old(assertions)@), old(sensitive)@),
        ),
{
    if !k.well_formed() {
        return;
    }
    proof {
        reveal_strlit("assertion failed: ");
        reveal_strlit(".");
        reveal_strlit("\"");
        reveal_strlit("is_signer");
        reveal_strlit("data");
    }
    let ghost a0 = assertions@;
    match k {
        KeyStmt::AssertionStmt { .. } => {
            let op = k.get_op().unwrap();
            let args = k.get_elements();
            assert(args@.map_values(|o: &Operand| o@).len() == args@.len());
            match op {
                Operand::Copy(p) | Operand::Move(p) => {
                    let op_from = v.get_def(p, body, dbg);
                    let args_from = get_elem_sources(v, body, dbg, &args);
                    assert(views(op_from@).len() == op_from@.len());
                    if op_from.len() == 1 {
                        assert(views(op_from@)[0] == op_from@[0]@);
                        match &op_from[0] {
                            DefSource::Const(c) => {
                                assertions.push((c.copy(), args_from));
                                assert(assertions_view(assertions@) =~= assertions_view(a0).push((*c, views(args_from@))));
                            },
                            _ => {},
                        }
                    }
                },
                Operand::Constant(_) => {
                    match args[0] {
                        Operand::Constant(c) => {
                            let (_, rest) = split_first(c.display.as_str(), "assertion failed: ");
                            match rest {
                                Some(r1) => {
                                    let (v1, _) = split_first(r1.as_str(), "assertion failed: ");
                                    let (var, after) = split_first(v1.as_str(), ".");
                                    match after {
                                        Some(r2) => {
                                            let (piece, _) = split_first(r2.as_str(), ".");
                                            let (field, _) = split_first(piece.as_str(), "\"");
                                            if check_is_signer_name(var.clone()) {
                                                st.has_var = true;
                                                st.var = var;
                                                st.span = None;
                                                if str_eq(field.as_str(), "is_signer") {
                                                    st.checked = true;
                                                }
                                            }
                                        },
                                        None => {},
                                    }
                                },
                                None => {},
                            }
                        },
                        _ => {},
                    }
                },
            }
        },
        KeyStmt::BorrowMutStmt { arg } => {
            match arg {
                Operand::Copy(p) | Operand::Move(p) => {
                    let backtracked = v.get_def(p, body, dbg);
                    assert(views(backtracked@).len() == backtracked@.len());
                    if backtracked.len() > 0 {
                        assert(views(backtracked@)[0] == backtracked@[0]@);
                        match &backtracked[0] {
                            DefSource::Var { name, fields } => {
                                let tcx_fields = fields;
                                if var_field_is(tcx, tcx_fields, "data") && !vec_contains_u32(sensitive, *name) {
                                    sensitive.push(*name);
                                }
                            },
                            _ => {},
                        }
                    }
                },
                _ => {},
            }
        },
        KeyStmt::AssertIFStmt { .. } => {},
    }
}

/// Whether the vector holds `x`.
fn vec_contains_u32(v: &Vec<u32>, x: u32) -> (r: bool)
    ensures
        r == v@.contains(x),
{
    let mut i: usize = 0;
    while i < v.len()
        invariant
            i <= v@.len(),
            forall|k: int| 0 <= k < i ==> v@[k] != x,
        decreases v@.len() - i,
    {
        if v[i] == x {
            assert(v@[i as int] == x);
            return true;
        }
        i = i + 1;
    }
    false
}

/// What the checks find in a function: whether its signer is checked,
/// whether a signer variable is named (with its name and where it is), and
/// the variables whose data is borrowed mutably without an ownership check.
pub struct AssertionSummary {
    pub def_id: DefId,
    pub is_signer_checked: bool,
    pub has_signer_variable: bool,
    pub is_signer_var: String,
    pub is_signer_span: Option<u32>,
    pub unchecked_owners: Vec<u32>,
}

/// The sources of the operands of recorded assertions.
pub open spec fn acc_sources(a: Seq<(Constant, Seq<DefSourceView>)>) -> Seq<Seq<DefSourceView>> {
    a.map_values(|x: (Constant, Seq<DefSourceView>)| x.1)
}

/// The variables, among `sens`, whose `owner` field no assertion compares.
pub open spec fn unchecked_owners(tcx: Tcx, sens: Seq<u32>, srcs: Seq<Seq<DefSourceView>>) -> Seq<u32>
    decreases sens.len(),
{
    if sens.len() == 0 {
        Seq::empty()
    } else {
        let rest = unchecked_owners(tcx, sens.drop_last(), srcs);
        let x = sens.last();
        if some_source(srcs, |s: DefSourceView| is_var_field(tcx, s, x, "owner"@)) {
            rest
        } else {
            rest.push(x)
        }
    }
}

/// The checks after the call graph, the switches and the key statements.
pub open spec fn checks_of(tcx: Tcx, def_id: DefId, body: Body, ddg: DataDepsGraph, cg: CallGraph, v: BodyVisitor<KeyStmt>, dbg: PlaceIndex) -> KeyAcc {
    let st = switches_step(tcx, def_id, ddg, v.switchint@, signer_from_callgraph(cg));
    key_steps(tcx, body, v, dbg, views(v.focus@), (st, Seq::empty(), Seq::empty()))
}

/// The summary of a function's checks: the signer is checked when the
/// checks show it or an assertion tests `x.is_signer`; the unchecked
/// owners are the borrowed variables whose `owner` field no assertion
/// compares.
pub open spec fn summary_is(
    r: AssertionSummary,
    tcx: Tcx,
    def_id: DefId,
    body: Body,
    ddg: DataDepsGraph,
    cg: CallGraph,
    v: BodyVisitor<KeyStmt>,
    dbg: PlaceIndex,
) -> bool {
    let acc = checks_of(tcx, def_id, body, ddg, cg, v, dbg);
    let srcs = acc_sources(acc.1);
    &&& r.def_id == def_id
    &&& r.is_signer_checked == (acc.0.checked || some_source(srcs, |s: DefSourceView| is_signer_field(tcx, s)))
    &&& r.has_signer_variable == acc.0.has_var
    &&& r.is_signer_var@ == acc.0.var
    &&& r.is_signer_span == acc.0.span
    &&& r.unchecked_owners@ == unchecked_owners(tcx, acc.2, srcs)
}

/// Summarises the checks of a function from its data-source graph, its
/// call graph and the visit of its body (see `summary_is`).
pub fn summarize(
    tcx: &Tcx,
    def_id: DefId,
    body: &Body,
    ddg: &DataDepsGraph,
    cg: &CallGraph,
    v: &BodyVisitor<KeyStmt>,
    dbg: &PlaceIndex,
) -> (r: AssertionSummary)
    requires
        ddg.wf(),
    ensures
        summary_is(r, *tcx, def_id, *body, *ddg, *cg, *v, *dbg),
{
    let mut st = SignerState { checked: false, has_var: false, var: String::from_str("Unknown"), span: None };
    if cg.is_signer {
        st.has_var = true;
        st.var = cg.is_signer_var.clone();
        st.span = cg.is_signer_span;
        st.checked = true;
    }
    if cg.has_signer {
        st.has_var = true;
        st.var = cg.is_signer_var.clone();
        st.span = cg.is_signer_span;
    }
    assert(st@ == signer_from_callgraph(*cg));
    let ghost st0 = st@;
    let mut i: usize = 0;
    while i < v.switchint.len()
        invariant
            ddg.wf(),
            i <= v.switchint@.len(),
            st@ == switches_step(*tcx, def_id, *ddg, v.switchint@.subrange(0, i as int), st0),
        decreases v.switchint@.len() - i,
    {
        assert(v.switchint@.subrange(0, i + 1).drop_last() =~= v.switchint@.subrange(0, i as int));
        apply_switch(tcx, def_id, ddg, &v.switchint[i], &mut st);
        i = i + 1;
    }
    assert(v.switchint@.subrange(0, v.switchint@.len() as int) =~= v.switchint@);
    let ghost st1 = st@;
    let mut assertions: Vec<(Constant, Vec<DefSource>)> = Vec::new();
    let mut sensitive: Vec<u32> = Vec::new();
    let ghost fv = views(v.focus@);
    let mut k: usize = 0;
    assert(assertions_view(assertions@) =~= Seq::<(Constant, Seq<DefSourceView>)>::empty());
    while k < v.focus.len()
        invariant
            k <= v.focus@.len(),
            fv == views(v.focus@),
            (st@, assertions_view(assertions@), sensitive@) == key_steps(
                *tcx,
                *body,
                *v,
                *dbg,
                fv.subrange(0, k as int),
                (st1, Seq::empty(), Seq::empty()),
            ),
        decreases v.focus@.len() - k,
    {
        assert(fv.subrange(0, k + 1).drop_last() =~= fv.subrange(0, k as int));
        assert(fv.subrange(0, k + 1).last() == v.focus@[k as int]@);
        apply_key_stmt(tcx, body, v, dbg, &v.focus[k], &mut st, &mut assertions, &mut sensitive);
        k = k + 1;
    }
    assert(fv.subrange(0, v.focus@.len() as int) =~= fv);
    assert(assertion_sources(assertions@) =~= acc_sources(assertions_view(assertions@)));
    let checked = st.checked || check_is_signer_check(tcx, assertions.as_slice());
    let ghost srcs = acc_sources(assertions_view(assertions@));
    let mut owners: Vec<u32> = Vec::new();
    let mut j: usize = 0;
    while j < sensitive.len()
        invariant
            j <= sensitive@.len(),
            srcs == assertion_sources(assertions@),
            owners@ == unchecked_owners(*tcx, sensitive@.subrange(0, j as int), srcs),
        decreases sensitive@.len() - j,
    {
        assert(sensitive@.subrange(0, j + 1).drop_last() =~= sensitive@.subrange(0, j as int));
        let sv = sensitive[j];
        if !check_account_ownership(tcx, sv, assertions.as_slice()) {
            owners.push(sv);
        }
        j = j + 1;
    }
    assert(sensitive@.subrange(0, sensitive@.len() as int) =~= sensitive@);
    AssertionSummary {
        def_id,
        is_signer_checked: checked,
        has_signer_variable: st.has_var,
        is_signer_var: st.var,
        is_signer_span: st.span,
        unchecked_owners: owners,
    }
}

/// The function items that have a body, among the first `n`.
pub open spec fn fns_with_body(tcx: Tcx, n: int) -> Seq<DefId>
    decreases n,
{
    if n <= 0 {
        Seq::empty()
    } else {
        let rest = fns_with_body(tcx, n - 1);
        if crate::mir::body_of(tcx, tcx.fn_items@[n - 1]).is_some() {
            rest.push(tcx.fn_items@[n - 1])
        } else {
            rest
        }
    }
}

/// The objects that a function's checks are summarised from: its
/// data-source graph and its call graph, each built from the body with the
/// filter of the `assert_eq!` temporaries (see `built_from`; the call graph's
/// signer flags and span are exactly what the search for signer checks over
/// the body and the functions it visits finds, see `signer_search`), the
/// visit of its body from an empty visitor that picks key statements, and
/// the places of its user variables.
pub open spec fn built_for(
    tcx: Tcx,
    body: Body,
    ddg: DataDepsGraph,
    cg: CallGraph,
    v: BodyVisitor<KeyStmt>,
    dbg: PlaceIndex,
) -> bool {
    let n = body.basic_blocks@.len() as int;
    &&& ddg.wf() && *ddg.tcx == tcx
    &&& ddg.heuristic() matches crate::dd::HeuristicFilter::NameFilter(names) && crate::conf::strings_view(names@)
        == crate::dd::spec_assert_macro_names()
    &&& place_index_contents(ddg.place_dbg_info_map) == crate::dd::dbg_map(
        body.var_debug_info@,
        body.var_debug_info@.len() as int,
    )
    &&& cg.wf() && *cg.tcx == tcx
    &&& cg.heuristic() matches crate::callgraph::HeuristicFilter::NameFilter(names) && crate::conf::strings_view(names@)
        == crate::callgraph::spec_assert_macro_names()
    &&& place_index_contents(cg.place_dbg_info_map) == crate::dd::dbg_map(
        body.var_debug_info@,
        body.var_debug_info@.len() as int,
    )
    &&& *v.tcx == tcx && v.f
    &&& crate::collections::place_locations_contents(v.defs) == crate::visit::apply_defs(
        Map::empty(),
        crate::visit::defs_before(body, n, 0),
    )
    &&& views(v.switchint@) == crate::visit::switches_before(body, n)
    &&& views(v.focus@) == crate::visit::focus_before::<KeyStmt>(tcx, body, n)
    &&& place_index_contents(dbg) == local_vars_map(body.var_debug_info@, body.var_debug_info@.len() as int)
    &&& ddg.built_from(tcx, body)
    &&& cg.ddg.built_from(tcx, body)
    &&& cg.is_signer == crate::callgraph::signer_search(tcx, cg.ddg, body).is_signer
    &&& cg.has_signer == crate::callgraph::signer_search(tcx, cg.ddg, body).has_signer
    &&& (cg.is_signer_span is Some) == crate::callgraph::signer_search(tcx, cg.ddg, body).span
    &&& crate::callgraph::body_calls_signer_try_accounts(body) ==> cg.is_signer && cg.is_signer_span is Some
    &&& cg.body_passes_signer(body) ==> cg.has_signer
}

/// The summary is that of the function it names (see `summary_is`), from
/// objects built as `built_for` says.
pub open spec fn summarised(s: AssertionSummary, tcx: Tcx) -> bool {
    match crate::mir::body_of(tcx, s.def_id) {
        Some(body) => exists|ddg: DataDepsGraph, cg: CallGraph, v: BodyVisitor<KeyStmt>, dbg: PlaceIndex|
            #[trigger] summary_is(s, tcx, s.def_id, body, ddg, cg, v, dbg) && built_for(tcx, body, ddg, cg, v, dbg),
        None => false,
    }
}

/// The checks of every function item that has a body, in item order: its
/// data-source graph and call graph are built, its body is visited for key
/// statements, and its checks are summarised (see `summarize`).
pub fn collect_all_assertions(tcx: &Tcx) -> (r: Vec<AssertionSummary>)
    ensures
        r@.map_values(|s: AssertionSummary| s.def_id) == fns_with_body(*tcx, tcx.fn_items@.len() as int),
        forall|i: int| 0 <= i < r@.len() ==> summarised(#[trigger] r@[i], *tcx),
{
    let mut res: Vec<AssertionSummary> = Vec::new();
    let mut n: usize = 0;
    while n < tcx.fn_items.len()
        invariant
            n <= tcx.fn_items@.len(),
            res@.map_values(|s: AssertionSummary| s.def_id) == fns_with_body(*tcx, n as int),
            forall|i: int| 0 <= i < res@.len() ==> summarised(#[trigger] res@[i], *tcx),
        decreases tcx.fn_items@.len() - n,
    {
        let def_id = tcx.fn_items[n];
        match tcx.optimized_mir(def_id) {
            Some(body) => {
                let mut visitor: BodyVisitor<KeyStmt> = BodyVisitor {
                    tcx,
                    f: true,
                    defs: crate::collections::PlaceLocations::new(),
                    switchint: Vec::new(),
                    focus: Vec::new(),
                };
                assert(crate::collections::place_locations_contents(visitor.defs) =~= Map::empty());
                let ddg = DataDepsGraph::new(body, tcx, crate::dd::assert_macro_filter());
                let cg_ddg = DataDepsGraph::new(body, tcx, crate::dd::assert_macro_filter());
                let cg = CallGraph::new(body, tcx, cg_ddg, crate::callgraph::assert_macro_filter());
                visitor.visit_body(body);
                let _accounts = crate::accounts::get_accounts(tcx, body);
                let dbg = get_local_vars(tcx, body);
                let summary = summarize(tcx, def_id, body, &ddg, &cg, &visitor, &dbg);
                proof {
                    let n_blocks = body.basic_blocks@.len() as int;
                    assert(views(visitor.switchint@) =~= crate::visit::switches_before(*body, n_blocks));
                    assert(views(visitor.focus@) =~= crate::visit::focus_before::<KeyStmt>(*tcx, *body, n_blocks));
                    assert(built_for(*tcx, *body, ddg, cg, visitor, dbg));
                    assert(summary_is(summary, *tcx, def_id, *body, ddg, cg, visitor, dbg));
                    assert(summarised(summary, *tcx));
                }
                let ghost before = res@;
                res.push(summary);
                assert(res@.map_values(|s: AssertionSummary| s.def_id) =~= before.map_values(|s: AssertionSummary| s.def_id).push(def_id));
            },
            None => {},
        }
        n = n + 1;
    }
    res
}

/// Removing trailing line feeds and carriage returns twice is the same as
/// once, and leaves no line feed or carriage return at the end.
pub proof fn law_trim_newline_idempotent(s: Seq<char>)
    ensures
        trim_newline_spec(trim_newline_spec(s)) == trim_newline_spec(s),
        trim_newline_spec(s).len() > 0 ==> trim_newline_spec(s).last() != '\n' && trim_newline_spec(s).last() != '\r',
        trim_newline_spec(s).len() <= s.len(),
    decreases s.len(),
{
    if s.len() > 0 && (s.last() == '\n' || s.last() == '\r') {
        law_trim_newline_idempotent(s.drop_last());
    }
}

} // verus!
