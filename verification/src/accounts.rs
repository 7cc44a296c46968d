//! The accounts that each function of an Anchor program receives through
//! its `Context<T>`: the fields of `T`, and for each field of type
//! `anchor_lang::Account<_, D>` the account data type `D`.

use vstd::prelude::*;
use petgraph::graph::DiGraph;
use crate::checkers::owner::{accounts_trait_path, get_try_account_trait, try_accounts_fns, try_accounts_list};
use crate::mir::{adt_of, def_path, ty_of, Body, DefId, Tcx, TyKind};
use crate::strs::{seq_contains, str_contains, str_eq};

verus! {

/// The account type of Anchor.
pub open spec fn spec_account_ty() -> Seq<char> {
    "anchor_lang::Account"@
}

/// The user type `T` of a `Context<T>` parameter, and for each of its
/// fields: the field's type, its name (a symbol id), and the account data
/// type when the field is an `anchor_lang::Account`.
pub struct CtxWrappedAccounts {
    pub adt_def: DefId,
    pub fields: Vec<(u32, u32, Option<DefId>)>,
}

/// The last type argument of a list, when it is an algebraic data type:
/// its definition and its own type arguments.
pub open spec fn last_generic_subst(tcx: Tcx, substs: Seq<u32>) -> Option<(DefId, Seq<u32>)> {
    if substs.len() == 0 {
        None
    } else {
        match ty_of(tcx, substs.last()) {
            Some(d) => match d.kind {
                TyKind::Adt { did, substs: s } => Some((did, s@)),
                _ => None,
            },
            None => None,
        }
    }
}

/// The last type argument of a list, when it is an algebraic data type.
fn get_last_generic_subst(tcx: &Tcx, substs: &Vec<u32>) -> (r: Option<(DefId, Vec<u32>)>)
    ensures
        match r {
            Some((d, s)) => last_generic_subst(*tcx, substs@) == Some((d, s@)),
            None => last_generic_subst(*tcx, substs@).is_none(),
        },
{
    if substs.len() == 0 {
        return None;
    }
    match tcx.ty(substs[substs.len() - 1]) {
        Some(d) => match &d.kind {
            TyKind::Adt { did, substs: s } => Some((*did, s.clone())),
            _ => None,
        },
        None => None,
    }
}

/// The account data type of a field: for a field of type
/// `anchor_lang::Account<..>`, the last type argument (none when it is not
/// an algebraic data type).
pub open spec fn field_data_ty(tcx: Tcx, field_ty: u32) -> Option<DefId> {
    match ty_of(tcx, field_ty) {
        Some(d) => match d.kind {
            TyKind::Adt { did, substs } => if def_path(tcx, did) == spec_account_ty() {
                match last_generic_subst(tcx, substs@) {
                    Some((a, _)) => Some(a),
                    None => None,
                }
            } else {
                None
            },
            _ => None,
        },
        None => None,
    }
}

/// The fields of the user type, each with its data type.
pub open spec fn account_fields(tcx: Tcx, user: DefId) -> Seq<(u32, u32, Option<DefId>)> {
    match adt_of(tcx, user) {
        Some(a) => Seq::new(
            if a.field_tys@.len() <= a.field_names@.len() { a.field_tys@.len() } else { a.field_names@.len() },
            |i: int| (a.field_tys@[i], a.field_names@[i], field_data_ty(tcx, a.field_tys@[i])),
        ),
        None => Seq::empty(),
    }
}

/// The accounts of a function: when its first parameter is a `Context<..>`
/// with five generic arguments whose last is a user type `T`, the fields of
/// `T`; otherwise none.
pub open spec fn accounts_of(tcx: Tcx, body: Body) -> Option<(DefId, Seq<(u32, u32, Option<DefId>)>)> {
    if body.arg_count >= 1 && 1 < body.local_decls@.len() {
        match ty_of(tcx, body.local_decls@[1]) {
            Some(d) => match d.kind {
                TyKind::Adt { did, substs } => if seq_contains(def_path(tcx, did), "Context"@) && substs@.len() == 5 {
                    match last_generic_subst(tcx, substs@) {
                        Some((user, _)) => Some((user, account_fields(tcx, user))),
                        None => None,
                    }
                } else {
                    None
                },
                _ => None,
            },
            None => None,
        }
    } else {
        None
    }
}

/// The accounts that a function receives through its `Context<T>` (see
/// `accounts_of`): none or one entry.
pub fn get_accounts(tcx: &Tcx, body: &Body) -> (r: Vec<CtxWrappedAccounts>)
    ensures
        match accounts_of(*tcx, *body) {
            Some((user, fields)) => r@.len() == 1 && r@[0].adt_def == user && r@[0].fields@ == fields,
            None => r@.len() == 0,
        },
{
    let mut accounts: Vec<CtxWrappedAccounts> = Vec::new();
    if body.arg_count >= 1 && 1 < body.local_decls.len() {
        match tcx.ty(body.local_decls[1]) {
            Some(d) => match &d.kind {
                TyKind::Adt { did, substs } => {
                    let path = tcx.def_path_str(*did);
                    proof {
                        reveal_strlit("Context");
                    }
                    if str_contains(path.as_str(), "Context") && substs.len() == 5 {
                        match get_last_generic_subst(tcx, substs) {
                            Some((user, _)) => {
                                let fields = get_account_fields(tcx, user);
                                accounts.push(CtxWrappedAccounts { adt_def: user, fields });
                            },
                            None => {},
                        }
                    }
                },
                _ => {},
            },
            None => {},
        }
    }
    accounts
}

/// The fields of the user type, each with its data type.
fn get_account_fields(tcx: &Tcx, user: DefId) -> (r: Vec<(u32, u32, Option<DefId>)>)
    ensures
        r@ == account_fields(*tcx, user),
{
    let mut fields: Vec<(u32, u32, Option<DefId>)> = Vec::new();
    match tcx.adt_def(user) {
        Some(a) => {
            let n = if a.field_tys.len() <= a.field_names.len() { a.field_tys.len() } else { a.field_names.len() };
            let mut i: usize = 0;
            while i < n
                invariant
                    adt_of(*tcx, user) == Some(*a),
                    n <= a.field_tys@.len(),
                    n <= a.field_names@.len(),
                    n == (if a.field_tys@.len() <= a.field_names@.len() { a.field_tys@.len() } else { a.field_names@.len() }),
                    i <= n,
                    fields@ == account_fields(*tcx, user).subrange(0, i as int),
                decreases n - i,
            {
                let field_ty = a.field_tys[i];
                let data_ty = field_data_ty_exec(tcx, field_ty);
                fields.push((field_ty, a.field_names[i], data_ty));
                assert(fields@ =~= account_fields(*tcx, user).subrange(0, i + 1));
                i = i + 1;
            }
            assert(account_fields(*tcx, user).subrange(0, n as int) =~= account_fields(*tcx, user));
        },
        None => {
            assert(fields@ =~= account_fields(*tcx, user));
        },
    }
    fields
}

/// The account data type of a field (see `field_data_ty`).
fn field_data_ty_exec(tcx: &Tcx, field_ty: u32) -> (r: Option<DefId>)
    ensures
        r == field_data_ty(*tcx, field_ty),
{
    match tcx.ty(field_ty) {
        Some(d) => match &d.kind {
            TyKind::Adt { did, substs } => {
                let path = tcx.def_path_str(*did);
                proof {
                    reveal_strlit("anchor_lang::Account");
                }
                if str_eq(path.as_str(), "anchor_lang::Account") {
                    match get_last_generic_subst(tcx, substs) {
                        Some((a, _)) => Some(a),
                        None => None,
                    }
                } else {
                    None
                }
            },
            _ => None,
        },
        None => None,
    }
}

/// The functions among `fs` that have a body, in order.
pub open spec fn with_body(tcx: Tcx, fs: Seq<DefId>) -> Seq<DefId>
    decreases fs.len(),
{
    if fs.len() == 0 {
        Seq::empty()
    } else {
        let rest = with_body(tcx, fs.drop_last());
        if crate::mir::body_of(tcx, fs.last()).is_some() {
            rest.push(fs.last())
        } else {
            rest
        }
    }
}

/// The functions from whose bodies the constraints on the accounts of
/// `adt` are read: the `try_accounts` functions of its implementations of
/// `anchor_lang::Accounts` (the last trait of that path that the crate
/// knows) that have a body.
pub open spec fn impls_for(tcx: Tcx, adt: DefId) -> Seq<DefId> {
    match last_accounts_trait(tcx) {
        Some(t) => with_body(tcx, try_accounts_list(tcx, t, adt, tcx.trait_impls@.len() as int)),
        None => Seq::empty(),
    }
}

/// The last trait of the crate whose path is `anchor_lang::Accounts`.
pub open spec fn last_accounts_trait(tcx: Tcx) -> Option<DefId> {
    if exists|i: int| 0 <= i < tcx.all_traits@.len() && def_path(tcx, #[trigger] tcx.all_traits@[i]) == accounts_trait_path() {
        let i = choose|i: int| 0 <= i < tcx.all_traits@.len() && def_path(tcx, #[trigger] tcx.all_traits@[i])
            == accounts_trait_path() && forall|j: int| i < j < tcx.all_traits@.len() ==> def_path(tcx, #[trigger] tcx.all_traits@[j])
            != accounts_trait_path();
        Some(tcx.all_traits@[i])
    } else {
        None
    }
}

/// The last trait of the path `anchor_lang::Accounts` is the one at `i`
/// when no later trait has that path.
pub proof fn lemma_last_accounts_trait(tcx: Tcx, i: int)
    requires
        0 <= i < tcx.all_traits@.len(),
        def_path(tcx, tcx.all_traits@[i]) == accounts_trait_path(),
        forall|j: int| i < j < tcx.all_traits@.len() ==> def_path(tcx, #[trigger] tcx.all_traits@[j]) != accounts_trait_path(),
    ensures
        last_accounts_trait(tcx) == Some(tcx.all_traits@[i]),
{
    let k = choose|k: int| 0 <= k < tcx.all_traits@.len() && def_path(tcx, #[trigger] tcx.all_traits@[k])
        == accounts_trait_path() && forall|j: int| k < j < tcx.all_traits@.len() ==> def_path(tcx, #[trigger] tcx.all_traits@[j])
        != accounts_trait_path();
    if k < i {
        assert(def_path(tcx, tcx.all_traits@[i]) != accounts_trait_path());
    } else if k > i {
        assert(def_path(tcx, tcx.all_traits@[k]) != accounts_trait_path());
    }
}

/// The bodies from which the constraints on the accounts of `adt` are
/// read (see `impls_for`).
pub fn find_impls_for(tcx: &Tcx, adt: DefId) -> (r: Vec<DefId>)
    ensures
        r@ == impls_for(*tcx, adt),
        forall|i: int| 0 <= i < r@.len() ==> crate::mir::body_of(*tcx, #[trigger] r@[i]).is_some(),
{
    let mut r: Vec<DefId> = Vec::new();
    match get_try_account_trait(tcx) {
        Some(t) => {
            proof {
                let i = choose|i: int| 0 <= i < tcx.all_traits@.len() && tcx.all_traits@[i] == t && forall|j: int|
                    i < j < tcx.all_traits@.len() ==> def_path(*tcx, #[trigger] tcx.all_traits@[j]) != accounts_trait_path();
                lemma_last_accounts_trait(*tcx, i);
            }
            let fns = try_accounts_fns(tcx, t, adt);
            let mut i: usize = 0;
            while i < fns.len()
                invariant
                    i <= fns@.len(),
                    r@ == with_body(*tcx, fns@.subrange(0, i as int)),
                    forall|k: int| 0 <= k < r@.len() ==> crate::mir::body_of(*tcx, #[trigger] r@[k]).is_some(),
                decreases fns@.len() - i,
            {
                assert(fns@.subrange(0, i + 1).drop_last() =~= fns@.subrange(0, i as int));
                if tcx.optimized_mir(fns[i]).is_some() {
                    r.push(fns[i]);
                }
                i = i + 1;
            }
            assert(fns@.subrange(0, fns@.len() as int) =~= fns@);
        },
        None => {
            assert(!exists|i: int| 0 <= i < tcx.all_traits@.len() && def_path(*tcx, #[trigger] tcx.all_traits@[i])
                == accounts_trait_path());
        },
    }
    r
}

/// The role of an account in a function.
pub enum AccountRole {
    Onwer(u32, Option<DefId>),
    Signer(u32, Option<DefId>),
    Sender(Vec<(u32, Option<DefId>)>),
    Receiver(Vec<(u32, Option<DefId>)>),
}

/// The nodes of a graph of account roles.
pub uninterp spec fn account_graph_nodes(g: DiGraph<AccountRole, ()>) -> Seq<AccountRole>;

/// `DiGraph::new`: an empty graph of account roles.
#[verifier::external_body]
fn account_graph_new() -> (g: DiGraph<AccountRole, ()>)
    ensures
        account_graph_nodes(g).len() == 0,
{
    DiGraph::new()
}

/// How the accounts of a function relate: a graph of their roles.
pub struct AccountsModel {
    pub g: DiGraph<AccountRole, ()>,
}

impl AccountsModel {
    /// The model of the accounts of one function; no role is recorded yet.
    pub fn build(tcx: &Tcx, account_def: CtxWrappedAccounts) -> (r: Self)
        ensures
            account_graph_nodes(r.g).len() == 0,
    {
        AccountsModel { g: account_graph_new() }
    }
}

} // verus!
