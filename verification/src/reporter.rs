//! The report of all findings.

use vstd::prelude::*;
use crate::conf::{contains_any, contains_any_exec, strings_view};
use crate::mir::{body_of, def_path, DefId, Tcx};
use crate::source_info::{get_diagnostic, spec_diagnostic};
use crate::strs::{
    remove_quotes, remove_quotes_exec, seq_contains, split_last, split_last_str, str_contains,
    str_eq,
};

verus! {

#[derive(Debug, Clone, Copy, PartialEq, Eq, Structural)]
pub enum IntegerCveType {
    Underflow,
    Overflow,
    DivByZero,
}

#[allow(non_camel_case_types)]
#[derive(Debug, Clone, Copy, PartialEq, Eq, Structural)]
pub enum MissingCheckerCveType {
    is_signer,
    is_owner,
    wormhole,
}

#[derive(Debug, Clone, Copy, PartialEq, Eq, Structural)]
pub enum SplVersionType {
    DecrepitedVersion,
}

#[derive(Debug, Clone, Copy, PartialEq, Eq, Structural)]
pub enum VulnerabilityType {
    IntegerFlow,
    MissingSignerCheck,
    MissingOwnerCheck,
    TypeConfusion,
    CrossProgramInvocation,
    Precision,
    BumpSeed,
    StakingValidator,
    MissingKeyCheck,
}

/// One finding.
#[derive(Debug, Clone)]
pub struct Vulnerability {
    pub id: String,
    pub category: VulnerabilityType,
    pub severity: String,
    /// The function that contains the vulnerable code.
    pub location: String,
    pub code: String,
    pub context: String,
    /// The call stack that leads to the finding.
    pub callstack: String,
    pub status: String,
    /// Error message.
    pub msg: String,
    pub link: String,
    pub alleviation: String,
}

/// All findings, with counters and the call stack filter.
#[derive(Debug)]
pub struct Report {
    pub id: Option<String>,
    pub user: Option<String>,
    /// Target project being analyzed.
    pub proj: Option<String>,
    pub gitloc: Option<String>,
    /// Time of the report.
    pub time: Option<String>,
    pub int_cnt: usize,
    pub chk_cnt: usize,
    pub typ_cnt: usize,
    pub oth_cnt: usize,
    pub total: usize,
    /// The call stack signatures seen since the last reset.
    pub filtered: Vec<String>,
    /// Whether the last call stack signature had been seen before.
    pub filter_result: bool,
    /// Whether the last call stack passed through a blacklisted function.
    pub blacklist: bool,
    pub vulns_map: Vec<Vulnerability>,
    /// The code of every finding recorded (each once).
    pub vulns_code: Vec<String>,
}

// ---------------------------------------------------------------------------
// Decimal numbers
// ---------------------------------------------------------------------------

/// The decimal digit `d`.
pub open spec fn digit_char(d: nat) -> char {
    seq!['0', '1', '2', '3', '4', '5', '6', '7', '8', '9'][d as int]
}

/// The decimal representation of `n`.
pub open spec fn decimal(n: nat) -> Seq<char>
    decreases n,
{
    if n < 10 {
        seq![digit_char(n)]
    } else {
        decimal(n / 10).push(digit_char(n % 10))
    }
}

/// The decimal digit `d`.
fn digit_string(d: usize) -> (r: String)
    requires
        d < 10,
    ensures
        r@ == seq![digit_char(d as nat)],
{
    let s = match d {
        0 => "0",
        1 => "1",
        2 => "2",
        3 => "3",
        4 => "4",
        5 => "5",
        6 => "6",
        7 => "7",
        8 => "8",
        _ => "9",
    };
    proof {
        reveal_strlit("0");
        reveal_strlit("1");
        reveal_strlit("2");
        reveal_strlit("3");
        reveal_strlit("4");
        reveal_strlit("5");
        reveal_strlit("6");
        reveal_strlit("7");
        reveal_strlit("8");
        reveal_strlit("9");
    }
    String::from_str(s)
}

/// `n.to_string()`.
pub fn usize_to_string(n: usize) -> (r: String)
    ensures
        r@ == decimal(n as nat),
    decreases n,
{
    if n < 10 {
        digit_string(n)
    } else {
        let mut s = usize_to_string(n / 10);
        let d = digit_string(n % 10);
        s.append(d.as_str());
        s
    }
}

// ---------------------------------------------------------------------------
// Specifications
// ---------------------------------------------------------------------------

/// The functions whose findings are suppressed when they are on the call stack.
pub open spec fn spec_blacklist_func() -> Seq<Seq<char>> {
    seq![
        "clone"@,
        "from_account_info"@,
        "invoke_signed"@,
        "data_len"@,
        "data_is_empty"@,
        "__idl_create_account"@,
        "solana_program::sysvar::instructions::deserialize_instruction"@,
        "overflowing_mul"@,
    ]
}

/// Whether a category of finding is recorded once per code location.
pub open spec fn dedup_category(c: VulnerabilityType) -> bool {
    c == VulnerabilityType::IntegerFlow || c == VulnerabilityType::MissingKeyCheck
}

/// The counters are consistent with the findings, and no code location is
/// recorded twice.
pub open spec fn report_wf(r: Report) -> bool {
    &&& r.int_cnt + r.chk_cnt + r.typ_cnt + r.oth_cnt == r.total
    &&& r.vulns_map@.len() == r.total
    &&& strings_view(r.vulns_code@).no_duplicates()
}

/// `b` is `a` with findings added: the report's identity, project and time
/// are kept, every finding of `a` stays at its place, and the counters of `b`
/// agree with its findings.
pub open spec fn report_grows(a: Report, b: Report) -> bool {
    &&& report_wf(b)
    &&& b.id == a.id && b.user == a.user && b.proj == a.proj && b.gitloc == a.gitloc && b.time == a.time
    &&& a.vulns_map@.len() <= b.vulns_map@.len()
    &&& forall|i: int| 0 <= i < a.vulns_map@.len() ==> #[trigger] b.vulns_map@[i] == a.vulns_map@[i]
}

/// The fields of a finding.
pub open spec fn vuln_is(
    v: Vulnerability,
    id: Seq<char>,
    category: VulnerabilityType,
    severity: Seq<char>,
    func: Seq<char>,
    code: Seq<char>,
    context: Seq<char>,
    callstack: Seq<char>,
    status: Seq<char>,
    link: Seq<char>,
    msg: Seq<char>,
    alleviation: Seq<char>,
) -> bool {
    &&& v.id@ == id
    &&& v.category == category
    &&& v.severity@ == severity
    &&& v.location@ == func
    &&& v.code@ == code
    &&& v.context@ == context
    &&& v.callstack@ == callstack
    &&& v.status@ == status
    &&& v.link@ == link
    &&& v.msg@ == msg
    &&& v.alleviation@ == alleviation
}

/// The parts of a report that do not change when a finding is added.
pub open spec fn same_settings(a: Report, b: Report) -> bool {
    &&& a.id == b.id
    &&& a.user == b.user
    &&& a.proj == b.proj
    &&& a.gitloc == b.gitloc
    &&& a.time == b.time
    &&& a.filtered == b.filtered
    &&& a.filter_result == b.filter_result
    &&& a.blacklist == b.blacklist
}

/// The counters after one more finding of the category.
pub open spec fn counted(a: Report, b: Report, category: VulnerabilityType) -> bool {
    &&& b.int_cnt == a.int_cnt + (if category == VulnerabilityType::IntegerFlow { 1int } else { 0 })
    &&& b.typ_cnt == a.typ_cnt + (if category == VulnerabilityType::TypeConfusion { 1int } else { 0 })
    &&& b.chk_cnt == a.chk_cnt + (if category == VulnerabilityType::MissingKeyCheck { 1int } else { 0 })
    &&& b.oth_cnt == a.oth_cnt + (if category != VulnerabilityType::IntegerFlow && category
        != VulnerabilityType::TypeConfusion && category != VulnerabilityType::MissingKeyCheck {
        1int
    } else {
        0
    })
    &&& b.total == a.total + 1
}

/// The effect of recording a finding: `b` is `a` with the finding added,
/// unless its code was seen before and its category is recorded once per code.
pub open spec fn bug_recorded(
    a: Report,
    b: Report,
    category: VulnerabilityType,
    severity: Seq<char>,
    func: Seq<char>,
    code: Seq<char>,
    context: Seq<char>,
    callstack: Seq<char>,
    status: Seq<char>,
    link: Seq<char>,
    msg: Seq<char>,
    alleviation: Seq<char>,
) -> bool {
    let seen = strings_view(a.vulns_code@).contains(code);
    &&& same_settings(a, b)
    &&& strings_view(b.vulns_code@) == (if seen {
        strings_view(a.vulns_code@)
    } else {
        strings_view(a.vulns_code@).push(code)
    })
    &&& if a.total == usize::MAX || (seen && dedup_category(category)) {
        &&& b.vulns_map@ == a.vulns_map@
        &&& b.int_cnt == a.int_cnt
        &&& b.chk_cnt == a.chk_cnt
        &&& b.typ_cnt == a.typ_cnt
        &&& b.oth_cnt == a.oth_cnt
        &&& b.total == a.total
    } else {
        &&& counted(a, b, category)
        &&& b.vulns_map@.len() == a.vulns_map@.len() + 1
        &&& b.vulns_map@.drop_last() == a.vulns_map@
        &&& vuln_is(
            b.vulns_map@.last(),
            decimal(a.total as nat),
            category,
            severity,
            func,
            code,
            context,
            callstack,
            status,
            link,
            msg,
            alleviation,
        )
    }
}

/// The effect of `filter_callstack(s)`: the flag says whether `s` was seen,
/// and `s` is remembered.
pub open spec fn callstack_filtered(a: Report, b: Report, s: Seq<char>) -> bool {
    let seen = strings_view(a.filtered@).contains(s);
    &&& b.filter_result == seen
    &&& strings_view(b.filtered@) == (if seen {
        strings_view(a.filtered@)
    } else {
        strings_view(a.filtered@).push(s)
    })
    &&& b.id == a.id && b.user == a.user && b.proj == a.proj && b.gitloc == a.gitloc
    &&& b.time == a.time && b.blacklist == a.blacklist
    &&& b.int_cnt == a.int_cnt && b.chk_cnt == a.chk_cnt && b.typ_cnt == a.typ_cnt
    &&& b.oth_cnt == a.oth_cnt && b.total == a.total
    &&& b.vulns_map == a.vulns_map && b.vulns_code == a.vulns_code
}

/// The debug rendering (`{:#?}`) of a string, as the formatter writes it.
pub uninterp spec fn debug_string(s: Seq<char>) -> Seq<char>;

/// A character that the debug rendering of a string writes unchanged.
pub open spec fn plain_char(c: char) -> bool {
    ' ' <= c <= '~' && c != '\\' && c != '"' && c != '\''
}

/// `format!("{:#?}", s)`: the debug rendering of a string. For a string of
/// printable ASCII characters other than backslash and quotes, the rendering
/// is the string in double quotes; other characters are escaped, which is not
/// stated.
#[verifier::external_body]
pub(crate) fn format_debug(s: &str) -> (r: String)
    ensures
        r@ == debug_string(s@),
        (forall|i: int| 0 <= i < s@.len() ==> plain_char(#[trigger] s@[i])) ==> r@ == seq!['"']
            + s@ + seq!['"'],
{
    format!("{:#?}", s)
}

/// The name of a function as the call stack shows it.
pub open spec fn frame_name(tcx: Tcx, d: DefId) -> Seq<char> {
    remove_quotes(debug_string(def_path(tcx, d)))
}

/// The location of a function's body (empty when it has no body).
pub open spec fn frame_loc(tcx: Tcx, d: DefId) -> Seq<char> {
    match body_of(tcx, d) {
        Some(b) => spec_diagnostic(tcx, b.span),
        None => Seq::empty(),
    }
}

/// `n` tabs.
pub open spec fn tabs(n: nat) -> Seq<char> {
    Seq::new(n, |i: int| '\t')
}

/// The text of frame number `i` of a call stack.
pub open spec fn frame_text(tcx: Tcx, d: DefId, i: nat) -> Seq<char> {
    tabs(i % 7) + "fn "@ + frame_name(tcx, d) + "(){"@ + "// "@ + frame_loc(tcx, d) + " }\n"@
}

/// The text of the first `n` frames.
pub open spec fn callstack_text(tcx: Tcx, stack: Seq<DefId>, n: nat) -> Seq<char>
    decreases n,
{
    if n == 0 {
        Seq::empty()
    } else {
        callstack_text(tcx, stack, (n - 1) as nat) + frame_text(
            tcx,
            stack[n - 1],
            (n - 1) as nat,
        )
    }
}

/// The short name of a frame: the last piece of its path.
pub open spec fn frame_short(tcx: Tcx, d: DefId) -> Seq<char> {
    split_last(frame_name(tcx, d), "::"@)
}

/// Whether a frame is left out of the call stack signature.
pub open spec fn frame_skipped(tcx: Tcx, d: DefId) -> bool {
    seq_contains(frame_short(tcx, d), "try_borrow_mut_data"@) || seq_contains(
        frame_short(tcx, d),
        "try_borrow_data"@,
    )
}

/// The call stack signature of the first `n` frames.
pub open spec fn callstack_signature(tcx: Tcx, stack: Seq<DefId>, n: nat) -> Seq<char>
    decreases n,
{
    if n == 0 {
        Seq::empty()
    } else {
        callstack_signature(tcx, stack, (n - 1) as nat) + if frame_skipped(tcx, stack[n - 1]) {
            Seq::empty()
        } else {
            "--"@ + frame_short(tcx, stack[n - 1])
        }
    }
}

/// Whether one of the frames is a blacklisted function.
pub open spec fn callstack_blacklisted(tcx: Tcx, stack: Seq<DefId>) -> bool {
    exists|i: int| 0 <= i < stack.len() && contains_any(frame_name(tcx, stack[i]), spec_blacklist_func())
}

/// The effect of formatting a call stack on the report.
pub open spec fn callstack_formatted(a: Report, b: Report, tcx: Tcx, stack: Seq<DefId>) -> bool {
    let mid = Report { blacklist: callstack_blacklisted(tcx, stack), ..a };
    callstack_filtered(mid, b, callstack_signature(tcx, stack, stack.len()))
}

// ---------------------------------------------------------------------------
// Operations
// ---------------------------------------------------------------------------

/// Whether the list holds the string.
fn contains_string(list: &Vec<String>, s: &String) -> (r: bool)
    ensures
        r == strings_view(list@).contains(s@),
{
    let mut i: usize = 0;
    while i < list.len()
        invariant
            i <= list@.len(),
            forall|k: int| 0 <= k < i ==> list@[k]@ != s@,
        decreases list@.len() - i,
    {
        if str_eq(list[i].as_str(), s.as_str()) {
            assert(strings_view(list@)[i as int] == s@);
            return true;
        }
        i = i + 1;
    }
    assert forall|k: int| 0 <= k < strings_view(list@).len() implies strings_view(list@)[k] != s@ by {
        assert(strings_view(list@)[k] == list@[k]@);
    }
    false
}

impl Report {
    /// An empty report made at the given time.
    pub fn new(time: Option<String>) -> (r: Report)
        ensures
            report_wf(r),
            r.id.is_some() && r.id.unwrap()@ == "VRust"@,
            r.time == time,
            r.total == 0,
            r.filtered@.len() == 0,
            !r.filter_result,
            !r.blacklist,
            r.vulns_code@.len() == 0,
    {
        proof {
            reveal_strlit("VRust");
        }
        Report {
            id: Some(String::from_str("VRust")),
            user: Some(String::from_str("O2Lab VRust Team")),
            proj: Some(String::from_str("VRust")),
            gitloc: Some(String::from_str("https://github.com/parasol-aser/vrust")),
            filtered: Vec::new(),
            filter_result: false,
            blacklist: false,
            vulns_map: Vec::new(),
            time,
            int_cnt: 0,
            chk_cnt: 0,
            typ_cnt: 0,
            oth_cnt: 0,
            total: 0,
            vulns_code: Vec::new(),
        }
    }

    /// Records a finding. A finding of a category that is recorded once per
    /// code location is dropped when its code was recorded before. When the
    /// counter is at its maximum, nothing is recorded.
    pub fn new_bug(
        &mut self,
        category: VulnerabilityType,
        severity: String,
        func: String,
        code: String,
        context: String,
        callstack: String,
        status: String,
        link: Option<String>,
        msg: Option<String>,
        alleviation: Option<String>,
    )
        requires
            report_wf(*old(self)),
        ensures
            report_wf(*final(self)),
            report_grows(*old(self), *final(self)),
            bug_recorded(
                *old(self),
                *final(self),
                category,
                severity@,
                func@,
                code@,
                context@,
                callstack@,
                status@,
                match link { Some(s) => s@, None => Seq::empty() },
                match msg { Some(s) => s@, None => Seq::empty() },
                match alleviation { Some(s) => s@, None => Seq::empty() },
            ),
    {
        let seen = contains_string(&self.vulns_code, &code);
        if !seen {
            self.vulns_code.push(code.clone());
            proof {
                assert(strings_view(self.vulns_code@) =~= strings_view(old(self).vulns_code@).push(
                    code@,
                ));
            }
        }
        if self.total == usize::MAX {
            return;
        }
        if seen {
            match category {
                VulnerabilityType::IntegerFlow | VulnerabilityType::MissingKeyCheck => return,
                _ => {},
            }
        }
        let vuln = Vulnerability {
            id: usize_to_string(self.total),
            category,
            severity,
            location: func,
            code,
            context,
            callstack,
            status,
            msg: match msg {
                Some(s) => s,
                None => String::new(),
            },
            link: match link {
                Some(s) => s,
                None => String::new(),
            },
            alleviation: match alleviation {
                Some(s) => s,
                None => String::new(),
            },
        };
        match category {
            VulnerabilityType::IntegerFlow => {
                self.int_cnt = self.int_cnt + 1;
            },
            VulnerabilityType::TypeConfusion => {
                self.typ_cnt = self.typ_cnt + 1;
            },
            VulnerabilityType::MissingKeyCheck => {
                self.chk_cnt = self.chk_cnt + 1;
            },
            _ => {
                self.oth_cnt = self.oth_cnt + 1;
            },
        }
        self.vulns_map.push(vuln);
        self.total = self.total + 1;
        proof {
            assert(self.vulns_map@.drop_last() =~= old(self).vulns_map@);
        }
    }

    /// Sets the analysed project's name.
    pub fn set_proj(&mut self, proj: String)
        ensures
            final(self).proj == Some(proj),
            *final(self) == (Report { proj: Some(proj), ..*old(self) }),
    {
        self.proj = Some(proj);
    }

    /// Forgets every call stack signature.
    pub fn reset_filter(&mut self)
        ensures
            final(self).filtered@.len() == 0,
            *final(self) == (Report { filtered: final(self).filtered, ..*old(self) }),
            report_wf(*old(self)) ==> report_grows(*old(self), *final(self)),
    {
        self.filtered = Vec::new();
    }

    /// Records a call stack signature; the filter flag tells whether it was
    /// recorded before.
    pub fn filter_callstack(&mut self, s: String)
        ensures
            callstack_filtered(*old(self), *final(self), s@),
            report_wf(*old(self)) ==> report_grows(*old(self), *final(self)),
    {
        self.filter_result = false;
        if contains_string(&self.filtered, &s) {
            self.filter_result = true;
        } else {
            self.filtered.push(s);
            proof {
                assert(strings_view(self.filtered@) =~= strings_view(old(self).filtered@).push(s@));
            }
        }
    }

    /// Whether the last call stack signature was seen before.
    pub fn get_filtered(&self) -> (r: bool)
        ensures
            r == self.filter_result,
    {
        self.filter_result
    }

    /// Whether the last call stack passed through a blacklisted function.
    pub fn get_blacklist(&self) -> (r: bool)
        ensures
            r == self.blacklist,
    {
        self.blacklist
    }

    /// The functions whose findings are suppressed when they are on the call stack.
    pub fn get_blacklist_func() -> (r: Vec<String>)
        ensures
            strings_view(r@) == spec_blacklist_func(),
    {
        let r = vec![
            String::from_str("clone"),
            String::from_str("from_account_info"),
            String::from_str("invoke_signed"),
            String::from_str("data_len"),
            String::from_str("data_is_empty"),
            String::from_str("__idl_create_account"),
            String::from_str("solana_program::sysvar::instructions::deserialize_instruction"),
            String::from_str("overflowing_mul"),
        ];
        proof {
            reveal_strlit("clone");
            reveal_strlit("from_account_info");
            reveal_strlit("invoke_signed");
            reveal_strlit("data_len");
            reveal_strlit("data_is_empty");
            reveal_strlit("__idl_create_account");
            reveal_strlit("solana_program::sysvar::instructions::deserialize_instruction");
            reveal_strlit("overflowing_mul");
            assert(strings_view(r@) =~= spec_blacklist_func());
        }
        r
    }

    /// Whether the name contains one of the blacklisted function names.
    pub fn in_blacklist(var_name: String) -> (r: bool)
        ensures
            r == contains_any(var_name@, spec_blacklist_func()),
    {
        let names = Report::get_blacklist_func();
        contains_any_exec(&var_name, &names)
    }

    /// Formats a call stack, one indented line per frame. As a side effect it
    /// records whether a frame is blacklisted and filters the call stack's
    /// signature (the short names of its frames).
    pub fn call_stack_formatter(&mut self, tcx: &Tcx, all_def_id: &[DefId]) -> (r: String)
        ensures
            r@ == callstack_text(*tcx, all_def_id@, all_def_id@.len()),
            callstack_formatted(*old(self), *final(self), *tcx, all_def_id@),
            report_wf(*old(self)) ==> report_grows(*old(self), *final(self)),
    {
        let mut callstack = String::new();
        let mut call_stack_filter = String::new();
        let mut blacklisted = false;
        let mut incident: usize = 0;
        let mut k: usize = 0;
        proof {
            reveal_strlit("fn ");
            reveal_strlit("(){");
            reveal_strlit("// ");
            reveal_strlit(" }\n");
            reveal_strlit("--");
            reveal_strlit("::");
            reveal_strlit("try_borrow_mut_data");
            reveal_strlit("try_borrow_data");
        }
        while k < all_def_id.len()
            invariant
                k <= all_def_id@.len(),
                incident == k % 7,
                callstack@ == callstack_text(*tcx, all_def_id@, k as nat),
                call_stack_filter@ == callstack_signature(*tcx, all_def_id@, k as nat),
                blacklisted == exists|i: int|
                    0 <= i < k && contains_any(
                        frame_name(*tcx, all_def_id@[i]),
                        spec_blacklist_func(),
                    ),
            decreases all_def_id@.len() - k,
        {
            let def_id = all_def_id[k];
            let ghost pre = callstack@;
            let mut t: usize = 0;
            while t < incident
                invariant
                    t <= incident,
                    callstack@ == pre + tabs(t as nat),
                decreases incident - t,
            {
                callstack.append("\t");
                proof {
                    reveal_strlit("\t");
                    assert(pre + tabs((t + 1) as nat) =~= pre + tabs(t as nat) + "\t"@);
                }
                t = t + 1;
            }
            incident = incident + 1;
            if incident > 6 {
                incident = 0;
            }
            let loc_info = match tcx.optimized_mir(def_id) {
                Some(body) => get_diagnostic(tcx, body.span),
                None => String::new(),
            };
            let path = tcx.def_path_str(def_id);
            let quoted = format_debug(path.as_str());
            let function_name = remove_quotes_exec(quoted.as_str());
            callstack.append("fn ");
            callstack.append(function_name.as_str());
            callstack.append("(){");
            callstack.append("// ");
            callstack.append(loc_info.as_str());
            callstack.append(" }\n");
            proof {
                assert(callstack@ =~= callstack_text(*tcx, all_def_id@, (k + 1) as nat));
            }
            if Report::in_blacklist(function_name.clone()) {
                blacklisted = true;
            }
            let short = if str_contains(function_name.as_str(), "::") {
                split_last_str(function_name.as_str(), "::")
            } else {
                proof {
                    lemma_split_last_absent(function_name@, "::"@);
                }
                function_name
            };
            if str_contains(short.as_str(), "try_borrow_mut_data") || str_contains(
                short.as_str(),
                "try_borrow_data",
            ) {
                proof {
                    assert(callstack_signature(*tcx, all_def_id@, (k + 1) as nat)
                        =~= call_stack_filter@);
                }
            } else {
                call_stack_filter.append("--");
                call_stack_filter.append(short.as_str());
                proof {
                    assert(call_stack_filter@ =~= callstack_signature(
                        *tcx,
                        all_def_id@,
                        (k + 1) as nat,
                    ));
                }
            }
            k = k + 1;
        }
        self.blacklist = blacklisted;
        self.filter_callstack(call_stack_filter);
        callstack
    }
}

/// The text of the first `n` spans of a stack: span number `i` on a line of
/// its own, after `i` tabs, as its source lines (nothing for an unknown span).
pub open spec fn span_stack_text(tcx: Tcx, spans: Seq<u32>, n: nat) -> Seq<char>
    decreases n,
{
    if n == 0 {
        Seq::empty()
    } else {
        span_stack_text(tcx, spans, (n - 1) as nat) + tabs((n - 1) as nat) + crate::source_info::or_empty(
            crate::source_info::spec_source_lines(tcx, spans[n - 1]),
        ) + "\n"@
    }
}

impl Report {
    /// Formats a stack of spans, one indented line each: span number `i`
    /// after `i` tabs, as its source lines.
    pub fn call_stack_formatter_span(tcx: &Tcx, all_span: &[u32]) -> (r: String)
        ensures
            r@ == span_stack_text(*tcx, all_span@, all_span@.len()),
    {
        let mut callstack = String::new();
        let mut k: usize = 0;
        while k < all_span.len()
            invariant
                k <= all_span@.len(),
                callstack@ == span_stack_text(*tcx, all_span@, k as nat),
            decreases all_span@.len() - k,
        {
            let ghost pre = callstack@;
            let mut t: usize = 0;
            while t < k
                invariant
                    t <= k,
                    callstack@ == pre + tabs(t as nat),
                decreases k - t,
            {
                callstack.append("\t");
                proof {
                    reveal_strlit("\t");
                    assert(pre + tabs((t + 1) as nat) =~= pre + tabs(t as nat) + "\t"@);
                }
                t = t + 1;
            }
            let lines = crate::source_info::unwrap_or_empty(crate::source_info::get_source_lines(tcx, all_span[k]));
            callstack.append(lines.as_str());
            callstack.append("\n");
            proof {
                reveal_strlit("\n");
                assert(lines@ == crate::source_info::or_empty(
                    crate::source_info::spec_source_lines(*tcx, all_span@[k as int]),
                ));
                assert(callstack@ =~= span_stack_text(*tcx, all_span@, (k + 1) as nat));
            }
            k = k + 1;
        }
        callstack
    }
}

/// Without an occurrence of the separator, the last piece is the whole string.
pub proof fn lemma_split_last_absent(s: Seq<char>, p: Seq<char>)
    requires
        !seq_contains(s, p),
    ensures
        split_last(s, p) == s,
{
    crate::strs::lemma_find_from(s, p, 0);
    match crate::strs::find_from(s, p, 0) {
        Some(j) => {
            assert(crate::strs::occurs_at(s, p, j));
        },
        None => {},
    }
    assert(s.subrange(0, s.len() as int) =~= s);
}

/// Every finding's id is its position among the findings, in decimal.
pub open spec fn ids_are_positions(r: Report) -> bool {
    forall|i: int| 0 <= i < r.vulns_map@.len() ==> (#[trigger] r.vulns_map@[i]).id@ == decimal(i as nat)
}

/// Findings are numbered in the order they are recorded: recording a finding
/// keeps each finding's id equal to its position.
pub proof fn law_ids_are_positions(
    a: Report,
    b: Report,
    category: VulnerabilityType,
    severity: Seq<char>,
    func: Seq<char>,
    code: Seq<char>,
    context: Seq<char>,
    callstack: Seq<char>,
    status: Seq<char>,
    link: Seq<char>,
    msg: Seq<char>,
    alleviation: Seq<char>,
)
    requires
        report_wf(a),
        ids_are_positions(a),
        bug_recorded(a, b, category, severity, func, code, context, callstack, status, link, msg, alleviation),
    ensures
        ids_are_positions(b),
{
    assert forall|i: int| 0 <= i < b.vulns_map@.len() implies (#[trigger] b.vulns_map@[i]).id@ == decimal(i as nat) by {
        if i < a.vulns_map@.len() && b.vulns_map@.len() == a.vulns_map@.len() + 1 {
            assert(b.vulns_map@.drop_last()[i] == b.vulns_map@[i]);
        }
    }
}

/// Growth of the report composes: what two successive steps keep, both
/// together keep. A consistent report grows into itself.
pub proof fn law_report_grows_compose(a: Report, b: Report, c: Report)
    requires
        report_grows(a, b),
        report_grows(b, c),
    ensures
        report_grows(a, c),
{
}

/// A consistent report grows into itself.
pub proof fn law_report_grows_reflexive(a: Report)
    requires
        report_wf(a),
    ensures
        report_grows(a, a),
{
}

/// A finding of a category recorded once per code (integer flow, missing
/// key check) is recorded once: recording it again with the same code
/// leaves the findings and the counters as they are.
pub proof fn law_dedup_findings(
    a: Report,
    b: Report,
    c: Report,
    category: VulnerabilityType,
    severity: Seq<char>,
    func: Seq<char>,
    code: Seq<char>,
    context: Seq<char>,
    callstack: Seq<char>,
    status: Seq<char>,
    link: Seq<char>,
    msg: Seq<char>,
    alleviation: Seq<char>,
)
    requires
        dedup_category(category),
        bug_recorded(a, b, category, severity, func, code, context, callstack, status, link, msg, alleviation),
        bug_recorded(b, c, category, severity, func, code, context, callstack, status, link, msg, alleviation),
    ensures
        c.vulns_map@ == b.vulns_map@,
        c.total == b.total,
        c.int_cnt == b.int_cnt && c.chk_cnt == b.chk_cnt && c.typ_cnt == b.typ_cnt && c.oth_cnt == b.oth_cnt,
{
    if !strings_view(a.vulns_code@).contains(code) {
        assert(strings_view(b.vulns_code@).last() == code);
        assert(strings_view(b.vulns_code@).contains(code));
    }
}

/// A call stack signature is filtered the second time it is seen: after
/// recording it once, recording it again reports it as seen and keeps the
/// recorded signatures.
pub proof fn law_callstack_seen_twice(a: Report, b: Report, c: Report, s: Seq<char>)
    requires
        callstack_filtered(a, b, s),
        callstack_filtered(b, c, s),
    ensures
        c.filter_result,
        strings_view(c.filtered@) == strings_view(b.filtered@),
{
    if !strings_view(a.filtered@).contains(s) {
        assert(strings_view(b.filtered@).last() == s);
        assert(strings_view(b.filtered@).contains(s));
    }
}

} // verus!
