//! Dispatch: from a request to the register it is for. A request is matched
//! against the table of registers by its path, then held against the
//! register's access rights, its type and its privilege level, in this order.

use vstd::prelude::*;
use crate::priv_lvl::PrivLvl;
use crate::protocol::{AnswerCode, RequestCode};
use crate::schema::{regs_view, registers, DslTree, MetaDesc, Register, RegisterView, TreeView};
use crate::text::{join, join_strings, str_eq};
use crate::ty::{TypeTag, Value, ValueView};

verus! {

/// One row of the dispatch table: a register with its path as requests
/// spell it.
#[derive(Debug, PartialEq, Eq)]
pub struct RegDesc {
    pub path: String,
    pub ty: TypeTag,
    pub meta: MetaDesc,
}

/// What a `RegDesc` holds.
pub struct RegDescView {
    pub path: Seq<char>,
    pub ty: TypeTag,
    pub meta: MetaDesc,
}

impl View for RegDesc {
    type V = RegDescView;

    open spec fn view(&self) -> RegDescView {
        RegDescView { path: self.path@, ty: self.ty, meta: self.meta }
    }
}

/// What a request asks of its register.
#[derive(Clone, Copy, Debug, PartialEq, Eq)]
pub enum Action<'a> {
    Read,
    Write(Value<'a>),
}

/// What an `Action` holds.
pub enum ActionView {
    Read,
    Write(ValueView),
}

impl<'a> View for Action<'a> {
    type V = ActionView;

    open spec fn view(&self) -> ActionView {
        match *self {
            Action::Read => ActionView::Read,
            Action::Write(v) => ActionView::Write(v@),
        }
    }
}

/// A request that passed every check: the index of its register in the
/// table, whether a callback serves that register, and what is asked.
#[derive(Clone, Copy, Debug, PartialEq, Eq)]
pub struct Dispatch<'a> {
    pub reg: usize,
    pub fast: bool,
    pub action: Action<'a>,
}

/// What a `Dispatch` holds.
pub struct DispatchView {
    pub reg: int,
    pub fast: bool,
    pub action: ActionView,
}

impl<'a> View for Dispatch<'a> {
    type V = DispatchView;

    open spec fn view(&self) -> DispatchView {
        DispatchView { reg: self.reg as int, fast: self.fast, action: self.action@ }
    }
}

pub type DispatchResult<'a> = Result<Dispatch<'a>, AnswerCode>;

/// What each row of a table holds.
pub open spec fn table_view(table: Seq<RegDesc>) -> Seq<RegDescView> {
    Seq::new(table.len(), |i: int| table[i]@)
}

/// The path of a register as requests spell it: its names, each behind a `/`.
pub open spec fn wire_path(path: Seq<Seq<char>>) -> Seq<char> {
    "/"@ + join(path, "/"@)
}

/// The row that stands for a register.
pub open spec fn row_of(r: RegisterView) -> RegDescView {
    RegDescView { path: wire_path(r.path), ty: r.ty, meta: r.meta }
}

/// The table of a schema: a row for each register, in the order of the
/// document.
pub open spec fn spec_dispatch_table(t: TreeView) -> Seq<RegDescView> {
    Seq::new(registers(t).len(), |i: int| row_of(registers(t)[i]))
}

/// The index of the first row with this path.
pub open spec fn lookup(table: Seq<RegDescView>, path: Seq<char>) -> Option<int>
    decreases table.len(),
{
    if table.len() == 0 {
        None
    } else {
        match lookup(table.drop_last(), path) {
            Some(i) => Some(i),
            None => if table.last().path == path {
                Some(table.len() - 1)
            } else {
                None
            },
        }
    }
}

/// Whether the rights of a register allow a request.
pub open spec fn permits(meta: MetaDesc, code: RequestCode) -> bool {
    match code {
        RequestCode::READ => meta.r,
        RequestCode::WRITE => meta.w,
    }
}

/// Whether a value is what a request to a register of type `ty` must carry:
/// nothing for a read, a value of that type for a write.
pub open spec fn well_typed(ty: TypeTag, code: RequestCode, v: ValueView) -> bool {
    match code {
        RequestCode::READ => v == ValueView::Unit,
        RequestCode::WRITE => v.tag() == ty,
    }
}

/// The level that a request to a register asks for.
pub open spec fn required_level(meta: MetaDesc, code: RequestCode) -> PrivLvl {
    match code {
        RequestCode::READ => meta.r_plvl,
        RequestCode::WRITE => meta.w_plvl,
    }
}

/// A request held against row `i`: refused with `ERR_PATH` where the rights
/// do not allow it, else with `ERR_TYPE` where the value does not fit, else
/// with `ERR_USER` where the caller's level is too low.
pub open spec fn check_request(
    row: RegDescView,
    i: int,
    code: RequestCode,
    v: ValueView,
    sys_lvl: PrivLvl,
) -> Result<DispatchView, AnswerCode> {
    if !permits(row.meta, code) {
        Err(AnswerCode::ERR_PATH)
    } else if !well_typed(row.ty, code, v) {
        Err(AnswerCode::ERR_TYPE)
    } else if !sys_lvl.spec_allows(required_level(row.meta, code)) {
        Err(AnswerCode::ERR_USER)
    } else {
        Ok(
            DispatchView {
                reg: i,
                fast: row.meta.fast,
                action: match code {
                    RequestCode::READ => ActionView::Read,
                    RequestCode::WRITE => ActionView::Write(v),
                },
            },
        )
    }
}

/// What dispatch makes of a request: `ERR_PATH` for a path that no row has,
/// else what the first row with that path makes of it.
pub open spec fn spec_req2msg(
    table: Seq<RegDescView>,
    code: RequestCode,
    path: Seq<char>,
    v: ValueView,
    sys_lvl: PrivLvl,
) -> Result<DispatchView, AnswerCode> {
    match lookup(table, path) {
        None => Err(AnswerCode::ERR_PATH),
        Some(i) => check_request(table[i], i, code, v, sys_lvl),
    }
}

proof fn lemma_lookup_found(table: Seq<RegDescView>, path: Seq<char>, i: int)
    requires
        0 <= i < table.len(),
        table[i].path == path,
        forall|k: int| 0 <= k < i ==> (#[trigger] table[k]).path != path,
    ensures
        lookup(table, path) == Some(i),
    decreases table.len(),
{
    if i < table.len() - 1 {
        lemma_lookup_found(table.drop_last(), path, i);
    } else {
        lemma_lookup_none(table.drop_last(), path);
    }
}

proof fn lemma_lookup_none(table: Seq<RegDescView>, path: Seq<char>)
    requires
        forall|k: int| 0 <= k < table.len() ==> (#[trigger] table[k]).path != path,
    ensures
        lookup(table, path) is None,
    decreases table.len(),
{
    if table.len() > 0 {
        lemma_lookup_none(table.drop_last(), path);
    }
}

/// Finds the first row with a path.
pub fn find_register(table: &Vec<RegDesc>, path: &str) -> (r: Option<usize>)
    ensures
        match r {
            Some(i) => lookup(table_view(table@), path@) == Some(i as int) && i < table@.len(),
            None => lookup(table_view(table@), path@) is None,
        },
{
    let n: usize = table.len();
    let mut i: usize = 0;
    while i < n
        invariant
            n == table@.len(),
            i <= n,
            forall|k: int| 0 <= k < i ==> (#[trigger] table_view(table@)[k]).path != path@,
        decreases n - i,
    {
        if str_eq(table[i].path.as_str(), path) {
            proof {
                lemma_lookup_found(table_view(table@), path@, i as int);
            }
            return Some(i);
        }
        i = i + 1;
    }
    proof {
        lemma_lookup_none(table_view(table@), path@);
    }
    None
}

/// Dispatches a request: finds its register and checks rights, type and
/// privilege level.
pub fn req2msg<'a>(
    table: &Vec<RegDesc>,
    code: RequestCode,
    path: &str,
    v: Value<'a>,
    sys_lvl: PrivLvl,
) -> (r: DispatchResult<'a>)
    ensures
        match r {
            Ok(d) => spec_req2msg(table_view(table@), code, path@, v@, sys_lvl) == Ok::<
                DispatchView,
                AnswerCode,
            >(d@),
            Err(e) => spec_req2msg(table_view(table@), code, path@, v@, sys_lvl) == Err::<
                DispatchView,
                AnswerCode,
            >(e),
        },
{
    let i = match find_register(table, path) {
        Some(i) => i,
        None => {
            return Err(AnswerCode::ERR_PATH);
        },
    };
    let row = &table[i];
    match code {
        RequestCode::READ => {
            if !row.meta.r {
                return Err(AnswerCode::ERR_PATH);
            }
            match v {
                Value::UNIT(_) => {},
                _ => {
                    return Err(AnswerCode::ERR_TYPE);
                },
            }
            if !sys_lvl.allows(row.meta.r_plvl) {
                return Err(AnswerCode::ERR_USER);
            }
            Ok(Dispatch { reg: i, fast: row.meta.fast, action: Action::Read })
        },
        RequestCode::WRITE => {
            if !row.meta.w {
                return Err(AnswerCode::ERR_PATH);
            }
            if v.tag() != row.ty {
                return Err(AnswerCode::ERR_TYPE);
            }
            if !sys_lvl.allows(row.meta.w_plvl) {
                return Err(AnswerCode::ERR_USER);
            }
            Ok(Dispatch { reg: i, fast: row.meta.fast, action: Action::Write(v) })
        },
    }
}

/// What serving a request gave: the request itself, to be passed on as a
/// message, or what the callback of a fast register returned.
#[derive(Debug, PartialEq, Eq)]
pub enum Served<'a, T> {
    Msg(Dispatch<'a>),
    Fast(T),
}

/// Whether `r` is what serving a request gives, when dispatch made `found`
/// of it: a refusal is handed on; a request to a register that is not fast
/// is handed on; for a fast register the callback was called, the one for
/// reading on the register's index or the one for writing on the index and
/// the value, and what it returned is handed on unchanged.
pub open spec fn served<'a, T, R: Fn(usize) -> T, W: Fn(usize, Value<'a>) -> T>(
    found: Result<DispatchView, AnswerCode>,
    v: Value<'a>,
    cb_r: R,
    cb_w: W,
    r: Result<Served<'a, T>, AnswerCode>,
) -> bool {
    match found {
        Err(e) => r == Err::<Served<'a, T>, AnswerCode>(e),
        Ok(d) => if !d.fast {
            r matches Ok(Served::Msg(m)) && m@ == d
        } else {
            match d.action {
                ActionView::Read => r matches Ok(Served::Fast(t)) && call_ensures(
                    cb_r,
                    (d.reg as usize,),
                    t,
                ),
                ActionView::Write(_) => r matches Ok(Served::Fast(t)) && call_ensures(
                    cb_w,
                    (d.reg as usize, v),
                    t,
                ),
            }
        },
    }
}

/// Dispatches a request and serves it where its register is fast: `cb_r` and
/// `cb_w` are the callbacks for reading and for writing, handed the index of
/// the register in the table. A callback is called once, and only for a
/// request that passed every check.
pub fn serve<'a, T, R: Fn(usize) -> T, W: Fn(usize, Value<'a>) -> T>(
    table: &Vec<RegDesc>,
    code: RequestCode,
    path: &str,
    v: Value<'a>,
    sys_lvl: PrivLvl,
    cb_r: &R,
    cb_w: &W,
) -> (r: Result<Served<'a, T>, AnswerCode>)
    requires
        forall|i: usize| i < table@.len() ==> call_requires(*cb_r, (i,)),
        forall|i: usize, x: Value<'a>| i < table@.len() ==> call_requires(*cb_w, (i, x)),
    ensures
        served(spec_req2msg(table_view(table@), code, path@, v@, sys_lvl), v, *cb_r, *cb_w, r),
{
    let d = req2msg(table, code, path, v, sys_lvl)?;
    proof {
        lemma_found_in_table(table_view(table@), path@);
    }
    if !d.fast {
        return Ok(Served::Msg(d));
    }
    match d.action {
        Action::Read => Ok(Served::Fast(cb_r(d.reg))),
        Action::Write(_) => Ok(Served::Fast(cb_w(d.reg, v))),
    }
}

/// The row that a path finds is a row of the table.
pub proof fn lemma_found_in_table(table: Seq<RegDescView>, path: Seq<char>)
    ensures
        lookup(table, path) matches Some(i) ==> 0 <= i < table.len() && table[i].path == path,
    decreases table.len(),
{
    if table.len() > 0 {
        lemma_found_in_table(table.drop_last(), path);
    }
}

/// Makes the dispatch table of a schema.
pub fn dispatch_table(tree: &DslTree) -> (r: Vec<RegDesc>)
    ensures
        table_view(r@) == spec_dispatch_table(tree@),
{
    let regs = tree.regs();
    let mut table: Vec<RegDesc> = Vec::new();
    let n: usize = regs.len();
    let mut i: usize = 0;
    while i < n
        invariant
            n == regs@.len(),
            i <= n,
            regs_view(regs@) == registers(tree@),
            table@.len() == i,
            forall|k: int| 0 <= k < i ==> (#[trigger] table@[k])@ == row_of(registers(tree@)[k]),
        decreases n - i,
    {
        let reg: &Register = regs[i];
        assert(regs_view(regs@)[i as int] == reg@);
        let mut path = "/".to_owned();
        let joined = join_strings(&reg.path, "/");
        path.append(joined.as_str());
        table.push(RegDesc { path, ty: reg.ty, meta: reg.meta });
        i = i + 1;
    }
    assert(table_view(table@) =~= spec_dispatch_table(tree@));
    table
}

/// A request to a register is refused with `ERR_PATH` exactly when the
/// register's rights do not allow the request, whatever value it carries and
/// whatever the caller's level.
pub proof fn lemma_err_path_iff_not_permitted(
    table: Seq<RegDescView>,
    i: int,
    code: RequestCode,
    v: ValueView,
    sys_lvl: PrivLvl,
)
    requires
        0 <= i < table.len(),
        lookup(table, table[i].path) == Some(i),
    ensures
        spec_req2msg(table, code, table[i].path, v, sys_lvl) == Err::<DispatchView, AnswerCode>(
            AnswerCode::ERR_PATH,
        ) <==> !permits(table[i].meta, code),
{
}

/// A write to a writable register with a value of another type than the
/// register's is refused with `ERR_TYPE`, whatever the caller's level.
pub proof fn lemma_write_of_wrong_type(
    table: Seq<RegDescView>,
    i: int,
    v: ValueView,
    sys_lvl: PrivLvl,
)
    requires
        0 <= i < table.len(),
        lookup(table, table[i].path) == Some(i),
        table[i].meta.w,
        v.tag() != table[i].ty,
    ensures
        spec_req2msg(table, RequestCode::WRITE, table[i].path, v, sys_lvl) == Err::<
            DispatchView,
            AnswerCode,
        >(AnswerCode::ERR_TYPE),
{
}

/// A read of a readable register that carries a value is refused with
/// `ERR_TYPE`, whatever the caller's level.
pub proof fn lemma_read_with_value(
    table: Seq<RegDescView>,
    i: int,
    v: ValueView,
    sys_lvl: PrivLvl,
)
    requires
        0 <= i < table.len(),
        lookup(table, table[i].path) == Some(i),
        table[i].meta.r,
        v != ValueView::Unit,
    ensures
        spec_req2msg(table, RequestCode::READ, table[i].path, v, sys_lvl) == Err::<
            DispatchView,
            AnswerCode,
        >(AnswerCode::ERR_TYPE),
{
}

/// A request for a path that no register has is refused with `ERR_PATH`.
pub proof fn lemma_unknown_path(
    table: Seq<RegDescView>,
    code: RequestCode,
    path: Seq<char>,
    v: ValueView,
    sys_lvl: PrivLvl,
)
    requires
        forall|k: int| 0 <= k < table.len() ==> (#[trigger] table[k]).path != path,
    ensures
        spec_req2msg(table, code, path, v, sys_lvl) == Err::<DispatchView, AnswerCode>(
            AnswerCode::ERR_PATH,
        ),
{
    lemma_lookup_none(table, path);
}

/// Where no two rows share a path, every row is the one that its path finds.
pub proof fn lemma_lookup_unique(table: Seq<RegDescView>, i: int)
    requires
        0 <= i < table.len(),
        forall|a: int, b: int|
            0 <= a < b < table.len() ==> (#[trigger] table[a]).path != (#[trigger] table[b]).path,
    ensures
        lookup(table, table[i].path) == Some(i),
{
    lemma_lookup_found(table, table[i].path, i);
}

} // verus!
