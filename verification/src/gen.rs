//! The code generator: from a schema to the source text of the message
//! types that mirror it and of the function that dispatches requests to
//! them.
//!
//! Names and expressions are checked with `syn`, and the text is written out
//! through `proc_macro2`. What these two make of a text depends on the text
//! alone as long as the generator does not run inside a procedural macro;
//! inside one, `proc_macro2` hands the work to the compiler, and nothing
//! stated here of `parses_as_ident`, `parses_as_expr`, `literal_text` and
//! `tokens_text` is meant for that case.

use vstd::prelude::*;
use vstd::string::StringExecFns;
use crate::dispatch::spec_dispatch_table;
use crate::priv_lvl::PrivLvl;
use crate::schema::{
    lemma_trees_view, parser, registers, registers_of, regs_view, spec_parser, trees_view,
    DslTree, Register, RegisterView, SchemaError, Section, SectionView, TreeView,
};
use crate::text::{camel_case, camel_case_names, clone_strings, join, join_strings, strings_view};
use crate::ty::TypeTag;

verus! {

/// Why no code was generated.
#[derive(Clone, Copy, Debug, PartialEq, Eq, Structural)]
pub enum GenError {
    /// The name of a section or register that takes part in the message
    /// types is no identifier.
    InvalidName,
    /// A register has a type that generated code does not carry.
    UnsupportedType,
    /// A register can be neither read nor written.
    NoAccess,
    /// The dispatch arm of a register is no expression.
    InvalidArm,
    /// The generated text as a whole is no sequence of tokens.
    InvalidSource,
}

/// Whether `syn` reads a text as one identifier.
pub uninterp spec fn parses_as_ident(text: Seq<char>) -> bool;

/// Whether `syn` reads a text as one expression.
pub uninterp spec fn parses_as_expr(text: Seq<char>) -> bool;

/// The string literal that `proc_macro2` writes for a text.
pub uninterp spec fn literal_text(text: Seq<char>) -> Seq<char>;

/// A text as `proc_macro2` writes it after reading it as tokens, if it can
/// be read so.
pub uninterp spec fn tokens_text(text: Seq<char>) -> Option<Seq<char>>;

/// Calls `syn::parse_str` for a `syn::Ident`.
#[verifier::external_body]
fn is_rust_ident(text: &str) -> (r: bool)
    ensures
        r == parses_as_ident(text@),
{
    syn::parse_str::<syn::Ident>(text).is_ok()
}

/// Calls `syn::parse_str` for a `syn::Expr`.
#[verifier::external_body]
fn is_rust_expr(text: &str) -> (r: bool)
    ensures
        r == parses_as_expr(text@),
{
    syn::parse_str::<syn::Expr>(text).is_ok()
}

/// Calls `proc_macro2::Literal::string` and writes the literal out.
#[verifier::external_body]
fn string_literal(text: &str) -> (r: String)
    ensures
        r@ == literal_text(text@),
{
    proc_macro2::Literal::string(text).to_string()
}

/// Reads a text as a `proc_macro2::TokenStream` and writes the tokens out.
/// Outside of a procedural macro the result depends on the text alone.
#[verifier::external_body]
fn render_tokens(text: &str) -> (r: Option<String>)
    ensures
        match r {
            Some(s) => tokens_text(text@) == Some(s@),
            None => tokens_text(text@) is None,
        },
{
    match text.parse::<proc_macro2::TokenStream>() {
        Ok(tokens) => Some(tokens.to_string()),
        Err(_) => None,
    }
}

/// The pieces of the expression that builds a message: what stands before
/// the register's own part, that part, and what closes the expression.
#[derive(Debug)]
pub struct EnumCtor {
    pub pre: Vec<String>,
    pub val: String,
    pub post: Vec<String>,
}

/// What an `EnumCtor` holds.
pub struct EnumCtorView {
    pub pre: Seq<Seq<char>>,
    pub val: Seq<char>,
    pub post: Seq<Seq<char>>,
}

impl View for EnumCtor {
    type V = EnumCtorView;

    open spec fn view(&self) -> EnumCtorView {
        EnumCtorView {
            pre: strings_view(self.pre@),
            val: self.val@,
            post: strings_view(self.post@),
        }
    }
}

impl EnumCtorView {
    /// No pieces.
    pub open spec fn empty() -> EnumCtorView {
        EnumCtorView { pre: Seq::empty(), val: Seq::empty(), post: Seq::empty() }
    }

    /// The expression: all pieces in a row.
    pub open spec fn text(self) -> Seq<char> {
        join(self.pre, Seq::empty()) + self.val + join(self.post, Seq::empty())
    }
}

impl EnumCtor {
    /// An expression with no pieces.
    pub fn new() -> (r: Self)
        ensures
            r@ == EnumCtorView::empty(),
    {
        let r = EnumCtor { pre: Vec::new(), val: String::new(), post: Vec::new() };
        assert(strings_view(r.pre@) =~= Seq::<Seq<char>>::empty());
        assert(strings_view(r.post@) =~= Seq::<Seq<char>>::empty());
        r
    }

    /// The expression as one text.
    pub fn text(&self) -> (r: String)
        ensures
            r@ == self@.text(),
    {
        let mut out = join_strings(&self.pre, "");
        out.append(self.val.as_str());
        let post = join_strings(&self.post, "");
        out.append(post.as_str());
        proof {
            reveal_strlit("");
            assert(""@ =~= Seq::<char>::empty());
        }
        out
    }

    /// The same pieces with another part for the register.
    pub fn with_val(&self, val: String) -> (r: EnumCtor)
        ensures
            r@ == (EnumCtorView { pre: self@.pre, val: val@, post: self@.post }),
    {
        EnumCtor { pre: clone_strings(&self.pre), val, post: clone_strings(&self.post) }
    }
}

/// The name of a type in generated code.
pub open spec fn spec_convert_ty(ty: TypeTag) -> Seq<char> {
    match ty {
        TypeTag::UNIT => "()"@,
        TypeTag::BOOL => "bool"@,
        TypeTag::I32 => "i32"@,
        TypeTag::I16 => "i16"@,
        TypeTag::I8 => "i8"@,
        TypeTag::U32 => "u32"@,
        TypeTag::U16 => "u16"@,
        TypeTag::U8 => "u8"@,
        TypeTag::STR => "&'a str"@,
        TypeTag::BYTES => "&'a [u8]"@,
    }
}

/// Whether generated code carries values of a type.
pub open spec fn supported_type(ty: TypeTag) -> bool {
    ty != TypeTag::I16 && ty != TypeTag::I8 && ty != TypeTag::U16
}

/// The name of a type in generated code.
pub fn convert_ty(ty: TypeTag) -> (r: &'static str)
    ensures
        r@ == spec_convert_ty(ty),
{
    match ty {
        TypeTag::UNIT => "()",
        TypeTag::BOOL => "bool",
        TypeTag::I32 => "i32",
        TypeTag::I16 => "i16",
        TypeTag::I8 => "i8",
        TypeTag::U32 => "u32",
        TypeTag::U16 => "u16",
        TypeTag::U8 => "u8",
        TypeTag::STR => "&'a str",
        TypeTag::BYTES => "&'a [u8]",
    }
}

/// The name of a privilege level in generated code.
pub open spec fn spec_level_name(l: PrivLvl) -> Seq<char> {
    match l {
        PrivLvl::NORMAL_LVL => "PrivLvl::NORMAL_LVL"@,
        PrivLvl::MODE1_LVL => "PrivLvl::MODE1_LVL"@,
        PrivLvl::MODE2_LVL => "PrivLvl::MODE2_LVL"@,
        PrivLvl::MODE3_LVL => "PrivLvl::MODE3_LVL"@,
        PrivLvl::SECUR_LVL => "PrivLvl::SECUR_LVL"@,
        PrivLvl::DEVEL_LVL => "PrivLvl::DEVEL_LVL"@,
        PrivLvl::UNDEF_LVL => "PrivLvl::UNDEF_LVL"@,
    }
}

/// The name of a privilege level in generated code.
pub fn level_name(l: PrivLvl) -> (r: &'static str)
    ensures
        r@ == spec_level_name(l),
{
    match l {
        PrivLvl::NORMAL_LVL => "PrivLvl::NORMAL_LVL",
        PrivLvl::MODE1_LVL => "PrivLvl::MODE1_LVL",
        PrivLvl::MODE2_LVL => "PrivLvl::MODE2_LVL",
        PrivLvl::MODE3_LVL => "PrivLvl::MODE3_LVL",
        PrivLvl::SECUR_LVL => "PrivLvl::SECUR_LVL",
        PrivLvl::DEVEL_LVL => "PrivLvl::DEVEL_LVL",
        PrivLvl::UNDEF_LVL => "PrivLvl::UNDEF_LVL",
    }
}

/// A schema with every name in Pascal case. Paths keep the names of the
/// document.
pub open spec fn spec_preproc(t: TreeView) -> TreeView
    decreases t, 1int,
{
    match t {
        TreeView::SectionV(s) => TreeView::SectionV(
            SectionView {
                path: s.path,
                name: camel_case(s.name),
                meta: s.meta,
                children: spec_preproc_all(s.children),
            },
        ),
        TreeView::RegisterV(r) => TreeView::RegisterV(
            RegisterView { path: r.path, name: camel_case(r.name), ty: r.ty, meta: r.meta },
        ),
    }
}

/// Each of the nodes with every name in Pascal case.
pub open spec fn spec_preproc_all(ts: Seq<TreeView>) -> Seq<TreeView>
    decreases ts, 0int,
{
    if ts.len() == 0 {
        Seq::empty()
    } else {
        spec_preproc_all(ts.drop_last()).push(spec_preproc(ts.last()))
    }
}

fn rename(t: &DslTree) -> (r: DslTree)
    ensures
        r@ == spec_preproc(t@),
    decreases t, 1int,
{
    match t {
        DslTree::SectionV(s) => {
            let children = rename_all(&s.children);
            DslTree::SectionV(
                Section {
                    path: clone_strings(&s.path),
                    name: camel_case_names(s.name.as_str()),
                    meta: s.meta,
                    children,
                },
            )
        },
        DslTree::RegisterV(r) => DslTree::RegisterV(
            Register {
                path: clone_strings(&r.path),
                name: camel_case_names(r.name.as_str()),
                ty: r.ty,
                meta: r.meta,
            },
        ),
    }
}

fn rename_all(ts: &Vec<DslTree>) -> (r: Vec<DslTree>)
    ensures
        trees_view(r@) == spec_preproc_all(trees_view(ts@)),
    decreases ts, 0int,
{
    let mut out: Vec<DslTree> = Vec::new();
    let n: usize = ts.len();
    let ghost views = trees_view(ts@);
    proof {
        lemma_trees_view(ts@);
    }
    let mut i: usize = 0;
    while i < n
        invariant
            n == ts@.len(),
            i <= n,
            views == trees_view(ts@),
            views.len() == n,
            forall|k: int| 0 <= k < n ==> (#[trigger] views[k]) == ts@[k]@,
            trees_view(out@) == spec_preproc_all(views.take(i as int)),
        decreases n - i,
    {
        assert(views.take(i + 1).drop_last() =~= views.take(i as int));
        assert(views.take(i + 1).last() == views[i as int]);
        let ghost before = out@;
        out.push(rename(&ts[i]));
        assert(out@.drop_last() =~= before);
        i = i + 1;
    }
    assert(views.take(n as int) =~= views);
    out
}

/// Puts every name of a schema in Pascal case.
pub fn preproc(dsl: DslTree) -> (r: DslTree)
    ensures
        r@ == spec_preproc(dsl@),
{
    rename(&dsl)
}

/// What the message types take from one node: the definitions of the types
/// below it, its variants in the type of its section, and whether a variant
/// borrows.
#[derive(Debug)]
pub struct MsgStream {
    pub def: String,
    pub vars: String,
    pub lf: bool,
}

/// What a `MsgStream` holds.
pub struct MsgStreamView {
    pub def: Seq<char>,
    pub vars: Seq<char>,
    pub lf: bool,
}

impl View for MsgStream {
    type V = MsgStreamView;

    open spec fn view(&self) -> MsgStreamView {
        MsgStreamView { def: self.def@, vars: self.vars@, lf: self.lf }
    }
}

impl MsgStreamView {
    /// Nothing: what a fast node gives.
    pub open spec fn empty() -> MsgStreamView {
        MsgStreamView { def: Seq::empty(), vars: Seq::empty(), lf: false }
    }

    /// What two nodes give, one behind the other.
    pub open spec fn followed_by(self, next: MsgStreamView) -> MsgStreamView {
        MsgStreamView {
            def: self.def + next.def,
            vars: self.vars + next.vars,
            lf: self.lf || next.lf,
        }
    }
}

impl Default for MsgStream {
    fn default() -> (r: MsgStream)
        ensures
            r@ == MsgStreamView::empty(),
    {
        MsgStream { def: String::new(), vars: String::new(), lf: false }
    }
}

/// The lifetime parameter of a type whose variants borrow.
pub open spec fn spec_lifetime(lf: bool) -> Seq<char> {
    if lf {
        "<'a>"@
    } else {
        Seq::empty()
    }
}

/// The variant for writing a register.
pub open spec fn write_variant(r: RegisterView) -> Seq<char> {
    r.name + "_W("@ + spec_convert_ty(r.ty) + "), "@
}

/// The variant for reading a register.
pub open spec fn read_variant(r: RegisterView) -> Seq<char> {
    r.name + "_R, "@
}

/// What a register gives: a variant for each right it has, the one for
/// writing first; it borrows where a string or bytes can be written.
pub open spec fn spec_visit_register(r: RegisterView) -> MsgStreamView {
    MsgStreamView {
        def: Seq::empty(),
        vars: (if r.meta.w {
            write_variant(r)
        } else {
            Seq::empty()
        }) + (if r.meta.r {
            read_variant(r)
        } else {
            Seq::empty()
        }),
        lf: (r.ty == TypeTag::STR || r.ty == TypeTag::BYTES) && r.meta.w,
    }
}

/// The definition of the type of a section with these variants.
pub open spec fn enum_definition(name: Seq<char>, lf: bool, variants: Seq<char>) -> Seq<char> {
    "#[allow(non_camel_case_types)] #[derive(Debug, Clone, Copy, PartialEq, Eq)] pub enum "@ + name
        + spec_lifetime(lf) + " { "@ + variants + "} "@
}

/// The variant that holds a section's type in the type of the section above.
pub open spec fn section_variant(name: Seq<char>, lf: bool) -> Seq<char> {
    name + "("@ + name + spec_lifetime(lf) + "), "@
}

/// What a node gives. A fast node gives nothing, and so does all below it.
pub open spec fn spec_visit_tree(t: TreeView) -> MsgStreamView
    decreases t, 1int,
{
    match t {
        TreeView::SectionV(s) => if s.meta.fast {
            MsgStreamView::empty()
        } else {
            let below = spec_visit_all(s.children);
            MsgStreamView {
                def: below.def + enum_definition(s.name, below.lf, below.vars),
                vars: section_variant(s.name, below.lf),
                lf: below.lf,
            }
        },
        TreeView::RegisterV(r) => if r.meta.fast {
            MsgStreamView::empty()
        } else {
            spec_visit_register(r)
        },
    }
}

/// What a list of nodes gives, in order.
pub open spec fn spec_visit_all(ts: Seq<TreeView>) -> MsgStreamView
    decreases ts, 0int,
{
    if ts.len() == 0 {
        MsgStreamView::empty()
    } else {
        spec_visit_all(ts.drop_last()).followed_by(spec_visit_tree(ts.last()))
    }
}

fn lifetime(lf: bool) -> (r: &'static str)
    ensures
        r@ == spec_lifetime(lf),
{
    proof {
        reveal_strlit("");
        assert(""@ =~= Seq::<char>::empty());
    }
    if lf {
        "<'a>"
    } else {
        ""
    }
}

fn visit_register(reg: &Register) -> (r: MsgStream)
    ensures
        r@ == spec_visit_register(reg@),
{
    let lf = match reg.ty {
        TypeTag::STR => reg.meta.w,
        TypeTag::BYTES => reg.meta.w,
        _ => false,
    };
    let mut vars = String::new();
    if reg.meta.w {
        vars.append(reg.name.as_str());
        vars.append("_W(");
        vars.append(convert_ty(reg.ty));
        vars.append("), ");
        assert(vars@ =~= write_variant(reg@));
    }
    let ghost first = vars@;
    if reg.meta.r {
        vars.append(reg.name.as_str());
        vars.append("_R, ");
        assert(vars@ =~= first + read_variant(reg@));
    }
    assert(vars@ =~= spec_visit_register(reg@).vars);
    MsgStream { def: String::new(), vars, lf }
}

fn visit_section(sec: &Section) -> (r: MsgStream)
    ensures
        DslTree::SectionV(*sec)@ matches TreeView::SectionV(s) && r@ == ({
            let below = spec_visit_all(s.children);
            MsgStreamView {
                def: below.def + enum_definition(s.name, below.lf, below.vars),
                vars: section_variant(s.name, below.lf),
                lf: below.lf,
            }
        }),
    decreases sec, 1int,
{
    let below = visit_all(&sec.children);
    let name = sec.name.as_str();
    let mut def = below.def;
    let ghost defs_below = def@;
    def.append(
        "#[allow(non_camel_case_types)] #[derive(Debug, Clone, Copy, PartialEq, Eq)] pub enum ",
    );
    def.append(name);
    def.append(lifetime(below.lf));
    def.append(" { ");
    def.append(below.vars.as_str());
    def.append("} ");
    assert(def@ =~= defs_below + enum_definition(name@, below.lf, below.vars@));
    let mut vars = sec.name.clone();
    vars.append("(");
    vars.append(name);
    vars.append(lifetime(below.lf));
    vars.append("), ");
    assert(vars@ =~= section_variant(name@, below.lf));
    MsgStream { def, vars, lf: below.lf }
}

fn visit_tree(dsl: &DslTree) -> (r: MsgStream)
    ensures
        r@ == spec_visit_tree(dsl@),
    decreases dsl, 2int,
{
    match dsl {
        DslTree::SectionV(section) => if !section.meta.fast {
            visit_section(section)
        } else {
            MsgStream::default()
        },
        DslTree::RegisterV(register) => if !register.meta.fast {
            visit_register(register)
        } else {
            MsgStream::default()
        },
    }
}

fn visit_all(ts: &Vec<DslTree>) -> (r: MsgStream)
    ensures
        r@ == spec_visit_all(trees_view(ts@)),
    decreases ts, 0int,
{
    let mut def = String::new();
    let mut vars = String::new();
    let mut lf = false;
    let n: usize = ts.len();
    let ghost views = trees_view(ts@);
    proof {
        lemma_trees_view(ts@);
    }
    let mut i: usize = 0;
    while i < n
        invariant
            n == ts@.len(),
            i <= n,
            views == trees_view(ts@),
            views.len() == n,
            forall|k: int| 0 <= k < n ==> (#[trigger] views[k]) == ts@[k]@,
            (MsgStreamView { def: def@, vars: vars@, lf }) == spec_visit_all(views.take(i as int)),
        decreases n - i,
    {
        assert(views.take(i + 1).drop_last() =~= views.take(i as int));
        assert(views.take(i + 1).last() == views[i as int]);
        let next = visit_tree(&ts[i]);
        def.append(next.def.as_str());
        vars.append(next.vars.as_str());
        lf = lf || next.lf;
        i = i + 1;
    }
    assert(views.take(n as int) =~= views);
    MsgStream { def, vars, lf }
}

/// Writes the message types of a schema.
pub fn msg_enum_def(dsl: &DslTree) -> (r: MsgStream)
    ensures
        r@ == spec_visit_tree(dsl@),
{
    visit_tree(dsl)
}

/// One arm of the dispatch function: the path it matches, whether it first
/// refuses a read that carries a value, and the expression it runs.
#[derive(Debug, PartialEq, Eq)]
pub struct Arm {
    pub left: String,
    pub guard: bool,
    pub right: String,
}

/// What an `Arm` holds.
pub struct ArmView {
    pub left: Seq<char>,
    pub guard: bool,
    pub right: Seq<char>,
}

impl View for Arm {
    type V = ArmView;

    open spec fn view(&self) -> ArmView {
        ArmView { left: self.left@, guard: self.guard, right: self.right@ }
    }
}

/// What each of the arms holds.
pub open spec fn arms_view(arms: Seq<Arm>) -> Seq<ArmView> {
    Seq::new(arms.len(), |i: int| arms[i]@)
}

/// The pieces of the expression one section further down: at the top only
/// the section's name; below it the section's variant, opened, and the name
/// of the section's type, with a bracket more to close.
pub open spec fn spec_enter(ctor: EnumCtorView, name: Seq<char>) -> EnumCtorView {
    if ctor.pre.len() == 0 {
        EnumCtorView { pre: seq![name], val: ctor.val, post: ctor.post }
    } else {
        EnumCtorView {
            pre: ctor.pre.push("::"@ + name).push("("@).push(name),
            val: ctor.val,
            post: ctor.post.push(")"@),
        }
    }
}

/// The name of the callback that serves a fast register, without its ending.
pub open spec fn callback_stem(r: RegisterView) -> Seq<char> {
    "cb_"@ + join(r.path, "_"@)
}

/// What a write to the register runs: the message with the value in it, or
/// the callback for writing.
pub open spec fn write_action(r: RegisterView, ctor: EnumCtorView) -> Seq<char> {
    if r.meta.fast {
        callback_stem(r) + "_w((map_ty_error!(v)))"@
    } else {
        (EnumCtorView {
            pre: ctor.pre,
            val: "::"@ + r.name + "_W(map_ty_error!(v))"@,
            post: ctor.post,
        }).text()
    }
}

/// What a read of the register runs: the message, or the callback for
/// reading.
pub open spec fn read_action(r: RegisterView, ctor: EnumCtorView) -> Seq<char> {
    if r.meta.fast {
        callback_stem(r) + "_r()"@
    } else {
        (EnumCtorView { pre: ctor.pre, val: "::"@ + r.name + "_R"@, post: ctor.post }).text()
    }
}

/// The two actions of a register as the arm lists them: the one for writing
/// before the one for reading, a comma between them where it has both.
pub open spec fn actions(r: RegisterView, ctor: EnumCtorView) -> Seq<char> {
    if r.meta.w && r.meta.r {
        write_action(r, ctor) + ", "@ + read_action(r, ctor)
    } else if r.meta.w {
        write_action(r, ctor)
    } else {
        read_action(r, ctor)
    }
}

/// The expression of a register's arm.
pub open spec fn arm_expression(r: RegisterView, ctor: EnumCtorView) -> Seq<char> {
    "impl_arm!("@ + (if r.meta.fast {
        "FAST, "@
    } else {
        Seq::empty()
    }) + r.meta.spec_rights() + ", code, sys_lvl, "@ + spec_level_name(r.meta.w_plvl) + ", "@
        + spec_level_name(r.meta.r_plvl) + ", "@ + actions(r, ctor) + ")"@
}

/// The path of a register as requests spell it.
pub open spec fn arm_path(r: RegisterView) -> Seq<char> {
    "/"@ + join(r.path, "/"@)
}

/// The arm of a register. It refuses a read that carries a value where the
/// register can be read; where it cannot, a read is refused for the rights
/// alone, whatever it carries.
pub open spec fn arm_of_register(r: RegisterView, ctor: EnumCtorView) -> ArmView {
    ArmView { left: arm_path(r), guard: r.meta.r, right: arm_expression(r, ctor) }
}

/// The arms for the registers of a node, in the order of the document.
pub open spec fn spec_arms(t: TreeView, ctor: EnumCtorView) -> Seq<ArmView>
    decreases t, 1int,
{
    match t {
        TreeView::SectionV(s) => spec_arms_of(s.children, spec_enter(ctor, s.name)),
        TreeView::RegisterV(r) => seq![arm_of_register(r, ctor)],
    }
}

/// The arms for the registers of a list of nodes.
pub open spec fn spec_arms_of(ts: Seq<TreeView>, ctor: EnumCtorView) -> Seq<ArmView>
    decreases ts, 0int,
{
    if ts.len() == 0 {
        Seq::empty()
    } else {
        spec_arms_of(ts.drop_last(), ctor) + spec_arms(ts.last(), ctor)
    }
}

fn enter(ctor: &EnumCtor, name: &str) -> (r: EnumCtor)
    ensures
        r@ == spec_enter(ctor@, name@),
{
    let mut pre = clone_strings(&ctor.pre);
    let mut post = clone_strings(&ctor.post);
    if pre.len() == 0 {
        pre.push(name.to_owned());
        assert(strings_view(pre@) =~= seq![name@]);
    } else {
        let mut variant = "::".to_owned();
        variant.append(name);
        pre.push(variant);
        pre.push("(".to_owned());
        pre.push(name.to_owned());
        post.push(")".to_owned());
        assert(strings_view(pre@) =~= ctor@.pre.push("::"@ + name@).push("("@).push(name@));
        assert(strings_view(post@) =~= ctor@.post.push(")"@));
    }
    EnumCtor { pre, val: ctor.val.clone(), post }
}

fn callback(reg: &Register, ending: &str) -> (r: String)
    ensures
        r@ == callback_stem(reg@) + ending@,
{
    let mut name = "cb_".to_owned();
    let path = join_strings(&reg.path, "_");
    name.append(path.as_str());
    name.append(ending);
    name
}

fn arm_of(reg: &Register, ctor: &EnumCtor) -> (r: Arm)
    ensures
        r@ == arm_of_register(reg@, ctor@),
{
    let w_act = if reg.meta.fast {
        callback(reg, "_w((map_ty_error!(v)))")
    } else {
        let mut val = "::".to_owned();
        val.append(reg.name.as_str());
        val.append("_W(map_ty_error!(v))");
        ctor.with_val(val).text()
    };
    let r_act = if reg.meta.fast {
        callback(reg, "_r()")
    } else {
        let mut val = "::".to_owned();
        val.append(reg.name.as_str());
        val.append("_R");
        ctor.with_val(val).text()
    };
    assert(w_act@ == write_action(reg@, ctor@));
    assert(r_act@ == read_action(reg@, ctor@));
    let mut right = "impl_arm!(".to_owned();
    if reg.meta.fast {
        right.append("FAST, ");
    }
    right.append(reg.meta.rights());
    right.append(", code, sys_lvl, ");
    right.append(level_name(reg.meta.w_plvl));
    right.append(", ");
    right.append(level_name(reg.meta.r_plvl));
    right.append(", ");
    if reg.meta.w && reg.meta.r {
        right.append(w_act.as_str());
        right.append(", ");
        right.append(r_act.as_str());
    } else if reg.meta.w {
        right.append(w_act.as_str());
    } else {
        right.append(r_act.as_str());
    }
    right.append(")");
    assert(right@ =~= arm_expression(reg@, ctor@));
    let mut left = "/".to_owned();
    let path = join_strings(&reg.path, "/");
    left.append(path.as_str());
    Arm { left, guard: reg.meta.r, right }
}

fn collect_arms(t: &DslTree, ctor: &EnumCtor, out: &mut Vec<Arm>)
    ensures
        arms_view(final(out)@) == arms_view(old(out)@) + spec_arms(t@, ctor@),
    decreases t, 1int,
{
    match t {
        DslTree::SectionV(section) => {
            let inner = enter(ctor, section.name.as_str());
            collect_arms_of(&section.children, &inner, out);
        },
        DslTree::RegisterV(reg) => {
            out.push(arm_of(reg, ctor));
            assert(arms_view(out@) =~= arms_view(old(out)@) + spec_arms(t@, ctor@));
        },
    }
}

fn collect_arms_of(ts: &Vec<DslTree>, ctor: &EnumCtor, out: &mut Vec<Arm>)
    ensures
        arms_view(final(out)@) == arms_view(old(out)@) + spec_arms_of(trees_view(ts@), ctor@),
    decreases ts, 0int,
{
    let n: usize = ts.len();
    let ghost views = trees_view(ts@);
    proof {
        lemma_trees_view(ts@);
    }
    let mut i: usize = 0;
    assert(arms_view(out@) =~= arms_view(old(out)@) + spec_arms_of(views.take(0), ctor@));
    while i < n
        invariant
            n == ts@.len(),
            i <= n,
            views == trees_view(ts@),
            views.len() == n,
            forall|k: int| 0 <= k < n ==> (#[trigger] views[k]) == ts@[k]@,
            arms_view(out@) == arms_view(old(out)@) + spec_arms_of(views.take(i as int), ctor@),
        decreases n - i,
    {
        assert(views.take(i + 1).drop_last() =~= views.take(i as int));
        assert(views.take(i + 1).last() == views[i as int]);
        collect_arms(&ts[i], ctor, out);
        assert(arms_view(out@) =~= arms_view(old(out)@) + spec_arms_of(views.take(i + 1), ctor@));
        i = i + 1;
    }
    assert(views.take(n as int) =~= views);
}

/// The arms of the dispatch function of a schema.
pub fn dispatch_arms(dsl: &DslTree) -> (r: Vec<Arm>)
    ensures
        arms_view(r@) == spec_arms(dsl@, EnumCtorView::empty()),
{
    let mut out: Vec<Arm> = Vec::new();
    let ctor = EnumCtor::new();
    collect_arms(dsl, &ctor, &mut out);
    assert(arms_view(out@) =~= spec_arms(dsl@, ctor@));
    out
}

/// The statement with which an arm refuses a read that carries a value.
pub open spec fn guard_text(guard: bool) -> Seq<char> {
    if guard {
        "if code == RequestCode::READ { let _: () = map_ty_error!(v); } "@
    } else {
        Seq::empty()
    }
}

/// One arm as it stands in the `match`: the path as a string literal, then
/// in braces the check of a read's value, where the arm has one, and the
/// expression.
pub open spec fn arm_text(arm: ArmView) -> Seq<char> {
    literal_text(arm.left) + " => { "@ + guard_text(arm.guard) + arm.right + " } "@
}

/// Whether an arm is the arm of a register, under some expression that
/// builds its messages.
pub open spec fn is_arm_of(arm: ArmView, r: RegisterView) -> bool {
    exists|c: EnumCtorView| arm == #[trigger] arm_of_register(r, c)
}

proof fn lemma_arms_of_registers(t: TreeView, ctor: EnumCtorView)
    ensures
        spec_arms(t, ctor).len() == registers(t).len(),
        forall|i: int|
            0 <= i < registers(t).len() ==> #[trigger] is_arm_of(
                spec_arms(t, ctor)[i],
                registers(t)[i],
            ),
    decreases t, 1int,
{
    match t {
        TreeView::SectionV(s) => {
            lemma_arms_of_registers_all(s.children, spec_enter(ctor, s.name));
        },
        TreeView::RegisterV(r) => {
            assert(spec_arms(t, ctor)[0] == arm_of_register(registers(t)[0], ctor));
        },
    }
}

proof fn lemma_arms_of_registers_all(ts: Seq<TreeView>, ctor: EnumCtorView)
    ensures
        spec_arms_of(ts, ctor).len() == registers_of(ts).len(),
        forall|i: int|
            0 <= i < registers_of(ts).len() ==> #[trigger] is_arm_of(
                spec_arms_of(ts, ctor)[i],
                registers_of(ts)[i],
            ),
    decreases ts, 0int,
{
    if ts.len() > 0 {
        lemma_arms_of_registers_all(ts.drop_last(), ctor);
        lemma_arms_of_registers(ts.last(), ctor);
        let first = registers_of(ts.drop_last()).len();
        assert forall|i: int| 0 <= i < registers_of(ts).len() implies #[trigger] is_arm_of(
            spec_arms_of(ts, ctor)[i],
            registers_of(ts)[i],
        ) by {
            if i < first {
                assert(is_arm_of(
                    spec_arms_of(ts.drop_last(), ctor)[i],
                    registers_of(ts.drop_last())[i],
                ));
            } else {
                assert(is_arm_of(
                    spec_arms(ts.last(), ctor)[i - first],
                    registers(ts.last())[i - first],
                ));
            }
        }
    }
}

/// The generated dispatch function and the dispatch table go by the same
/// registers: the function has one arm for each row of the table, in the
/// table's order; the arm is the arm of the row's register, so it matches
/// the path of its row and checks the value of a read exactly where the row
/// can be read. So a path that no row has is a path that no arm matches.
pub proof fn lemma_arms_follow_table(t: TreeView)
    ensures
        spec_arms(t, EnumCtorView::empty()).len() == spec_dispatch_table(t).len(),
        forall|i: int|
            #![trigger spec_arms(t, EnumCtorView::empty())[i]]
            0 <= i < spec_dispatch_table(t).len() ==> {
                &&& is_arm_of(spec_arms(t, EnumCtorView::empty())[i], registers(t)[i])
                &&& spec_arms(t, EnumCtorView::empty())[i].left == spec_dispatch_table(t)[i].path
                &&& spec_arms(t, EnumCtorView::empty())[i].guard == spec_dispatch_table(
                    t,
                )[i].meta.r
            },
{
    lemma_arms_of_registers(t, EnumCtorView::empty());
    assert forall|i: int|
        #![trigger spec_arms(t, EnumCtorView::empty())[i]]
        0 <= i < spec_dispatch_table(t).len() implies {
        &&& is_arm_of(spec_arms(t, EnumCtorView::empty())[i], registers(t)[i])
        &&& spec_arms(t, EnumCtorView::empty())[i].left == spec_dispatch_table(t)[i].path
        &&& spec_arms(t, EnumCtorView::empty())[i].guard == spec_dispatch_table(t)[i].meta.r
    } by {
        assert(is_arm_of(spec_arms(t, EnumCtorView::empty())[i], registers(t)[i]));
        let c = choose|c: EnumCtorView|
            spec_arms(t, EnumCtorView::empty())[i] == #[trigger] arm_of_register(
                registers(t)[i],
                c,
            );
        assert(spec_arms(t, EnumCtorView::empty())[i] == arm_of_register(registers(t)[i], c));
    }
}

/// The arms as they stand in the `match`, one behind the other.
pub open spec fn arms_text(arms: Seq<ArmView>) -> Seq<char>
    decreases arms.len(),
{
    if arms.len() == 0 {
        Seq::empty()
    } else {
        arms_text(arms.drop_last()) + arm_text(arms.last())
    }
}

/// The text of the dispatch function with these arms. The path is matched
/// first, and nothing is looked at before it: a path that no arm matches is
/// refused with `ERR_PATH`, whatever the request carries.
pub open spec fn dispatch_text(arms: Seq<ArmView>) -> Seq<char> {
    "pub fn req2msg<'a>(code: RequestCode, path: &str, v: Value<'a>, sys_lvl: PrivLvl) -> DispatchResult<'a> { match path { "@
        + arms_text(arms) + "_ => { DispatchResult::Err(AnswerCode::ERR_PATH) } } }"@
}

/// The source text for a schema: the message types in a module of their
/// own, and the dispatch function.
pub open spec fn spec_source(t: TreeView) -> Seq<char> {
    "pub mod msg { "@ + spec_visit_tree(t).def + "} pub use msg::*; "@ + dispatch_text(
        spec_arms(t, EnumCtorView::empty()),
    )
}

/// Writes the dispatch function with these arms.
pub fn dispatch_source(arms: &Vec<Arm>) -> (r: String)
    ensures
        r@ == dispatch_text(arms_view(arms@)),
{
    let mut out =
        "pub fn req2msg<'a>(code: RequestCode, path: &str, v: Value<'a>, sys_lvl: PrivLvl) -> DispatchResult<'a> { match path { ".to_owned();
    let ghost head = out@;
    let ghost views = arms_view(arms@);
    let n: usize = arms.len();
    let mut i: usize = 0;
    assert(out@ =~= head + arms_text(views.take(0)));
    while i < n
        invariant
            n == arms@.len(),
            i <= n,
            views == arms_view(arms@),
            out@ == head + arms_text(views.take(i as int)),
        decreases n - i,
    {
        assert(views.take(i + 1).drop_last() =~= views.take(i as int));
        assert(views.take(i + 1).last() == arms@[i as int]@);
        let ghost before = out@;
        let lit = string_literal(arms[i].left.as_str());
        out.append(lit.as_str());
        out.append(" => { ");
        if arms[i].guard {
            out.append("if code == RequestCode::READ { let _: () = map_ty_error!(v); } ");
        }
        out.append(arms[i].right.as_str());
        out.append(" } ");
        assert(out@ =~= before + arm_text(views.take(i + 1).last()));
        assert(out@ =~= head + arms_text(views.take(i + 1)));
        i = i + 1;
    }
    assert(views.take(n as int) =~= views);
    out.append("_ => { DispatchResult::Err(AnswerCode::ERR_PATH) } } }");
    out
}

/// Writes the source text for a schema whose names are in Pascal case.
pub fn source(dsl: &DslTree) -> (r: String)
    ensures
        r@ == spec_source(dsl@),
{
    let stream = msg_enum_def(dsl);
    let arms = dispatch_arms(dsl);
    let dispatch = dispatch_source(&arms);
    let mut out = "pub mod msg { ".to_owned();
    out.append(stream.def.as_str());
    out.append("} pub use msg::*; ");
    out.append(dispatch.as_str());
    out
}

/// Whether the names that the message types use are identifiers: those of
/// all nodes but the fast ones and what lies below a fast section.
pub open spec fn names_ok(t: TreeView) -> bool
    decreases t, 1int,
{
    match t {
        TreeView::SectionV(s) => s.meta.fast || (parses_as_ident(s.name) && names_ok_all(
            s.children,
        )),
        TreeView::RegisterV(r) => r.meta.fast || parses_as_ident(r.name),
    }
}

/// Whether `names_ok` holds of each node.
pub open spec fn names_ok_all(ts: Seq<TreeView>) -> bool
    decreases ts, 0int,
{
    ts.len() == 0 || (names_ok_all(ts.drop_last()) && names_ok(ts.last()))
}

fn check_names(t: &DslTree) -> (r: bool)
    ensures
        r == names_ok(t@),
    decreases t, 1int,
{
    match t {
        DslTree::SectionV(s) => s.meta.fast || (is_rust_ident(s.name.as_str()) && check_names_all(
            &s.children,
        )),
        DslTree::RegisterV(r) => r.meta.fast || is_rust_ident(r.name.as_str()),
    }
}

fn check_names_all(ts: &Vec<DslTree>) -> (r: bool)
    ensures
        r == names_ok_all(trees_view(ts@)),
    decreases ts, 0int,
{
    let n: usize = ts.len();
    let ghost views = trees_view(ts@);
    proof {
        lemma_trees_view(ts@);
    }
    let mut i: usize = 0;
    while i < n
        invariant
            n == ts@.len(),
            i <= n,
            views == trees_view(ts@),
            views.len() == n,
            forall|k: int| 0 <= k < n ==> (#[trigger] views[k]) == ts@[k]@,
            names_ok_all(views.take(i as int)),
        decreases n - i,
    {
        assert(views.take(i + 1).drop_last() =~= views.take(i as int));
        assert(views.take(i + 1).last() == views[i as int]);
        if !check_names(&ts[i]) {
            proof {
                lemma_bad_name_stays(views, i + 1);
            }
            return false;
        }
        i = i + 1;
    }
    assert(views.take(n as int) =~= views);
    true
}

proof fn lemma_bad_name_stays(ts: Seq<TreeView>, i: int)
    requires
        0 <= i <= ts.len(),
        !names_ok_all(ts.take(i)),
    ensures
        !names_ok_all(ts),
    decreases ts.len() - i,
{
    if i < ts.len() {
        assert(ts.take(i + 1).drop_last() =~= ts.take(i));
        lemma_bad_name_stays(ts, i + 1);
    } else {
        assert(ts.take(i) =~= ts);
    }
}

/// Whether the message types need a register's type and cannot carry it.
pub open spec fn has_bad_type(r: RegisterView) -> bool {
    !r.meta.fast && r.meta.w && !supported_type(r.ty)
}

/// Whether a register can be neither read nor written.
pub open spec fn has_no_access(r: RegisterView) -> bool {
    !r.meta.w && !r.meta.r
}

/// What generating code for a schema comes to: the first of the errors that
/// applies, or the text of the source as tokens.
pub open spec fn spec_gen(dsl: TreeView) -> Result<Seq<char>, GenError> {
    let t = spec_preproc(dsl);
    let regs = registers(t);
    let arms = spec_arms(t, EnumCtorView::empty());
    if !names_ok(t) {
        Err(GenError::InvalidName)
    } else if exists|i: int| 0 <= i < regs.len() && has_bad_type(#[trigger] regs[i]) {
        Err(GenError::UnsupportedType)
    } else if exists|i: int| 0 <= i < regs.len() && has_no_access(#[trigger] regs[i]) {
        Err(GenError::NoAccess)
    } else if exists|i: int| 0 <= i < arms.len() && !parses_as_expr((#[trigger] arms[i]).right) {
        Err(GenError::InvalidArm)
    } else {
        match tokens_text(spec_source(t)) {
            Some(s) => Ok(s),
            None => Err(GenError::InvalidSource),
        }
    }
}

fn any_bad_type(regs: &Vec<&Register>) -> (r: bool)
    ensures
        r == exists|i: int| 0 <= i < regs@.len() && has_bad_type(#[trigger] regs_view(regs@)[i]),
{
    let n: usize = regs.len();
    let mut i: usize = 0;
    while i < n
        invariant
            n == regs@.len(),
            i <= n,
            forall|k: int| 0 <= k < i ==> !has_bad_type(#[trigger] regs_view(regs@)[k]),
        decreases n - i,
    {
        let reg: &Register = regs[i];
        let supported = match reg.ty {
            TypeTag::I16 => false,
            TypeTag::I8 => false,
            TypeTag::U16 => false,
            _ => true,
        };
        if !reg.meta.fast && reg.meta.w && !supported {
            assert(has_bad_type(regs_view(regs@)[i as int]));
            return true;
        }
        i = i + 1;
    }
    false
}

fn any_without_access(regs: &Vec<&Register>) -> (r: bool)
    ensures
        r == exists|i: int|
            0 <= i < regs@.len() && has_no_access(#[trigger] regs_view(regs@)[i]),
{
    let n: usize = regs.len();
    let mut i: usize = 0;
    while i < n
        invariant
            n == regs@.len(),
            i <= n,
            forall|k: int| 0 <= k < i ==> !has_no_access(#[trigger] regs_view(regs@)[k]),
        decreases n - i,
    {
        let reg: &Register = regs[i];
        if !reg.meta.w && !reg.meta.r {
            assert(has_no_access(regs_view(regs@)[i as int]));
            return true;
        }
        i = i + 1;
    }
    false
}

fn any_bad_arm(arms: &Vec<Arm>) -> (r: bool)
    ensures
        r == exists|i: int|
            0 <= i < arms@.len() && !parses_as_expr((#[trigger] arms_view(arms@)[i]).right),
{
    let n: usize = arms.len();
    let mut i: usize = 0;
    while i < n
        invariant
            n == arms@.len(),
            i <= n,
            forall|k: int| 0 <= k < i ==> parses_as_expr((#[trigger] arms_view(arms@)[k]).right),
        decreases n - i,
    {
        if !is_rust_expr(arms[i].right.as_str()) {
            assert(!parses_as_expr(arms_view(arms@)[i as int].right));
            return true;
        }
        i = i + 1;
    }
    false
}

/// What the generator returns once the source text was handed to
/// `proc_macro2`: the tokens as text, or `InvalidSource` where there are none.
pub fn finish(rendered: Option<String>) -> (r: Result<String, GenError>)
    ensures
        match rendered {
            Some(s) => r == Ok::<String, GenError>(s),
            None => r == Err::<String, GenError>(GenError::InvalidSource),
        },
{
    match rendered {
        Some(s) => Ok(s),
        None => Err(GenError::InvalidSource),
    }
}

/// Generates the code for a schema.
pub fn gen(dsl: DslTree) -> (r: Result<String, GenError>)
    ensures
        match r {
            Ok(s) => spec_gen(dsl@) == Ok::<Seq<char>, GenError>(s@),
            Err(e) => spec_gen(dsl@) == Err::<Seq<char>, GenError>(e),
        },
{
    let dsl = preproc(dsl);
    if !check_names(&dsl) {
        return Err(GenError::InvalidName);
    }
    let regs = dsl.regs();
    if any_bad_type(&regs) {
        return Err(GenError::UnsupportedType);
    }
    if any_without_access(&regs) {
        return Err(GenError::NoAccess);
    }
    let arms = dispatch_arms(&dsl);
    if any_bad_arm(&arms) {
        return Err(GenError::InvalidArm);
    }
    let text = source(&dsl);
    finish(render_tokens(text.as_str()))
}

/// Why a text gave no code: it is no schema, or the schema cannot be
/// generated from.
#[derive(Clone, Copy, Debug, PartialEq, Eq, Structural)]
pub enum GenerateError {
    Schema(SchemaError),
    Gen(GenError),
}

/// What generating code from the text of a schema comes to.
pub open spec fn spec_generate(text: Seq<char>) -> Result<Seq<char>, GenerateError> {
    match spec_parser(text) {
        Err(e) => Err(GenerateError::Schema(e)),
        Ok(t) => match spec_gen(t) {
            Err(e) => Err(GenerateError::Gen(e)),
            Ok(s) => Ok(s),
        },
    }
}

/// Generates the code for the schema that a JSON text describes.
pub fn generate(dsl: &str) -> (r: Result<String, GenerateError>)
    ensures
        match r {
            Ok(s) => spec_generate(dsl@) == Ok::<Seq<char>, GenerateError>(s@),
            Err(e) => spec_generate(dsl@) == Err::<Seq<char>, GenerateError>(e),
        },
{
    match parser(dsl) {
        Err(e) => Err(GenerateError::Schema(e)),
        Ok(tree) => match gen(tree) {
            Err(e) => Err(GenerateError::Gen(e)),
            Ok(s) => Ok(s),
        },
    }
}

} // verus!
