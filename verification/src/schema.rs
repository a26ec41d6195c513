//! The schema: a tree of sections and registers, read from a JSON document.
//!
//! The root of the document is an object. A key that does not begin with `@`
//! names a child: an object is a section, or a register where it holds
//! `@type`; a string is a register of the type it names. The keys `@access`,
//! `@fast`, `@priv_w` and `@priv_r` annotate the node they stand in and all
//! below it, until a node says otherwise. Annotations in the root object
//! itself are passed over.

use vstd::prelude::*;
use vstd::string::StringExecFns;
use crate::json::{json_from_str, json_of_str, lemma_members_view, members_view, Json, JsonView};
use crate::priv_lvl::PrivLvl;
use crate::text::{
    camel_case, camel_case_names, clone_strings, is_annotation, spec_is_annotation, str_eq,
    strings_view,
};
use crate::ty::TypeTag;

verus! {

/// What holds of a register besides its type: who may write and read it, at
/// which privilege level, and whether a callback serves it directly.
#[derive(Clone, Copy, Debug, PartialEq, Eq, Structural)]
pub struct MetaDesc {
    /// Write rights.
    pub w: bool,
    /// Read rights.
    pub r: bool,
    /// Served by a callback.
    pub fast: bool,
    /// The level that a write asks for.
    pub w_plvl: PrivLvl,
    /// The level that a read asks for.
    pub r_plvl: PrivLvl,
}

/// A node of the schema.
#[derive(Debug, PartialEq, Eq)]
pub enum DslTree {
    SectionV(Section),
    RegisterV(Register),
}

/// A section: a named group of registers and sections.
#[derive(Debug, PartialEq, Eq)]
pub struct Section {
    /// The names from the root down to this section, as the document has them.
    pub path: Vec<String>,
    pub name: String,
    pub meta: MetaDesc,
    pub children: Vec<DslTree>,
}

/// A register: a named, typed leaf.
#[derive(Debug, PartialEq, Eq)]
pub struct Register {
    /// The names from the root down to this register, as the document has them.
    pub path: Vec<String>,
    pub name: String,
    pub ty: TypeTag,
    pub meta: MetaDesc,
}

/// Read and write rights, as `@access` gives them.
#[derive(Clone, Copy, Debug, PartialEq, Eq, Structural)]
pub struct Access {
    pub w: bool,
    pub r: bool,
}

/// Why a document is no schema.
#[derive(Clone, Copy, Debug, PartialEq, Eq, Structural)]
pub enum SchemaError {
    /// The text is not JSON, or holds objects in objects deeper than
    /// `JSON_DEPTH_LIMIT`.
    Syntax,
    /// The root is not an object.
    NonRootObject,
    /// A child is neither an object nor a string.
    UnexpectedEntity,
    /// A type is named that registers cannot have.
    UnsupportedType,
    /// `@type` holds something other than a string.
    MalformedType,
    /// `@access` holds a string other than `RO`, `WO`, `RW`.
    UnsupportedAccess,
    /// `@access` holds something other than a string.
    MalformedAccess,
    /// `@fast` holds something other than `true` or `false`.
    MalformedFast,
    /// `@priv_w` or `@priv_r` names no privilege level.
    UnsupportedPriv,
    /// `@priv_w` or `@priv_r` holds something other than a string.
    MalformedPriv,
    /// Two children of one section have the same name in Pascal case. Two
    /// members of one object with the very same key are such children where
    /// the `Json` holds both; a `Json` read from a text never does, because
    /// `serde_json` keeps only the last of them.
    DuplicateName,
}

/// What a `Register` holds.
pub struct RegisterView {
    pub path: Seq<Seq<char>>,
    pub name: Seq<char>,
    pub ty: TypeTag,
    pub meta: MetaDesc,
}

/// What a `Section` holds.
pub struct SectionView {
    pub path: Seq<Seq<char>>,
    pub name: Seq<char>,
    pub meta: MetaDesc,
    pub children: Seq<TreeView>,
}

/// What a `DslTree` holds.
pub enum TreeView {
    SectionV(SectionView),
    RegisterV(RegisterView),
}

impl TreeView {
    /// The name of the node.
    pub open spec fn name(self) -> Seq<char> {
        match self {
            TreeView::SectionV(s) => s.name,
            TreeView::RegisterV(r) => r.name,
        }
    }
}

impl View for Register {
    type V = RegisterView;

    open spec fn view(&self) -> RegisterView {
        RegisterView {
            path: strings_view(self.path@),
            name: self.name@,
            ty: self.ty,
            meta: self.meta,
        }
    }
}

/// The views of a list of nodes.
pub open spec fn trees_view(ts: Seq<DslTree>) -> Seq<TreeView>
    decreases ts, 0int,
{
    if ts.len() == 0 {
        Seq::empty()
    } else {
        trees_view(ts.drop_last()).push(tree_view(ts.last()))
    }
}

/// The view of a node.
pub open spec fn tree_view(t: DslTree) -> TreeView
    decreases t, 1int,
{
    match t {
        DslTree::SectionV(s) => TreeView::SectionV(
            SectionView {
                path: strings_view(s.path@),
                name: s.name@,
                meta: s.meta,
                children: trees_view(s.children@),
            },
        ),
        DslTree::RegisterV(r) => TreeView::RegisterV(r@),
    }
}

impl View for DslTree {
    type V = TreeView;

    open spec fn view(&self) -> TreeView {
        tree_view(*self)
    }
}

/// The view of a list of nodes is taken node by node.
pub proof fn lemma_trees_view(ts: Seq<DslTree>)
    ensures
        trees_view(ts).len() == ts.len(),
        forall|i: int| 0 <= i < ts.len() ==> (#[trigger] trees_view(ts)[i]) == tree_view(ts[i]),
    decreases ts.len(),
{
    if ts.len() > 0 {
        lemma_trees_view(ts.drop_last());
    }
}

impl MetaDesc {
    /// Read-only, not fast, open to every level: what holds where the
    /// document says nothing.
    pub open spec fn spec_default() -> MetaDesc {
        MetaDesc {
            w: false,
            r: true,
            fast: false,
            w_plvl: PrivLvl::NORMAL_LVL,
            r_plvl: PrivLvl::NORMAL_LVL,
        }
    }

    /// The rights in words: `RW`, `WO`, `RO`, or `!!` where there are none.
    pub open spec fn spec_rights(self) -> Seq<char> {
        if self.w && self.r {
            "RW"@
        } else if self.w {
            "WO"@
        } else if self.r {
            "RO"@
        } else {
            "!!"@
        }
    }

    /// The rights in words.
    pub fn rights(&self) -> (r: &'static str)
        ensures
            r@ == self.spec_rights(),
    {
        if self.w && self.r {
            "RW"
        } else if self.w {
            "WO"
        } else if self.r {
            "RO"
        } else {
            "!!"
        }
    }

    /// The rights in words, with ` fast` behind them for a fast register.
    pub open spec fn spec_describe(self) -> Seq<char> {
        if self.fast {
            self.spec_rights() + " fast"@
        } else {
            self.spec_rights()
        }
    }

    /// The rights in words, with ` fast` behind them for a fast register.
    pub fn describe(&self) -> (r: String)
        ensures
            r@ == self.spec_describe(),
    {
        let mut out = self.rights().to_owned();
        if self.fast {
            out.append(" fast");
        }
        out
    }

    /// The annotations of one object applied to `self`, in the order in
    /// which the object holds them.
    fn extract_update(self, fields: &Vec<(String, Json)>) -> (r: Result<MetaDesc, SchemaError>)
        ensures
            r == spec_extract_update(self, members_view(fields@)),
    {
        let mut meta = self;
        let n: usize = fields.len();
        let mut i: usize = 0;
        proof {
            lemma_members_view(fields@);
        }
        while i < n
            invariant
                n == fields@.len(),
                i <= n,
                members_view(fields@).len() == n,
                forall|k: int|
                    0 <= k < n ==> (#[trigger] members_view(fields@)[k]) == (
                        fields@[k].0@,
                        fields@[k].1@,
                    ),
                spec_extract_update(self, members_view(fields@).take(i as int)) == Ok::<
                    MetaDesc,
                    SchemaError,
                >(meta),
            decreases n - i,
        {
            let ghost ms = members_view(fields@);
            assert(ms.take(i + 1).drop_last() =~= ms.take(i as int));
            assert(ms.take(i + 1).last() == ms[i as int]);
            match annotate(meta, fields[i].0.as_str(), &fields[i].1) {
                Ok(m) => {
                    meta = m;
                },
                Err(e) => {
                    proof {
                        lemma_update_error_stays(self, ms, i + 1);
                    }
                    return Err(e);
                },
            }
            i = i + 1;
        }
        assert(members_view(fields@).take(n as int) =~= members_view(fields@));
        Ok(meta)
    }
}

impl Default for MetaDesc {
    fn default() -> (r: MetaDesc)
        ensures
            r == MetaDesc::spec_default(),
    {
        MetaDesc {
            w: false,
            r: true,
            fast: false,
            w_plvl: PrivLvl::NORMAL_LVL,
            r_plvl: PrivLvl::NORMAL_LVL,
        }
    }
}

/// The type that a name in the document stands for.
pub open spec fn spec_ty_convert(s: Seq<char>) -> Option<TypeTag> {
    if s == "()"@ {
        Some(TypeTag::UNIT)
    } else if s == "bool"@ {
        Some(TypeTag::BOOL)
    } else if s == "u8"@ {
        Some(TypeTag::U8)
    } else if s == "i32"@ {
        Some(TypeTag::I32)
    } else if s == "u32"@ {
        Some(TypeTag::U32)
    } else if s == "str"@ {
        Some(TypeTag::STR)
    } else if s == "[u8]"@ {
        Some(TypeTag::BYTES)
    } else {
        None
    }
}

/// The rights that a word in the document stands for.
pub open spec fn spec_access_convert(s: Seq<char>) -> Option<Access> {
    if s == "WO"@ {
        Some(Access { w: true, r: false })
    } else if s == "RO"@ {
        Some(Access { w: false, r: true })
    } else if s == "RW"@ {
        Some(Access { w: true, r: true })
    } else {
        None
    }
}

/// The privilege level that a word in the document stands for.
pub open spec fn spec_priv_convert(s: Seq<char>) -> Option<PrivLvl> {
    if s == "NORMAL"@ {
        Some(PrivLvl::NORMAL_LVL)
    } else if s == "MODE1"@ {
        Some(PrivLvl::MODE1_LVL)
    } else if s == "MODE2"@ {
        Some(PrivLvl::MODE2_LVL)
    } else if s == "MODE3"@ {
        Some(PrivLvl::MODE3_LVL)
    } else if s == "SECUR"@ {
        Some(PrivLvl::SECUR_LVL)
    } else if s == "DEVEL"@ {
        Some(PrivLvl::DEVEL_LVL)
    } else if s == "UNDEF"@ {
        Some(PrivLvl::UNDEF_LVL)
    } else {
        None
    }
}

/// One member of an object applied to `meta`: an annotation changes what it
/// names; any other member changes nothing.
pub open spec fn spec_annotate(meta: MetaDesc, key: Seq<char>, value: JsonView) -> Result<
    MetaDesc,
    SchemaError,
> {
    if key == "@access"@ {
        match value {
            JsonView::Str(s) => match spec_access_convert(s) {
                Some(a) => Ok(MetaDesc { w: a.w, r: a.r, ..meta }),
                None => Err(SchemaError::UnsupportedAccess),
            },
            _ => Err(SchemaError::MalformedAccess),
        }
    } else if key == "@fast"@ {
        match value {
            JsonView::Bool(b) => Ok(MetaDesc { fast: b, ..meta }),
            _ => Err(SchemaError::MalformedFast),
        }
    } else if key == "@priv_w"@ {
        match value {
            JsonView::Str(s) => match spec_priv_convert(s) {
                Some(l) => Ok(MetaDesc { w_plvl: l, ..meta }),
                None => Err(SchemaError::UnsupportedPriv),
            },
            _ => Err(SchemaError::MalformedPriv),
        }
    } else if key == "@priv_r"@ {
        match value {
            JsonView::Str(s) => match spec_priv_convert(s) {
                Some(l) => Ok(MetaDesc { r_plvl: l, ..meta }),
                None => Err(SchemaError::UnsupportedPriv),
            },
            _ => Err(SchemaError::MalformedPriv),
        }
    } else {
        Ok(meta)
    }
}

/// The members of an object applied to `meta`, one after the other; the
/// first that is malformed decides the error.
pub open spec fn spec_extract_update(meta: MetaDesc, members: Seq<(Seq<char>, JsonView)>) -> Result<
    MetaDesc,
    SchemaError,
>
    decreases members.len(),
{
    if members.len() == 0 {
        Ok(meta)
    } else {
        match spec_extract_update(meta, members.drop_last()) {
            Err(e) => Err(e),
            Ok(m) => spec_annotate(m, members.last().0, members.last().1),
        }
    }
}

/// The type that an object's `@type` gives, if it has one.
pub open spec fn spec_extract_ty(members: Seq<(Seq<char>, JsonView)>) -> Result<
    Option<TypeTag>,
    SchemaError,
>
    decreases members.len(),
{
    if members.len() == 0 {
        Ok(None)
    } else {
        match spec_extract_ty(members.drop_last()) {
            Err(e) => Err(e),
            Ok(found) => if members.last().0 == "@type"@ {
                match members.last().1 {
                    JsonView::Str(s) => match spec_ty_convert(s) {
                        Some(t) => Ok(Some(t)),
                        None => Err(SchemaError::UnsupportedType),
                    },
                    _ => Err(SchemaError::MalformedType),
                }
            } else {
                Ok(found)
            },
        }
    }
}

proof fn lemma_update_error_stays(meta: MetaDesc, members: Seq<(Seq<char>, JsonView)>, i: int)
    requires
        0 <= i <= members.len(),
        spec_extract_update(meta, members.take(i)) is Err,
    ensures
        spec_extract_update(meta, members) == spec_extract_update(meta, members.take(i)),
    decreases members.len() - i,
{
    if i < members.len() {
        assert(members.take(i + 1).drop_last() =~= members.take(i));
        lemma_update_error_stays(meta, members, i + 1);
    } else {
        assert(members.take(i) =~= members);
    }
}

proof fn lemma_ty_error_stays(members: Seq<(Seq<char>, JsonView)>, i: int)
    requires
        0 <= i <= members.len(),
        spec_extract_ty(members.take(i)) is Err,
    ensures
        spec_extract_ty(members) == spec_extract_ty(members.take(i)),
    decreases members.len() - i,
{
    if i < members.len() {
        assert(members.take(i + 1).drop_last() =~= members.take(i));
        lemma_ty_error_stays(members, i + 1);
    } else {
        assert(members.take(i) =~= members);
    }
}

/// The register that a leaf of the document stands for. A register of unit
/// type can only be written.
pub open spec fn spec_visit_leaf(
    path: Seq<Seq<char>>,
    name: Seq<char>,
    ty: TypeTag,
    meta: MetaDesc,
) -> TreeView {
    let meta = if ty == TypeTag::UNIT {
        MetaDesc { w: true, r: false, ..meta }
    } else {
        meta
    };
    TreeView::RegisterV(RegisterView { path, name, ty, meta })
}

/// Whether two of the nodes have the same name in Pascal case.
pub open spec fn has_duplicate_names(nodes: Seq<TreeView>) -> bool {
    exists|i: int, j: int|
        0 <= i < j < nodes.len() && camel_case(#[trigger] nodes[i].name()) == camel_case(
            #[trigger] nodes[j].name(),
        )
}

/// The children that the members of an object stand for, below `path`:
/// every member but the annotations, in order. The first child that fails
/// decides the error.
pub open spec fn spec_children(
    path: Seq<Seq<char>>,
    members: Seq<(Seq<char>, JsonView)>,
    meta: MetaDesc,
) -> Result<Seq<TreeView>, SchemaError>
    decreases members, 0int,
{
    if members.len() == 0 {
        Ok(Seq::empty())
    } else {
        match spec_children(path, members.drop_last(), meta) {
            Err(e) => Err(e),
            Ok(cs) => if spec_is_annotation(members.last().0) {
                Ok(cs)
            } else {
                match spec_visit_tree(
                    path.push(members.last().0),
                    members.last().0,
                    members.last().1,
                    meta,
                ) {
                    Ok(c) => Ok(cs.push(c)),
                    Err(e) => Err(e),
                }
            },
        }
    }
}

/// The node that an object stands for: its annotations are applied first;
/// with a `@type` it is a register, else a section of its children, whose
/// names must differ.
pub open spec fn spec_visit_node(
    path: Seq<Seq<char>>,
    name: Seq<char>,
    members: Seq<(Seq<char>, JsonView)>,
    meta: MetaDesc,
) -> Result<TreeView, SchemaError>
    decreases members, 1int,
{
    match spec_extract_update(meta, members) {
        Err(e) => Err(e),
        Ok(meta) => match spec_extract_ty(members) {
            Err(e) => Err(e),
            Ok(Some(ty)) => Ok(spec_visit_leaf(path, name, ty, meta)),
            Ok(None) => match spec_children(path, members, meta) {
                Err(e) => Err(e),
                Ok(children) => if has_duplicate_names(children) {
                    Err(SchemaError::DuplicateName)
                } else {
                    Ok(TreeView::SectionV(SectionView { path, name, meta, children }))
                },
            },
        },
    }
}

/// The node that a member of the document stands for.
pub open spec fn spec_visit_tree(
    path: Seq<Seq<char>>,
    name: Seq<char>,
    value: JsonView,
    meta: MetaDesc,
) -> Result<TreeView, SchemaError>
    decreases value, 2int,
{
    match value {
        JsonView::Object(members) => spec_visit_node(path, name, members, meta),
        JsonView::Str(s) => match spec_ty_convert(s) {
            Some(ty) => Ok(spec_visit_leaf(path, name, ty, meta)),
            None => Err(SchemaError::UnsupportedType),
        },
        _ => Err(SchemaError::UnexpectedEntity),
    }
}

/// The schema that a document stands for: a section named `Msg` with the
/// document's members as children.
pub open spec fn spec_parse_dsl(root: JsonView) -> Result<TreeView, SchemaError> {
    match root {
        JsonView::Object(members) => match spec_children(
            Seq::empty(),
            members,
            MetaDesc::spec_default(),
        ) {
            Err(e) => Err(e),
            Ok(children) => if has_duplicate_names(children) {
                Err(SchemaError::DuplicateName)
            } else {
                Ok(
                    TreeView::SectionV(
                        SectionView {
                            path: Seq::empty(),
                            name: "Msg"@,
                            meta: MetaDesc::spec_default(),
                            children,
                        },
                    ),
                )
            },
        },
        _ => Err(SchemaError::NonRootObject),
    }
}

/// The schema that a text stands for.
pub open spec fn spec_parser(text: Seq<char>) -> Result<TreeView, SchemaError> {
    match json_of_str(text) {
        None => Err(SchemaError::Syntax),
        Some(root) => spec_parse_dsl(root),
    }
}

/// Reads the name of a register type.
pub fn ty_convert(tytag: &str) -> (r: Result<TypeTag, SchemaError>)
    ensures
        match r {
            Ok(t) => spec_ty_convert(tytag@) == Some(t),
            Err(e) => spec_ty_convert(tytag@) is None && e == SchemaError::UnsupportedType,
        },
{
    if str_eq(tytag, "()") {
        Ok(TypeTag::UNIT)
    } else if str_eq(tytag, "bool") {
        Ok(TypeTag::BOOL)
    } else if str_eq(tytag, "u8") {
        Ok(TypeTag::U8)
    } else if str_eq(tytag, "i32") {
        Ok(TypeTag::I32)
    } else if str_eq(tytag, "u32") {
        Ok(TypeTag::U32)
    } else if str_eq(tytag, "str") {
        Ok(TypeTag::STR)
    } else if str_eq(tytag, "[u8]") {
        Ok(TypeTag::BYTES)
    } else {
        Err(SchemaError::UnsupportedType)
    }
}

/// Reads the rights `RO`, `WO` or `RW`.
pub fn access_convert(access: &str) -> (r: Result<Access, SchemaError>)
    ensures
        match r {
            Ok(a) => spec_access_convert(access@) == Some(a),
            Err(e) => spec_access_convert(access@) is None && e == SchemaError::UnsupportedAccess,
        },
{
    if str_eq(access, "WO") {
        Ok(Access { w: true, r: false })
    } else if str_eq(access, "RO") {
        Ok(Access { w: false, r: true })
    } else if str_eq(access, "RW") {
        Ok(Access { w: true, r: true })
    } else {
        Err(SchemaError::UnsupportedAccess)
    }
}

/// Reads the name of a privilege level.
pub fn priv_convert(level: &str) -> (r: Result<PrivLvl, SchemaError>)
    ensures
        match r {
            Ok(l) => spec_priv_convert(level@) == Some(l),
            Err(e) => spec_priv_convert(level@) is None && e == SchemaError::UnsupportedPriv,
        },
{
    if str_eq(level, "NORMAL") {
        Ok(PrivLvl::NORMAL_LVL)
    } else if str_eq(level, "MODE1") {
        Ok(PrivLvl::MODE1_LVL)
    } else if str_eq(level, "MODE2") {
        Ok(PrivLvl::MODE2_LVL)
    } else if str_eq(level, "MODE3") {
        Ok(PrivLvl::MODE3_LVL)
    } else if str_eq(level, "SECUR") {
        Ok(PrivLvl::SECUR_LVL)
    } else if str_eq(level, "DEVEL") {
        Ok(PrivLvl::DEVEL_LVL)
    } else if str_eq(level, "UNDEF") {
        Ok(PrivLvl::UNDEF_LVL)
    } else {
        Err(SchemaError::UnsupportedPriv)
    }
}

/// Whether a name is a child's and not an annotation's.
pub fn filter_nodes(name: &str) -> (r: bool)
    ensures
        r == !spec_is_annotation(name@),
{
    !is_annotation(name)
}

fn annotate(meta: MetaDesc, key: &str, value: &Json) -> (r: Result<MetaDesc, SchemaError>)
    ensures
        r == spec_annotate(meta, key@, value@),
{
    if str_eq(key, "@access") {
        match value {
            Json::Str(s) => {
                let a = access_convert(s.as_str())?;
                Ok(MetaDesc { w: a.w, r: a.r, fast: meta.fast, w_plvl: meta.w_plvl, r_plvl: meta.r_plvl })
            },
            _ => Err(SchemaError::MalformedAccess),
        }
    } else if str_eq(key, "@fast") {
        match value {
            Json::Bool(b) => Ok(
                MetaDesc { w: meta.w, r: meta.r, fast: *b, w_plvl: meta.w_plvl, r_plvl: meta.r_plvl },
            ),
            _ => Err(SchemaError::MalformedFast),
        }
    } else if str_eq(key, "@priv_w") {
        match value {
            Json::Str(s) => {
                let l = priv_convert(s.as_str())?;
                Ok(MetaDesc { w: meta.w, r: meta.r, fast: meta.fast, w_plvl: l, r_plvl: meta.r_plvl })
            },
            _ => Err(SchemaError::MalformedPriv),
        }
    } else if str_eq(key, "@priv_r") {
        match value {
            Json::Str(s) => {
                let l = priv_convert(s.as_str())?;
                Ok(MetaDesc { w: meta.w, r: meta.r, fast: meta.fast, w_plvl: meta.w_plvl, r_plvl: l })
            },
            _ => Err(SchemaError::MalformedPriv),
        }
    } else {
        Ok(meta)
    }
}

fn extract_ty(fields: &Vec<(String, Json)>) -> (r: Result<Option<TypeTag>, SchemaError>)
    ensures
        r == spec_extract_ty(members_view(fields@)),
{
    let mut ty: Option<TypeTag> = None;
    let n: usize = fields.len();
    let mut i: usize = 0;
    proof {
        lemma_members_view(fields@);
    }
    while i < n
        invariant
            n == fields@.len(),
            i <= n,
            members_view(fields@).len() == n,
            forall|k: int|
                0 <= k < n ==> (#[trigger] members_view(fields@)[k]) == (
                    fields@[k].0@,
                    fields@[k].1@,
                ),
            spec_extract_ty(members_view(fields@).take(i as int)) == Ok::<
                Option<TypeTag>,
                SchemaError,
            >(ty),
        decreases n - i,
    {
        let ghost ms = members_view(fields@);
        assert(ms.take(i + 1).drop_last() =~= ms.take(i as int));
        assert(ms.take(i + 1).last() == ms[i as int]);
        if str_eq(fields[i].0.as_str(), "@type") {
            match &fields[i].1 {
                Json::Str(s) => match ty_convert(s.as_str()) {
                    Ok(t) => {
                        ty = Some(t);
                    },
                    Err(e) => {
                        proof {
                            lemma_ty_error_stays(ms, i + 1);
                        }
                        return Err(e);
                    },
                },
                _ => {
                    proof {
                        lemma_ty_error_stays(ms, i + 1);
                    }
                    return Err(SchemaError::MalformedType);
                },
            }
        }
        i = i + 1;
    }
    assert(members_view(fields@).take(n as int) =~= members_view(fields@));
    Ok(ty)
}

/// Makes the register for a leaf of the document.
pub fn visit_leaf(path: &Vec<String>, name: &str, ty: TypeTag, meta: MetaDesc) -> (r: DslTree)
    ensures
        r@ == spec_visit_leaf(strings_view(path@), name@, ty, meta),
{
    let meta = match ty {
        TypeTag::UNIT => MetaDesc {
            w: true,
            r: false,
            fast: meta.fast,
            w_plvl: meta.w_plvl,
            r_plvl: meta.r_plvl,
        },
        _ => meta,
    };
    DslTree::RegisterV(Register { name: name.to_owned(), path: clone_strings(path), meta, ty })
}

proof fn lemma_children_error_stays(
    path: Seq<Seq<char>>,
    members: Seq<(Seq<char>, JsonView)>,
    meta: MetaDesc,
    i: int,
)
    requires
        0 <= i <= members.len(),
        spec_children(path, members.take(i), meta) is Err,
    ensures
        spec_children(path, members, meta) == spec_children(path, members.take(i), meta),
    decreases members.len() - i,
{
    if i < members.len() {
        assert(members.take(i + 1).drop_last() =~= members.take(i));
        lemma_children_error_stays(path, members, meta, i + 1);
    } else {
        assert(members.take(i) =~= members);
    }
}

/// The name of a node.
fn node_name(t: &DslTree) -> (r: &str)
    ensures
        r@ == t@.name(),
{
    match t {
        DslTree::SectionV(s) => s.name.as_str(),
        DslTree::RegisterV(r) => r.name.as_str(),
    }
}

/// Whether two of the nodes have the same name in Pascal case.
pub fn duplicate_names(nodes: &Vec<DslTree>) -> (r: bool)
    ensures
        r == has_duplicate_names(trees_view(nodes@)),
{
    let n: usize = nodes.len();
    let ghost views = trees_view(nodes@);
    proof {
        lemma_trees_view(nodes@);
    }
    let mut names: Vec<String> = Vec::new();
    let mut k: usize = 0;
    while k < n
        invariant
            n == nodes@.len(),
            k <= n,
            views == trees_view(nodes@),
            views.len() == n,
            forall|x: int| 0 <= x < n ==> (#[trigger] views[x]) == nodes@[x]@,
            names@.len() == k,
            forall|x: int| 0 <= x < k ==> (#[trigger] names@[x])@ == camel_case(views[x].name()),
        decreases n - k,
    {
        names.push(camel_case_names(node_name(&nodes[k])));
        k = k + 1;
    }
    let mut j: usize = 0;
    while j < n
        invariant
            n == nodes@.len(),
            j <= n,
            views == trees_view(nodes@),
            views.len() == n,
            names@.len() == n,
            forall|x: int| 0 <= x < n ==> (#[trigger] names@[x])@ == camel_case(views[x].name()),
            forall|a: int, b: int|
                0 <= a < b < j ==> camel_case(#[trigger] views[a].name()) != camel_case(
                    #[trigger] views[b].name(),
                ),
        decreases n - j,
    {
        let mut i: usize = 0;
        while i < j
            invariant
                j < n,
                i <= j,
                views == trees_view(nodes@),
                views.len() == n,
                names@.len() == n,
                forall|x: int|
                    0 <= x < n ==> (#[trigger] names@[x])@ == camel_case(views[x].name()),
                forall|a: int|
                    0 <= a < i ==> camel_case(#[trigger] views[a].name()) != camel_case(
                        views[j as int].name(),
                    ),
            decreases j - i,
        {
            if str_eq(names[i].as_str(), names[j].as_str()) {
                assert(camel_case(views[i as int].name()) == camel_case(views[j as int].name()));
                assert(has_duplicate_names(views));
                return true;
            }
            i = i + 1;
        }
        j = j + 1;
    }
    false
}

/// Makes the node for a member of the document.
fn visit_tree(path: &Vec<String>, name: &str, value: &Json, meta: MetaDesc) -> (r: Result<
    DslTree,
    SchemaError,
>)
    ensures
        match r {
            Ok(t) => spec_visit_tree(strings_view(path@), name@, value@, meta) == Ok::<
                TreeView,
                SchemaError,
            >(t@),
            Err(e) => spec_visit_tree(strings_view(path@), name@, value@, meta) == Err::<
                TreeView,
                SchemaError,
            >(e),
        },
    decreases value, 2int,
{
    match value {
        Json::Object(fields) => visit_node(path, name, fields, meta),
        Json::Str(ty_s) => {
            let ty = ty_convert(ty_s.as_str())?;
            Ok(visit_leaf(path, name, ty, meta))
        },
        _ => Err(SchemaError::UnexpectedEntity),
    }
}

/// Makes the node for an object of the document.
fn visit_node(path: &Vec<String>, name: &str, fields: &Vec<(String, Json)>, meta: MetaDesc) -> (r:
    Result<DslTree, SchemaError>)
    ensures
        match r {
            Ok(t) => spec_visit_node(strings_view(path@), name@, members_view(fields@), meta)
                == Ok::<TreeView, SchemaError>(t@),
            Err(e) => spec_visit_node(strings_view(path@), name@, members_view(fields@), meta)
                == Err::<TreeView, SchemaError>(e),
        },
    decreases fields, 1int,
{
    let meta = meta.extract_update(fields)?;
    match extract_ty(fields)? {
        Some(ty) => Ok(visit_leaf(path, name, ty, meta)),
        None => {
            let children = visit_children(path, fields, meta)?;
            if duplicate_names(&children) {
                return Err(SchemaError::DuplicateName);
            }
            Ok(
                DslTree::SectionV(
                    Section { name: name.to_owned(), path: clone_strings(path), meta, children },
                ),
            )
        },
    }
}

/// Makes the children for the members of an object.
fn visit_children(path: &Vec<String>, fields: &Vec<(String, Json)>, meta: MetaDesc) -> (r: Result<
    Vec<DslTree>,
    SchemaError,
>)
    ensures
        match r {
            Ok(cs) => spec_children(strings_view(path@), members_view(fields@), meta) == Ok::<
                Seq<TreeView>,
                SchemaError,
            >(trees_view(cs@)),
            Err(e) => spec_children(strings_view(path@), members_view(fields@), meta) == Err::<
                Seq<TreeView>,
                SchemaError,
            >(e),
        },
    decreases fields, 0int,
{
    let mut children: Vec<DslTree> = Vec::new();
    let n: usize = fields.len();
    let mut i: usize = 0;
    proof {
        lemma_members_view(fields@);
    }
    while i < n
        invariant
            n == fields@.len(),
            i <= n,
            members_view(fields@).len() == n,
            forall|k: int|
                0 <= k < n ==> (#[trigger] members_view(fields@)[k]) == (
                    fields@[k].0@,
                    fields@[k].1@,
                ),
            spec_children(strings_view(path@), members_view(fields@).take(i as int), meta) == Ok::<
                Seq<TreeView>,
                SchemaError,
            >(trees_view(children@)),
        decreases n - i,
    {
        let ghost ms = members_view(fields@);
        assert(ms.take(i + 1).drop_last() =~= ms.take(i as int));
        assert(ms.take(i + 1).last() == ms[i as int]);
        let name = fields[i].0.as_str();
        if filter_nodes(name) {
            let mut new_path = clone_strings(path);
            new_path.push(name.to_owned());
            assert(strings_view(new_path@) =~= strings_view(path@).push(name@));
            match visit_tree(&new_path, name, &fields[i].1, meta) {
                Ok(c) => {
                    let ghost before = children@;
                    children.push(c);
                    assert(children@.drop_last() =~= before);
                },
                Err(e) => {
                    proof {
                        lemma_children_error_stays(strings_view(path@), ms, meta, i + 1);
                    }
                    return Err(e);
                },
            }
        }
        i = i + 1;
    }
    assert(members_view(fields@).take(n as int) =~= members_view(fields@));
    Ok(children)
}

/// Makes the schema for a document.
pub fn parse_dsl(root: &Json) -> (r: Result<DslTree, SchemaError>)
    ensures
        match r {
            Ok(t) => spec_parse_dsl(root@) == Ok::<TreeView, SchemaError>(t@),
            Err(e) => spec_parse_dsl(root@) == Err::<TreeView, SchemaError>(e),
        },
{
    let meta = MetaDesc::default();
    let path: Vec<String> = Vec::new();
    match root {
        Json::Object(fields) => {
            assert(strings_view(path@) =~= Seq::<Seq<char>>::empty());
            let children = visit_children(&path, fields, meta)?;
            if duplicate_names(&children) {
                return Err(SchemaError::DuplicateName);
            }
            Ok(DslTree::SectionV(Section { path, name: "Msg".to_owned(), meta, children }))
        },
        _ => Err(SchemaError::NonRootObject),
    }
}

/// Reads a schema from the text of a JSON document.
///
/// Where the text repeats a key within one object, `serde_json` keeps the
/// last member under that key and drops the others before the schema is
/// looked at: such a text is read as if it held that member alone, and gives
/// no `DuplicateName`. `DuplicateName` comes for keys that differ in the text
/// and coincide in Pascal case. `parse_dsl` on a `Json` that holds both
/// members of a repeated key does refuse them.
pub fn parser(dsl: &str) -> (r: Result<DslTree, SchemaError>)
    ensures
        match r {
            Ok(t) => spec_parser(dsl@) == Ok::<TreeView, SchemaError>(t@),
            Err(e) => spec_parser(dsl@) == Err::<TreeView, SchemaError>(e),
        },
{
    match json_from_str(dsl) {
        Some(root) => parse_dsl(&root),
        None => Err(SchemaError::Syntax),
    }
}

/// The registers of a node, in the order of the document.
pub open spec fn registers(t: TreeView) -> Seq<RegisterView>
    decreases t, 1int,
{
    match t {
        TreeView::RegisterV(r) => seq![r],
        TreeView::SectionV(s) => registers_of(s.children),
    }
}

/// The registers of a list of nodes, in order.
pub open spec fn registers_of(ts: Seq<TreeView>) -> Seq<RegisterView>
    decreases ts, 0int,
{
    if ts.len() == 0 {
        Seq::empty()
    } else {
        registers_of(ts.drop_last()) + registers(ts.last())
    }
}

/// What each of the registers holds.
pub open spec fn regs_view(rs: Seq<&Register>) -> Seq<RegisterView> {
    Seq::new(rs.len(), |i: int| rs[i]@)
}

fn collect_regs<'a>(t: &'a DslTree, out: &mut Vec<&'a Register>)
    ensures
        regs_view(final(out)@) == regs_view(old(out)@) + registers(t@),
    decreases t, 1int,
{
    match t {
        DslTree::RegisterV(r) => {
            out.push(r);
            assert(regs_view(out@) =~= regs_view(old(out)@) + registers(t@));
        },
        DslTree::SectionV(section) => {
            collect_regs_of(&section.children, out);
        },
    }
}

fn collect_regs_of<'a>(children: &'a Vec<DslTree>, out: &mut Vec<&'a Register>)
    ensures
        regs_view(final(out)@) == regs_view(old(out)@) + registers_of(trees_view(children@)),
    decreases children, 0int,
{
    let n: usize = children.len();
    let ghost views = trees_view(children@);
    proof {
        lemma_trees_view(children@);
    }
    let mut i: usize = 0;
    assert(regs_view(out@) =~= regs_view(old(out)@) + registers_of(views.take(0)));
    while i < n
        invariant
            n == children@.len(),
            i <= n,
            views == trees_view(children@),
            views.len() == n,
            forall|k: int| 0 <= k < n ==> (#[trigger] views[k]) == children@[k]@,
            regs_view(out@) == regs_view(old(out)@) + registers_of(views.take(i as int)),
        decreases n - i,
    {
        assert(views.take(i + 1).drop_last() =~= views.take(i as int));
        assert(views.take(i + 1).last() == views[i as int]);
        collect_regs(&children[i], out);
        assert(regs_view(out@) =~= regs_view(old(out)@) + registers_of(views.take(i + 1)));
        i = i + 1;
    }
    assert(views.take(n as int) =~= views);
}

/// The number of nodes of a tree.
pub open spec fn node_count(t: DslTree) -> nat
    decreases t, 1int,
{
    match t {
        DslTree::RegisterV(_) => 1,
        DslTree::SectionV(s) => 1 + node_count_of(s.children@),
    }
}

/// The number of nodes of a list of trees.
pub open spec fn node_count_of(ts: Seq<DslTree>) -> nat
    decreases ts, 0int,
{
    if ts.len() == 0 {
        0
    } else {
        node_count_of(ts.drop_last()) + node_count(ts.last())
    }
}

/// Whether `out`, which begins with what `f` gave for `t`, goes on with what
/// walking the children of `t` gives: one value for each node, each section
/// before its children.
pub open spec fn accum_below<A: Clone, F: Fn(&DslTree, A) -> A>(
    t: DslTree,
    f: F,
    out: Seq<A>,
) -> bool
    decreases t, 1int,
{
    out.len() == node_count(t) && match t {
        DslTree::RegisterV(_) => true,
        DslTree::SectionV(s) => accum_outcome_of(s.children@, f, out[0], out.skip(1)),
    }
}

/// Whether `out` is what walking each of `ts` gives, one walk behind the
/// other, where `f` is called on each of `ts` with a clone of `parent`.
pub open spec fn accum_outcome_of<A: Clone, F: Fn(&DslTree, A) -> A>(
    ts: Seq<DslTree>,
    f: F,
    parent: A,
    out: Seq<A>,
) -> bool
    decreases ts, 0int,
{
    if ts.len() == 0 {
        out.len() == 0
    } else {
        let k = out.len() - node_count(ts.last());
        &&& k >= 0
        &&& accum_outcome_of(ts.drop_last(), f, parent, out.take(k))
        &&& exists|c: A| cloned::<A>(parent, c) && #[trigger] call_ensures(f, (&ts.last(), c), out[k])
        &&& accum_below(ts.last(), f, out.skip(k))
    }
}

/// Whether `out` is what walking `t` gives when `f` is called on `t` with
/// `a`, and on each node below with a clone of what `f` gave for the section
/// that holds it.
pub open spec fn accum_outcome<A: Clone, F: Fn(&DslTree, A) -> A>(
    t: DslTree,
    f: F,
    a: A,
    out: Seq<A>,
) -> bool {
    out.len() >= 1 && call_ensures(f, (&t, a), out[0]) && accum_below(t, f, out)
}

fn accum_into<A: Clone, F: Fn(&DslTree, A) -> A>(t: &DslTree, f: &F, a: A, out: &mut Vec<A>)
    requires
        forall|node: &DslTree, x: A| call_requires(*f, (node, x)),
    ensures
        final(out)@.len() == old(out)@.len() + node_count(*t),
        final(out)@.take(old(out)@.len() as int) == old(out)@,
        call_ensures(*f, (t, a), final(out)@[old(out)@.len() as int]),
        accum_below(*t, *f, final(out)@.skip(old(out)@.len() as int)),
    decreases t, 1int,
{
    let start: usize = out.len();
    let b = f(t, a);
    out.push(b);
    assert(out@.take(start as int) =~= old(out)@);
    match t {
        DslTree::RegisterV(_) => {},
        DslTree::SectionV(section) => {
            accum_children(&section.children, f, start, out);
            assert(out@.skip(start as int).skip(1) =~= out@.skip(start + 1));
            assert(out@.take(start as int) =~= out@.take(start + 1).take(start as int));
            assert(out@[start as int] == out@.take(start + 1)[start as int]);
        },
    }
}

fn accum_children<A: Clone, F: Fn(&DslTree, A) -> A>(
    children: &Vec<DslTree>,
    f: &F,
    start: usize,
    out: &mut Vec<A>,
)
    requires
        forall|node: &DslTree, x: A| call_requires(*f, (node, x)),
        old(out)@.len() == start + 1,
    ensures
        final(out)@.len() == start + 1 + node_count_of(children@),
        final(out)@.take(start + 1) == old(out)@,
        accum_outcome_of(children@, *f, old(out)@[start as int], final(out)@.skip(start + 1)),
    decreases children, 0int,
{
    let n: usize = children.len();
    let mut i: usize = 0;
    let ghost b = out@[start as int];
    assert(children@.take(0).len() == 0);
    assert(out@.skip(start + 1).len() == 0);
    assert(out@.take(start + 1) =~= old(out)@);
    while i < n
        invariant
            n == children@.len(),
            i <= n,
            out@.len() == start + 1 + node_count_of(children@.take(i as int)),
            out@.take(start + 1) == old(out)@,
            old(out)@.len() == start + 1,
            b == old(out)@[start as int],
            forall|node: &DslTree, x: A| call_requires(*f, (node, x)),
            accum_outcome_of(children@.take(i as int), *f, b, out@.skip(start + 1)),
        decreases n - i,
    {
        assert(out@[start as int] == out@.take(start + 1)[start as int]);
        let c = out[start].clone();
        let ghost before = out@;
        let ghost k = before.len() - (start + 1);
        accum_into(&children[i], f, c, out);
        proof {
            let tail = out@.skip(start + 1);
            let ts = children@.take(i + 1);
            assert(ts.drop_last() =~= children@.take(i as int));
            assert(ts.last() == children@[i as int]);
            assert(out@.take(start + 1) =~= out@.take(before.len() as int).take(start + 1));
            assert(tail.take(k) =~= before.skip(start + 1)) by {
                assert forall|j: int| 0 <= j < k implies tail.take(k)[j] == before.skip(
                    start + 1,
                )[j] by {
                    assert(out@.take(before.len() as int)[start + 1 + j] == out@[start + 1 + j]);
                }
            }
            assert(tail.skip(k) =~= out@.skip(before.len() as int));
            assert(tail[k] == out@[before.len() as int]);
            assert(cloned::<A>(b, c));
            assert(call_ensures(*f, (&ts.last(), c), tail[k]));
            assert(k == tail.len() - node_count(ts.last()));
        }
        i = i + 1;
    }
    assert(children@.take(n as int) =~= children@);
}

/// A node and all nodes below it, each section before its children, in the
/// order of the document.
pub open spec fn nodes(t: TreeView) -> Seq<TreeView>
    decreases t, 1int,
{
    match t {
        TreeView::RegisterV(_) => seq![t],
        TreeView::SectionV(s) => seq![t] + nodes_of(s.children),
    }
}

/// The nodes of a list of nodes and all below them.
pub open spec fn nodes_of(ts: Seq<TreeView>) -> Seq<TreeView>
    decreases ts, 0int,
{
    if ts.len() == 0 {
        Seq::empty()
    } else {
        nodes_of(ts.drop_last()) + nodes(ts.last())
    }
}

/// What each of the nodes holds.
pub open spec fn trees_ref_view(ts: Seq<&DslTree>) -> Seq<TreeView> {
    Seq::new(ts.len(), |i: int| ts[i]@)
}

fn collect_nodes<'a>(t: &'a DslTree, out: &mut Vec<&'a DslTree>)
    ensures
        trees_ref_view(final(out)@) == trees_ref_view(old(out)@) + nodes(t@),
    decreases t, 1int,
{
    out.push(t);
    assert(trees_ref_view(out@) =~= trees_ref_view(old(out)@) + seq![t@]);
    match t {
        DslTree::RegisterV(_) => {},
        DslTree::SectionV(section) => {
            collect_nodes_of(&section.children, out);
            assert(trees_ref_view(out@) =~= trees_ref_view(old(out)@) + nodes(t@));
        },
    }
}

fn collect_nodes_of<'a>(children: &'a Vec<DslTree>, out: &mut Vec<&'a DslTree>)
    ensures
        trees_ref_view(final(out)@) == trees_ref_view(old(out)@) + nodes_of(trees_view(children@)),
    decreases children, 0int,
{
    let n: usize = children.len();
    let ghost views = trees_view(children@);
    proof {
        lemma_trees_view(children@);
    }
    let mut i: usize = 0;
    assert(trees_ref_view(out@) =~= trees_ref_view(old(out)@) + nodes_of(views.take(0)));
    while i < n
        invariant
            n == children@.len(),
            i <= n,
            views == trees_view(children@),
            views.len() == n,
            forall|k: int| 0 <= k < n ==> (#[trigger] views[k]) == children@[k]@,
            trees_ref_view(out@) == trees_ref_view(old(out)@) + nodes_of(views.take(i as int)),
        decreases n - i,
    {
        assert(views.take(i + 1).drop_last() =~= views.take(i as int));
        assert(views.take(i + 1).last() == views[i as int]);
        collect_nodes(&children[i], out);
        assert(trees_ref_view(out@) =~= trees_ref_view(old(out)@) + nodes_of(views.take(i + 1)));
        i = i + 1;
    }
    assert(views.take(n as int) =~= views);
}

impl DslTree {
    /// This node and all below it, each section before its children.
    pub fn all_nodes(&self) -> (r: Vec<&DslTree>)
        ensures
            trees_ref_view(r@) == nodes(self@),
    {
        let mut out: Vec<&DslTree> = Vec::new();
        collect_nodes(self, &mut out);
        assert(trees_ref_view(out@) =~= nodes(self@));
        out
    }

    /// Calls `f` on this node and on all below it, each section before its
    /// children, and returns what `f` gave, in this order.
    pub fn visit<T, F: Fn(&DslTree) -> T>(&self, f: &F) -> (r: Vec<T>)
        requires
            forall|node: &DslTree| call_requires(*f, (node,)),
        ensures
            r@.len() == nodes(self@).len(),
            forall|i: int|
                0 <= i < r@.len() ==> exists|node: &DslTree|
                    node@ == nodes(self@)[i] && call_ensures(*f, (node,), #[trigger] r@[i]),
    {
        let all = self.all_nodes();
        let mut out: Vec<T> = Vec::new();
        let n: usize = all.len();
        let mut i: usize = 0;
        while i < n
            invariant
                n == all@.len(),
                i <= n,
                out@.len() == i,
                trees_ref_view(all@) == nodes(self@),
                forall|node: &DslTree| call_requires(*f, (node,)),
                forall|k: int|
                    0 <= k < i ==> exists|node: &DslTree|
                        node@ == nodes(self@)[k] && call_ensures(*f, (node,), #[trigger] out@[k]),
            decreases n - i,
        {
            let node: &DslTree = all[i];
            assert(trees_ref_view(all@)[i as int] == node@);
            let x = f(node);
            out.push(x);
            assert(node@ == nodes(self@)[i as int] && call_ensures(*f, (node,), out@[i as int]));
            i = i + 1;
        }
        out
    }

    /// Walks the tree with a value that is handed down: `f` is called on
    /// this node with `a`, then on each child with a clone of what `f` gave
    /// for the node, and so on down. Returns what `f` gave for each node,
    /// each section before its children.
    pub fn visit_accum<A: Clone, F: Fn(&DslTree, A) -> A>(&self, f: &F, a: A) -> (r: Vec<A>)
        requires
            forall|node: &DslTree, x: A| call_requires(*f, (node, x)),
        ensures
            accum_outcome(*self, *f, a, r@),
    {
        let mut out: Vec<A> = Vec::new();
        accum_into(self, f, a, &mut out);
        assert(out@.skip(0) =~= out@);
        out
    }

    /// Calls `f` on each register below this node, in the order of the
    /// document, and returns what `f` gave, in this order.
    pub fn visit_regs<T, F: Fn(&Register) -> T>(&self, f: &F) -> (r: Vec<T>)
        requires
            forall|reg: &Register| call_requires(*f, (reg,)),
        ensures
            r@.len() == registers(self@).len(),
            forall|i: int|
                0 <= i < r@.len() ==> exists|reg: &Register|
                    reg@ == registers(self@)[i] && call_ensures(*f, (reg,), #[trigger] r@[i]),
    {
        let regs = self.regs();
        let mut out: Vec<T> = Vec::new();
        let n: usize = regs.len();
        let mut i: usize = 0;
        while i < n
            invariant
                n == regs@.len(),
                i <= n,
                out@.len() == i,
                regs_view(regs@) == registers(self@),
                forall|reg: &Register| call_requires(*f, (reg,)),
                forall|k: int|
                    0 <= k < i ==> exists|reg: &Register|
                        reg@ == registers(self@)[k] && call_ensures(*f, (reg,), #[trigger] out@[k]),
            decreases n - i,
        {
            let reg: &Register = regs[i];
            assert(regs_view(regs@)[i as int] == reg@);
            let x = f(reg);
            out.push(x);
            assert(reg@ == registers(self@)[i as int] && call_ensures(*f, (reg,), out@[i as int]));
            i = i + 1;
        }
        out
    }

    /// The registers below this node, in the order of the document.
    pub fn regs(&self) -> (r: Vec<&Register>)
        ensures
            regs_view(r@) == registers(self@),
    {
        let mut out: Vec<&Register> = Vec::new();
        collect_regs(self, &mut out);
        assert(regs_view(out@) =~= registers(self@));
        out
    }
}

fn copy_tree(t: &DslTree) -> (r: DslTree)
    ensures
        r@ == t@,
    decreases t, 1int,
{
    match t {
        DslTree::SectionV(s) => DslTree::SectionV(
            Section {
                path: clone_strings(&s.path),
                name: s.name.clone(),
                meta: s.meta,
                children: copy_trees(&s.children),
            },
        ),
        DslTree::RegisterV(r) => DslTree::RegisterV(
            Register { path: clone_strings(&r.path), name: r.name.clone(), ty: r.ty, meta: r.meta },
        ),
    }
}

fn copy_trees(ts: &Vec<DslTree>) -> (r: Vec<DslTree>)
    ensures
        trees_view(r@) == trees_view(ts@),
    decreases ts, 0int,
{
    let mut out: Vec<DslTree> = Vec::new();
    let n: usize = ts.len();
    let mut i: usize = 0;
    assert(ts@.take(0) =~= Seq::<DslTree>::empty());
    while i < n
        invariant
            n == ts@.len(),
            i <= n,
            trees_view(out@) == trees_view(ts@.take(i as int)),
        decreases n - i,
    {
        assert(ts@.take(i + 1).drop_last() =~= ts@.take(i as int));
        let ghost before = out@;
        out.push(copy_tree(&ts[i]));
        assert(out@.drop_last() =~= before);
        i = i + 1;
    }
    assert(ts@.take(n as int) =~= ts@);
    out
}

impl Clone for DslTree {
    fn clone(&self) -> (r: DslTree)
        ensures
            r@ == self@,
    {
        copy_tree(self)
    }
}

impl Clone for Section {
    fn clone(&self) -> (r: Section)
        ensures
            DslTree::SectionV(r)@ == DslTree::SectionV(*self)@,
    {
        Section {
            path: clone_strings(&self.path),
            name: self.name.clone(),
            meta: self.meta,
            children: copy_trees(&self.children),
        }
    }
}

impl Clone for Register {
    fn clone(&self) -> (r: Register)
        ensures
            r@ == self@,
    {
        Register {
            path: clone_strings(&self.path),
            name: self.name.clone(),
            ty: self.ty,
            meta: self.meta,
        }
    }
}

} // verus!
