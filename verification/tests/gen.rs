use ellocopo2::dispatch::dispatch_table;
use ellocopo2::gen::{
    convert_ty, dispatch_arms, dispatch_source, finish, gen, generate, level_name, msg_enum_def, preproc, source,
    Arm, EnumCtor, GenError, GenerateError,
};
use ellocopo2::priv_lvl::PrivLvl;
use ellocopo2::schema::{parser, DslTree, MetaDesc, Register, SchemaError, Section};
use ellocopo2::text::{camel_case_names, clone_strings, is_annotation, join_strings, str_eq};
use ellocopo2::TypeTag;

const SCHEME: &str = r#"{
    "ctrl": {
        "vis": {"@type": "str", "@access": "RW"},
        "lvl": {"@type": "u8", "@priv_w": "DEVEL"}
    },
    "go_now": {"@fast": true, "@type": "()"}
}"#;

const TYPES: &str = "#[allow(non_camel_case_types)] #[derive(Debug, Clone, Copy, PartialEq, Eq)] pub enum Ctrl<'a> { Lvl_R, Vis_W(&'a str), Vis_R, } #[allow(non_camel_case_types)] #[derive(Debug, Clone, Copy, PartialEq, Eq)] pub enum Msg<'a> { Ctrl(Ctrl<'a>), } ";

const DISPATCH: &str = "pub fn req2msg<'a>(code: RequestCode, path: &str, v: Value<'a>, sys_lvl: PrivLvl) -> DispatchResult<'a> { match path { \"/ctrl/lvl\" => { if code == RequestCode::READ { let _: () = map_ty_error!(v); } impl_arm!(RO, code, sys_lvl, PrivLvl::DEVEL_LVL, PrivLvl::NORMAL_LVL, Msg::Ctrl(Ctrl::Lvl_R)) } \"/ctrl/vis\" => { if code == RequestCode::READ { let _: () = map_ty_error!(v); } impl_arm!(RW, code, sys_lvl, PrivLvl::NORMAL_LVL, PrivLvl::NORMAL_LVL, Msg::Ctrl(Ctrl::Vis_W(map_ty_error!(v))), Msg::Ctrl(Ctrl::Vis_R)) } \"/go_now\" => { impl_arm!(FAST, WO, code, sys_lvl, PrivLvl::NORMAL_LVL, PrivLvl::NORMAL_LVL, cb_go_now_w((map_ty_error!(v)))) } _ => { DispatchResult::Err(AnswerCode::ERR_PATH) } } }";

fn meta(w: bool, r: bool, fast: bool) -> MetaDesc {
    MetaDesc { w, r, fast, w_plvl: PrivLvl::NORMAL_LVL, r_plvl: PrivLvl::NORMAL_LVL }
}

fn root(children: Vec<DslTree>) -> DslTree {
    DslTree::SectionV(Section {
        path: vec![],
        name: "Msg".to_string(),
        meta: meta(false, true, false),
        children,
    })
}

fn reg(name: &str, ty: TypeTag, meta: MetaDesc) -> DslTree {
    DslTree::RegisterV(Register {
        path: vec![name.to_string()],
        name: name.to_string(),
        ty,
        meta,
    })
}

#[test]
fn source_text() {
    let tree = preproc(parser(SCHEME).unwrap());
    let stream = msg_enum_def(&tree);
    assert_eq!(stream.def, TYPES);
    assert_eq!(stream.vars, "Msg(Msg<'a>), ");
    assert!(stream.lf);
    let arms = dispatch_arms(&tree);
    assert_eq!(arms.len(), 3);
    assert!(arms[0].guard);
    assert!(arms[1].guard);
    assert_eq!(
        arms[2],
        Arm {
            left: "/go_now".to_string(),
            guard: false,
            right: "impl_arm!(FAST, WO, code, sys_lvl, PrivLvl::NORMAL_LVL, PrivLvl::NORMAL_LVL, cb_go_now_w((map_ty_error!(v))))".to_string(),
        }
    );
    let expected = format!("pub mod msg {{ {}}} pub use msg::*; {}", TYPES, DISPATCH);
    assert_eq!(source(&tree), expected);
}

#[test]
fn generated_tokens() {
    let out = generate(r#"{"a b": {"@fast": true, "@type": "u8"}}"#).unwrap();
    assert_eq!(
        out,
        "pub mod msg { # [allow (non_camel_case_types)] # [derive (Debug , Clone , Copy , PartialEq , Eq)] pub enum Msg { } } pub use msg ::*; pub fn req2msg <'a > (code : RequestCode , path : & str , v : Value <'a >, sys_lvl : PrivLvl) -> DispatchResult <'a > { match path { \"/a b\" => { if code == RequestCode :: READ { let _ : () = map_ty_error ! (v) ; } impl_arm ! (FAST , RO , code , sys_lvl , PrivLvl :: NORMAL_LVL , PrivLvl :: NORMAL_LVL , cb_a b_r ()) } _ => { DispatchResult :: Err (AnswerCode :: ERR_PATH) } } }"
    );
    // The path is written as a string literal, with what that asks for.
    let arms = vec![
        Arm { left: "/a\"b\\".to_string(), guard: false, right: "x".to_string() },
        Arm { left: "/c".to_string(), guard: true, right: "y".to_string() },
    ];
    assert!(dispatch_source(&arms).contains(
        r#"match path { "/a\"b\\" => { x } "/c" => { if code == RequestCode::READ { let _: () = map_ty_error!(v); } y } _ =>"#
    ));
    assert_eq!(gen(parser(SCHEME).unwrap()), generate(SCHEME).map_err(|_| GenError::InvalidSource));
}

#[test]
fn fast_sections_give_no_types() {
    let tree = preproc(parser(r#"{"io": {"@fast": true, "pos": "u32"}, "x": "bool"}"#).unwrap());
    let stream = msg_enum_def(&tree);
    assert_eq!(
        stream.def,
        "#[allow(non_camel_case_types)] #[derive(Debug, Clone, Copy, PartialEq, Eq)] pub enum Msg { X_R, } "
    );
    assert!(!stream.lf);
    let arms = dispatch_arms(&tree);
    assert_eq!(arms[0].left, "/io/pos");
    assert_eq!(
        arms[0].right,
        "impl_arm!(FAST, RO, code, sys_lvl, PrivLvl::NORMAL_LVL, PrivLvl::NORMAL_LVL, cb_io_pos_r())"
    );
    // The arms of the generated function are the rows of the dispatch table.
    let table = dispatch_table(&tree);
    assert_eq!(arms.len(), table.len());
    for (arm, row) in arms.iter().zip(table.iter()) {
        assert_eq!(arm.left, row.path);
        assert_eq!(arm.guard, row.meta.r);
    }
    assert_eq!(
        arms[1].right,
        "impl_arm!(RO, code, sys_lvl, PrivLvl::NORMAL_LVL, PrivLvl::NORMAL_LVL, Msg::X_R)"
    );
}

#[test]
fn nested_sections() {
    let tree = preproc(parser(r#"{"a": {"b": {"c_d": {"@type": "[u8]", "@access": "WO"}}}}"#).unwrap());
    let arms = dispatch_arms(&tree);
    assert_eq!(arms[0].left, "/a/b/c_d");
    assert_eq!(
        arms[0].right,
        "impl_arm!(WO, code, sys_lvl, PrivLvl::NORMAL_LVL, PrivLvl::NORMAL_LVL, Msg::A(A::B(B::CD_W(map_ty_error!(v)))))"
    );
    let stream = msg_enum_def(&tree);
    assert_eq!(
        stream.def,
        "#[allow(non_camel_case_types)] #[derive(Debug, Clone, Copy, PartialEq, Eq)] pub enum B<'a> { CD_W(&'a [u8]), } #[allow(non_camel_case_types)] #[derive(Debug, Clone, Copy, PartialEq, Eq)] pub enum A<'a> { B(B<'a>), } #[allow(non_camel_case_types)] #[derive(Debug, Clone, Copy, PartialEq, Eq)] pub enum Msg<'a> { A(A<'a>), } "
    );
}

#[test]
fn generator_errors() {
    assert_eq!(generate("[]").unwrap_err(), GenerateError::Schema(SchemaError::NonRootObject));
    assert_eq!(
        generate(r#"{"a-b": "bool"}"#).unwrap_err(),
        GenerateError::Gen(GenError::InvalidName)
    );
    assert_eq!(
        generate(r#"{"-": {"x": "bool"}}"#).unwrap_err(),
        GenerateError::Gen(GenError::InvalidName)
    );
    assert_eq!(
        generate(r#"{"q\"x": {"@fast": true, "@type": "u8"}}"#).unwrap_err(),
        GenerateError::Gen(GenError::InvalidArm)
    );
    assert_eq!(
        gen(root(vec![reg("a", TypeTag::I16, meta(true, true, false))])),
        Err(GenError::UnsupportedType)
    );
    // A type that no variant carries does no harm.
    assert!(gen(root(vec![reg("a", TypeTag::I16, meta(false, true, false))])).is_ok());
    assert!(gen(root(vec![reg("a", TypeTag::U16, meta(true, true, true))])).is_ok());
    assert_eq!(
        gen(root(vec![reg("a", TypeTag::U8, meta(false, false, false))])),
        Err(GenError::NoAccess)
    );
    // A literal of a kind that arms have no use for is read as any other.
    assert!(generate(r#"{") + c\"y\" + (": {"@fast": true, "@type": "u8"}}"#).is_ok());
    assert_eq!(finish(None), Err(GenError::InvalidSource));
    assert_eq!(finish(Some("x".to_string())), Ok("x".to_string()));
}

#[test]
fn names_in_generated_code() {
    assert_eq!(convert_ty(TypeTag::UNIT), "()");
    assert_eq!(convert_ty(TypeTag::BOOL), "bool");
    assert_eq!(convert_ty(TypeTag::U8), "u8");
    assert_eq!(convert_ty(TypeTag::I32), "i32");
    assert_eq!(convert_ty(TypeTag::U32), "u32");
    assert_eq!(convert_ty(TypeTag::STR), "&'a str");
    assert_eq!(convert_ty(TypeTag::BYTES), "&'a [u8]");
    assert_eq!(level_name(PrivLvl::SECUR_LVL), "PrivLvl::SECUR_LVL");
    assert_eq!(level_name(PrivLvl::UNDEF_LVL), "PrivLvl::UNDEF_LVL");
    let mut ctor = EnumCtor::new();
    assert_eq!(ctor.text(), "");
    ctor.pre.push("Msg".to_string());
    ctor.pre.push("::Ctrl".to_string());
    ctor.pre.push("(".to_string());
    ctor.pre.push("Ctrl".to_string());
    ctor.post.push(")".to_string());
    let ctor = ctor.with_val("::Vis_R".to_string());
    assert_eq!(ctor.text(), "Msg::Ctrl(Ctrl::Vis_R)");
}

#[test]
fn pascal_case() {
    assert_eq!(camel_case_names("sur_name"), "SurName");
    assert_eq!(camel_case_names("ctrl"), "Ctrl");
    assert_eq!(camel_case_names("a/b_cd__e"), "ABCdE");
    assert_eq!(camel_case_names("ßa"), "SSa");
    assert_eq!(camel_case_names("Msg"), "Msg");
    assert_eq!(camel_case_names(""), "");
    assert_eq!(camel_case_names("_"), "");
    assert_eq!(camel_case_names("привет_мир"), "ПриветМир");
}

#[test]
fn strings() {
    assert!(str_eq("", ""));
    assert!(str_eq("abc", "abc"));
    assert!(!str_eq("abc", "abd"));
    assert!(!str_eq("abc", "ab"));
    assert!(is_annotation("@type"));
    assert!(!is_annotation("type"));
    assert!(!is_annotation(""));
    let parts = vec!["io".to_string(), "file".to_string(), "pos".to_string()];
    assert_eq!(join_strings(&parts, "/"), "io/file/pos");
    assert_eq!(join_strings(&parts, ""), "iofilepos");
    assert_eq!(join_strings(&vec![], "/"), "");
    assert_eq!(join_strings(&vec!["a".to_string()], "/"), "a");
    assert_eq!(clone_strings(&parts), parts);
}
