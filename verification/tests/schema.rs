use ellocopo2::json::{json_from_str, Json};
use ellocopo2::priv_lvl::PrivLvl;
use ellocopo2::schema::{
    access_convert, duplicate_names, filter_nodes, parse_dsl, parser, priv_convert, ty_convert,
    visit_leaf, Access, DslTree, MetaDesc, Register, SchemaError, Section,
};
use ellocopo2::TypeTag;

const SCHEME: &str = r#"{
    "@access": "WO",
    "ctrl": {
        "@access": "RW",
        "vis": "bool",
        "record": { "@type": "bool", "@access": "RO" },
        "reset": "()"
    },
    "survey": {
        "name": "str",
        "sur_name": { "@type": "str", "@access": "RW", "@priv_w": "SECUR" }
    },
    "io": {
        "@fast": true,
        "file": { "pos": { "@type": "u32", "@access": "RW" }, "raw": "[u8]" },
        "slow": { "@fast": false, "@type": "i32" }
    }
}"#;

fn meta(w: bool, r: bool, fast: bool) -> MetaDesc {
    MetaDesc { w, r, fast, w_plvl: PrivLvl::NORMAL_LVL, r_plvl: PrivLvl::NORMAL_LVL }
}

fn strings(names: &[&str]) -> Vec<String> {
    names.iter().map(|s| s.to_string()).collect()
}

fn reg(path: &[&str], ty: TypeTag, meta: MetaDesc) -> DslTree {
    DslTree::RegisterV(Register {
        path: strings(path),
        name: path[path.len() - 1].to_string(),
        ty,
        meta,
    })
}

fn sec(path: &[&str], name: &str, meta: MetaDesc, children: Vec<DslTree>) -> DslTree {
    DslTree::SectionV(Section { path: strings(path), name: name.to_string(), meta, children })
}

fn obj(members: Vec<(&str, Json)>) -> Json {
    Json::Object(members.into_iter().map(|(k, v)| (k.to_string(), v)).collect())
}

fn s(text: &str) -> Json {
    Json::Str(text.to_string())
}

#[test]
fn schema_tree() {
    let tree = parser(SCHEME).unwrap();
    let secur = MetaDesc {
        w: true,
        r: true,
        fast: false,
        w_plvl: PrivLvl::SECUR_LVL,
        r_plvl: PrivLvl::NORMAL_LVL,
    };
    // Children come in the order of the document as serde_json holds it:
    // sorted by name. Annotations of the root are passed over.
    let expected = sec(
        &[],
        "Msg",
        meta(false, true, false),
        vec![
            sec(
                &["ctrl"],
                "ctrl",
                meta(true, true, false),
                vec![
                    reg(&["ctrl", "record"], TypeTag::BOOL, meta(false, true, false)),
                    reg(&["ctrl", "reset"], TypeTag::UNIT, meta(true, false, false)),
                    reg(&["ctrl", "vis"], TypeTag::BOOL, meta(true, true, false)),
                ],
            ),
            sec(
                &["io"],
                "io",
                meta(false, true, true),
                vec![
                    sec(
                        &["io", "file"],
                        "file",
                        meta(false, true, true),
                        vec![
                            reg(&["io", "file", "pos"], TypeTag::U32, meta(true, true, true)),
                            reg(&["io", "file", "raw"], TypeTag::BYTES, meta(false, true, true)),
                        ],
                    ),
                    reg(&["io", "slow"], TypeTag::I32, meta(false, true, false)),
                ],
            ),
            sec(
                &["survey"],
                "survey",
                meta(false, true, false),
                vec![
                    reg(&["survey", "name"], TypeTag::STR, meta(false, true, false)),
                    reg(&["survey", "sur_name"], TypeTag::STR, secur),
                ],
            ),
        ],
    );
    assert_eq!(tree, expected);
}

#[test]
fn schema_from_a_tree_by_hand() {
    let doc = obj(vec![
        ("b", s("u8")),
        ("@type", s("u32")),
        ("a", obj(vec![("@type", s("()")), ("child", s("bool"))])),
        ("e", obj(vec![])),
    ]);
    let tree = parse_dsl(&doc).unwrap();
    let expected = sec(
        &[],
        "Msg",
        meta(false, true, false),
        vec![
            reg(&["b"], TypeTag::U8, meta(false, true, false)),
            reg(&["a"], TypeTag::UNIT, meta(true, false, false)),
            sec(&["e"], "e", meta(false, true, false), vec![]),
        ],
    );
    assert_eq!(tree, expected);
    assert_eq!(json_from_str(r#"{"b": "u8", "n": 1, "l": [true], "z": null}"#).unwrap(), obj(vec![
        ("b", s("u8")),
        ("l", Json::Array),
        ("n", Json::Number),
        ("z", Json::Null),
    ]));
    assert_eq!(json_from_str("tru"), None);
}

#[test]
fn schema_errors() {
    assert_eq!(parser("{").unwrap_err(), SchemaError::Syntax);
    assert_eq!(parser("[]").unwrap_err(), SchemaError::NonRootObject);
    assert_eq!(parser(r#"{"a": 5}"#).unwrap_err(), SchemaError::UnexpectedEntity);
    assert_eq!(parser(r#"{"a": [1]}"#).unwrap_err(), SchemaError::UnexpectedEntity);
    assert_eq!(parser(r#"{"a": "u64"}"#).unwrap_err(), SchemaError::UnsupportedType);
    assert_eq!(parser(r#"{"a": "i16"}"#).unwrap_err(), SchemaError::UnsupportedType);
    assert_eq!(parser(r#"{"a": {"@type": "f32"}}"#).unwrap_err(), SchemaError::UnsupportedType);
    assert_eq!(parser(r#"{"a": {"@type": 1}}"#).unwrap_err(), SchemaError::MalformedType);
    assert_eq!(parser(r#"{"a": {"@access": "XX"}}"#).unwrap_err(), SchemaError::UnsupportedAccess);
    assert_eq!(parser(r#"{"a": {"@access": true}}"#).unwrap_err(), SchemaError::MalformedAccess);
    assert_eq!(parser(r#"{"a": {"@fast": "yes"}}"#).unwrap_err(), SchemaError::MalformedFast);
    assert_eq!(parser(r#"{"a": {"@priv_r": "ROOT"}}"#).unwrap_err(), SchemaError::UnsupportedPriv);
    assert_eq!(parser(r#"{"a": {"@priv_w": 3}}"#).unwrap_err(), SchemaError::MalformedPriv);
    assert_eq!(
        parser(r#"{"s": {"sur_name": "u8", "surName": "u8"}}"#).unwrap_err(),
        SchemaError::DuplicateName
    );
    assert_eq!(
        parser(r#"{"a_b": "u8", "a/b": "u8"}"#).unwrap_err(),
        SchemaError::DuplicateName
    );
    // The annotations of an object are read before its children.
    assert_eq!(
        parser(r#"{"a": {"@access": "XX", "b": 5}}"#).unwrap_err(),
        SchemaError::UnsupportedAccess
    );
    let twice = obj(vec![("a", s("u8")), ("a", s("u8"))]);
    assert_eq!(parse_dsl(&twice).unwrap_err(), SchemaError::DuplicateName);
    assert_eq!(parse_dsl(&Json::Null).unwrap_err(), SchemaError::NonRootObject);
}

#[test]
fn deep_documents() {
    let nested = |levels: usize| {
        let mut text = String::new();
        for _ in 0..levels {
            text.push_str("{\"a\": ");
        }
        text.push_str("\"u8\"");
        for _ in 0..levels {
            text.push('}');
        }
        text
    };
    let tree = parser(&nested(100)).unwrap();
    let regs = tree.regs();
    assert_eq!(regs.len(), 1);
    assert_eq!(regs[0].path.len(), 100);
    assert_eq!(parser(&nested(200)).unwrap_err(), SchemaError::Syntax);
}

#[test]
fn words_of_the_schema() {
    assert_eq!(ty_convert("()"), Ok(TypeTag::UNIT));
    assert_eq!(ty_convert("bool"), Ok(TypeTag::BOOL));
    assert_eq!(ty_convert("u8"), Ok(TypeTag::U8));
    assert_eq!(ty_convert("i32"), Ok(TypeTag::I32));
    assert_eq!(ty_convert("u32"), Ok(TypeTag::U32));
    assert_eq!(ty_convert("str"), Ok(TypeTag::STR));
    assert_eq!(ty_convert("[u8]"), Ok(TypeTag::BYTES));
    assert_eq!(ty_convert("u16"), Err(SchemaError::UnsupportedType));
    assert_eq!(access_convert("WO"), Ok(Access { w: true, r: false }));
    assert_eq!(access_convert("RO"), Ok(Access { w: false, r: true }));
    assert_eq!(access_convert("RW"), Ok(Access { w: true, r: true }));
    assert_eq!(access_convert("rw"), Err(SchemaError::UnsupportedAccess));
    assert_eq!(priv_convert("NORMAL"), Ok(PrivLvl::NORMAL_LVL));
    assert_eq!(priv_convert("MODE1"), Ok(PrivLvl::MODE1_LVL));
    assert_eq!(priv_convert("MODE2"), Ok(PrivLvl::MODE2_LVL));
    assert_eq!(priv_convert("MODE3"), Ok(PrivLvl::MODE3_LVL));
    assert_eq!(priv_convert("SECUR"), Ok(PrivLvl::SECUR_LVL));
    assert_eq!(priv_convert("DEVEL"), Ok(PrivLvl::DEVEL_LVL));
    assert_eq!(priv_convert("UNDEF"), Ok(PrivLvl::UNDEF_LVL));
    assert_eq!(priv_convert(""), Err(SchemaError::UnsupportedPriv));
    assert!(filter_nodes("ctrl"));
    assert!(filter_nodes(""));
    assert!(!filter_nodes("@type"));
    assert_eq!(MetaDesc::default(), meta(false, true, false));
    assert_eq!(meta(true, true, false).rights(), "RW");
    assert_eq!(meta(true, false, false).rights(), "WO");
    assert_eq!(meta(false, true, true).rights(), "RO");
    assert_eq!(meta(false, false, false).rights(), "!!");
    assert_eq!(meta(true, true, true).describe(), "RW fast");
    assert_eq!(meta(false, true, false).describe(), "RO");
}

#[test]
fn leaves_and_duplicates() {
    let path = strings(&["a", "b"]);
    assert_eq!(
        visit_leaf(&path, "b", TypeTag::UNIT, meta(false, true, true)),
        reg(&["a", "b"], TypeTag::UNIT, meta(true, false, true))
    );
    assert_eq!(
        visit_leaf(&path, "b", TypeTag::U8, meta(false, true, false)),
        reg(&["a", "b"], TypeTag::U8, meta(false, true, false))
    );
    let m = meta(false, true, false);
    assert!(!duplicate_names(&vec![]));
    assert!(!duplicate_names(&vec![reg(&["a"], TypeTag::U8, m), reg(&["b"], TypeTag::U8, m)]));
    assert!(duplicate_names(&vec![
        reg(&["a"], TypeTag::U8, m),
        reg(&["b"], TypeTag::U8, m),
        sec(&["_a"], "_a", m, vec![]),
    ]));
}

#[test]
fn walking_the_tree() {
    let tree = parser(SCHEME).unwrap();
    let names: Vec<String> = tree.visit_regs(&|r: &Register| r.name.clone());
    assert_eq!(names, ["record", "reset", "vis", "pos", "raw", "slow", "name", "sur_name"]);
    let regs = tree.regs();
    assert_eq!(regs.len(), 8);
    assert_eq!(regs[3].path, ["io", "file", "pos"]);
    let kinds: Vec<bool> = tree.visit(&|t: &DslTree| matches!(t, DslTree::SectionV(_)));
    assert_eq!(
        kinds,
        [true, true, false, false, false, true, true, false, false, false, true, false, false]
    );
    assert_eq!(tree.all_nodes().len(), 13);
    // Each node gets what its section got, and adds one: its depth.
    let depths: Vec<u32> = tree.visit_accum(&|_: &DslTree, depth: u32| depth + 1, 0);
    assert_eq!(depths, [1, 2, 3, 3, 3, 2, 3, 4, 4, 3, 2, 3, 3]);
    let labels: Vec<String> = tree.visit_accum(
        &|t: &DslTree, above: String| match t {
            DslTree::SectionV(s) => above + &s.name + ".",
            DslTree::RegisterV(r) => above + &r.name,
        },
        String::new(),
    );
    assert_eq!(labels[0], "Msg.");
    assert_eq!(labels[4], "Msg.ctrl.vis");
    assert_eq!(labels[7], "Msg.io.file.pos");
    assert_eq!(tree.clone(), tree);
}
