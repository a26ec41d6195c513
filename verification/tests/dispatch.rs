use std::cell::Cell;

use ellocopo2::dispatch::{
    dispatch_table, find_register, req2msg, serve, Action, Dispatch, RegDesc, Served,
};
use ellocopo2::priv_lvl::PrivLvl;
use ellocopo2::schema::{parser, MetaDesc};
use ellocopo2::{AnswerCode, RequestCode, TypeTag, Value};

const SCHEME: &str = r#"{
    "ctrl": {
        "@access": "RW",
        "vis": "bool",
        "record": { "@type": "bool", "@access": "RO" },
        "reset": "()",
        "key": { "@type": "u32", "@access": "WO", "@priv_w": "SECUR", "@priv_r": "DEVEL" }
    },
    "io": {
        "@fast": true,
        "pos": { "@type": "u32", "@access": "RW", "@priv_r": "MODE2" }
    },
    "name": "str"
}"#;

fn table() -> Vec<RegDesc> {
    dispatch_table(&parser(SCHEME).unwrap())
}

fn all_values() -> Vec<Value<'static>> {
    vec![
        Value::UNIT(()),
        Value::BOOL(true),
        Value::I32(1),
        Value::I16(1),
        Value::I8(1),
        Value::U32(1),
        Value::U16(1),
        Value::U8(1),
        Value::STR("s"),
        Value::BYTES(&[1]),
    ]
}

#[test]
fn table_of_the_schema() {
    let t = table();
    let paths: Vec<&str> = t.iter().map(|r| r.path.as_str()).collect();
    assert_eq!(
        paths,
        ["/ctrl/key", "/ctrl/record", "/ctrl/reset", "/ctrl/vis", "/io/pos", "/name"]
    );
    assert_eq!(
        t[0],
        RegDesc {
            path: "/ctrl/key".to_string(),
            ty: TypeTag::U32,
            meta: MetaDesc {
                w: true,
                r: false,
                fast: false,
                w_plvl: PrivLvl::SECUR_LVL,
                r_plvl: PrivLvl::DEVEL_LVL,
            },
        }
    );
    assert_eq!(find_register(&t, "/io/pos"), Some(4));
    assert_eq!(find_register(&t, "/io"), None);
}

#[test]
fn unknown_path() {
    let t = table();
    assert_eq!(
        req2msg(&t, RequestCode::READ, "/nope", Value::UNIT(()), PrivLvl::NORMAL_LVL),
        Err(AnswerCode::ERR_PATH)
    );
    for v in all_values() {
        for code in [RequestCode::READ, RequestCode::WRITE] {
            assert_eq!(
                req2msg(&t, code, "/ctrl", v, PrivLvl::UNDEF_LVL),
                Err(AnswerCode::ERR_PATH)
            );
            assert_eq!(req2msg(&t, code, "", v, PrivLvl::UNDEF_LVL), Err(AnswerCode::ERR_PATH));
        }
    }
}

#[test]
fn type_mismatch() {
    let t = table();
    assert_eq!(
        req2msg(&t, RequestCode::WRITE, "/ctrl/vis", Value::U32(1), PrivLvl::NORMAL_LVL),
        Err(AnswerCode::ERR_TYPE)
    );
}

#[test]
fn rights_decide_err_path() {
    let t = table();
    for row in &t {
        for v in all_values() {
            for code in [RequestCode::READ, RequestCode::WRITE] {
                let permitted = match code {
                    RequestCode::READ => row.meta.r,
                    RequestCode::WRITE => row.meta.w,
                };
                let refused =
                    req2msg(&t, code, &row.path, v, PrivLvl::UNDEF_LVL) == Err(AnswerCode::ERR_PATH);
                assert_eq!(refused, !permitted);
            }
        }
    }
}

#[test]
fn wrong_type_and_read_with_value() {
    let t = table();
    for row in &t {
        for v in all_values() {
            for lvl in [PrivLvl::NORMAL_LVL, PrivLvl::UNDEF_LVL] {
                if row.meta.w && v.tag() != row.ty {
                    assert_eq!(
                        req2msg(&t, RequestCode::WRITE, &row.path, v, lvl),
                        Err(AnswerCode::ERR_TYPE)
                    );
                }
                if row.meta.r && v != Value::UNIT(()) {
                    assert_eq!(
                        req2msg(&t, RequestCode::READ, &row.path, v, lvl),
                        Err(AnswerCode::ERR_TYPE)
                    );
                }
            }
        }
    }
}

#[test]
fn levels_and_success() {
    let t = table();
    assert_eq!(
        req2msg(&t, RequestCode::WRITE, "/ctrl/key", Value::U32(7), PrivLvl::MODE3_LVL),
        Err(AnswerCode::ERR_USER)
    );
    assert_eq!(
        req2msg(&t, RequestCode::WRITE, "/ctrl/key", Value::U32(7), PrivLvl::SECUR_LVL),
        Ok(Dispatch { reg: 0, fast: false, action: Action::Write(Value::U32(7)) })
    );
    assert_eq!(
        req2msg(&t, RequestCode::READ, "/io/pos", Value::UNIT(()), PrivLvl::MODE1_LVL),
        Err(AnswerCode::ERR_USER)
    );
    assert_eq!(
        req2msg(&t, RequestCode::READ, "/io/pos", Value::UNIT(()), PrivLvl::MODE2_LVL),
        Ok(Dispatch { reg: 4, fast: true, action: Action::Read })
    );
    assert_eq!(
        req2msg(&t, RequestCode::WRITE, "/io/pos", Value::U32(9), PrivLvl::NORMAL_LVL),
        Ok(Dispatch { reg: 4, fast: true, action: Action::Write(Value::U32(9)) })
    );
    assert_eq!(
        req2msg(&t, RequestCode::WRITE, "/ctrl/reset", Value::UNIT(()), PrivLvl::NORMAL_LVL),
        Ok(Dispatch { reg: 2, fast: false, action: Action::Write(Value::UNIT(())) })
    );
    assert_eq!(
        req2msg(&t, RequestCode::READ, "/name", Value::UNIT(()), PrivLvl::NORMAL_LVL),
        Ok(Dispatch { reg: 5, fast: false, action: Action::Read })
    );
    // The type is looked at before the level.
    assert_eq!(
        req2msg(&t, RequestCode::WRITE, "/ctrl/key", Value::U8(7), PrivLvl::NORMAL_LVL),
        Err(AnswerCode::ERR_TYPE)
    );
}

#[test]
fn first_row_wins() {
    let m = MetaDesc {
        w: true,
        r: true,
        fast: false,
        w_plvl: PrivLvl::NORMAL_LVL,
        r_plvl: PrivLvl::NORMAL_LVL,
    };
    let t = vec![
        RegDesc { path: "/a".to_string(), ty: TypeTag::U8, meta: m },
        RegDesc { path: "/a".to_string(), ty: TypeTag::U16, meta: m },
    ];
    assert_eq!(
        req2msg(&t, RequestCode::WRITE, "/a", Value::U16(1), PrivLvl::NORMAL_LVL),
        Err(AnswerCode::ERR_TYPE)
    );
    assert_eq!(
        req2msg(&t, RequestCode::WRITE, "/a", Value::U8(1), PrivLvl::NORMAL_LVL),
        Ok(Dispatch { reg: 0, fast: false, action: Action::Write(Value::U8(1)) })
    );
}

#[test]
fn privilege_levels() {
    let levels = [
        (PrivLvl::NORMAL_LVL, 0u8),
        (PrivLvl::MODE1_LVL, 1),
        (PrivLvl::MODE2_LVL, 2),
        (PrivLvl::MODE3_LVL, 3),
        (PrivLvl::SECUR_LVL, 100),
        (PrivLvl::DEVEL_LVL, 254),
        (PrivLvl::UNDEF_LVL, 255),
    ];
    for (i, (a, n)) in levels.iter().enumerate() {
        assert_eq!(a.level(), *n);
        assert_eq!(PrivLvl::from_level(*n), Some(*a));
        for (j, (b, _)) in levels.iter().enumerate() {
            assert_eq!(a.allows(*b), i >= j);
            assert_eq!(a < b, i < j);
        }
    }
    assert_eq!(PrivLvl::from_level(4), None);
    assert_eq!(PrivLvl::try_from(100u8), Ok(PrivLvl::SECUR_LVL));
    assert_eq!(PrivLvl::try_from(99u8), Err(()));
    assert_eq!(u8::from(PrivLvl::DEVEL_LVL), 254);
    assert_eq!(PrivLvl::from_level(253), None);
}

#[test]
fn fast_registers_are_served() {
    let t = table();
    let reads = Cell::new(0u32);
    let writes = Cell::new(0u32);
    let cb_r = |reg: usize| -> Result<u32, AnswerCode> {
        reads.set(reads.get() + 1);
        Ok(1000 + reg as u32)
    };
    let cb_w = |reg: usize, v: Value<'static>| -> Result<u32, AnswerCode> {
        writes.set(writes.get() + 1);
        match v {
            Value::U32(7) => Err(AnswerCode::ERR_LOCK),
            Value::U32(x) => Ok(x + reg as u32),
            _ => Err(AnswerCode::ERR_USER),
        }
    };
    // A fast register: what the callback returned comes back unchanged.
    assert_eq!(
        serve(&t, RequestCode::READ, "/io/pos", Value::UNIT(()), PrivLvl::MODE2_LVL, &cb_r, &cb_w),
        Ok(Served::Fast(Ok(1004)))
    );
    assert_eq!(
        serve(&t, RequestCode::WRITE, "/io/pos", Value::U32(9), PrivLvl::NORMAL_LVL, &cb_r, &cb_w),
        Ok(Served::Fast(Ok(13)))
    );
    assert_eq!(
        serve(&t, RequestCode::WRITE, "/io/pos", Value::U32(7), PrivLvl::NORMAL_LVL, &cb_r, &cb_w),
        Ok(Served::Fast(Err(AnswerCode::ERR_LOCK)))
    );
    assert_eq!((reads.get(), writes.get()), (1, 2));
    // A request that fails a check reaches no callback.
    assert_eq!(
        serve(&t, RequestCode::READ, "/io/pos", Value::UNIT(()), PrivLvl::MODE1_LVL, &cb_r, &cb_w),
        Err(AnswerCode::ERR_USER)
    );
    assert_eq!(
        serve(&t, RequestCode::WRITE, "/io/pos", Value::U8(9), PrivLvl::UNDEF_LVL, &cb_r, &cb_w),
        Err(AnswerCode::ERR_TYPE)
    );
    assert_eq!(
        serve(&t, RequestCode::READ, "/io/nope", Value::UNIT(()), PrivLvl::UNDEF_LVL, &cb_r, &cb_w),
        Err(AnswerCode::ERR_PATH)
    );
    // A register that is not fast is passed on as a message.
    assert_eq!(
        serve(&t, RequestCode::WRITE, "/ctrl/vis", Value::BOOL(true), PrivLvl::NORMAL_LVL, &cb_r, &cb_w),
        Ok(Served::Msg(Dispatch { reg: 3, fast: false, action: Action::Write(Value::BOOL(true)) }))
    );
    assert_eq!((reads.get(), writes.get()), (1, 2));
}
