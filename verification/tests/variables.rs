use embedded_rust_debugger::evaluator::{
    ArrayTypeValue, BaseTypeValue, CallFrame, EnumerationTypeValue, EnumeratorValue,
    EvaluatedVariable, EvaluatorValue, MemberValue, PointerTypeValue, SourceInformation,
    StructureTypeValue, SubrangeTypeValue, UnionTypeValue, UnwoundFrame, VariantPartValue,
    VariantValue,
};
use embedded_rust_debugger::variable::{is_all_renderable, resolve_stack_trace, StackFrame, Variable};

fn source() -> SourceInformation {
    SourceInformation {
        directory: Some("/work/src".to_string()),
        file: Some("main.rs".to_string()),
        line: Some(12),
        column: None,
    }
}

fn variable(name: &str, value: EvaluatorValue) -> EvaluatedVariable {
    EvaluatedVariable { name: Some(name.to_string()), value, source: Some(source()) }
}

fn shown(value: EvaluatorValue) -> Variable {
    Variable::resolve_varialbe(&variable("v", value)).unwrap()
}

fn base(value: BaseTypeValue) -> EvaluatorValue {
    EvaluatorValue::Value(value)
}

fn member(name: &str, value: EvaluatorValue) -> MemberValue {
    MemberValue { name: Some(name.to_string()), value }
}

fn field(name: &str, value: EvaluatorValue) -> EvaluatorValue {
    EvaluatorValue::Member(Box::new(member(name, value)))
}

fn text_and_type(value: BaseTypeValue) -> (String, String) {
    let v = shown(base(value));
    (v.value, v.type_)
}

fn pair(value: &str, type_: &str) -> (String, String) {
    (value.to_string(), type_.to_string())
}

fn frame(name: &str, variables: Vec<EvaluatedVariable>) -> UnwoundFrame {
    UnwoundFrame {
        call_frame: CallFrame {
            id: 1,
            registers: [None; 16],
            code_location: 0x8000,
            cfa: Some(0x2000_0000),
            start_address: 0x7ff0,
            end_address: 0x8010,
        },
        name: name.to_string(),
        source: source(),
        variables,
    }
}

#[test]
fn unsigned_numbers_are_decimal() {
    assert_eq!(text_and_type(BaseTypeValue::U8(255)), pair("255", "::u8"));
    assert_eq!(text_and_type(BaseTypeValue::U16(65535)), pair("65535", "::u16"));
    assert_eq!(text_and_type(BaseTypeValue::U32(1_000_000)), pair("1000000", "::u32"));
    assert_eq!(
        text_and_type(BaseTypeValue::U64(u64::MAX)),
        pair("18446744073709551615", "::u64")
    );
    assert_eq!(text_and_type(BaseTypeValue::Generic(0)), pair("0", "::<unknown>"));
}

#[test]
fn signed_numbers_are_decimal() {
    assert_eq!(text_and_type(BaseTypeValue::I8(-128)), pair("-128", "::i8"));
    assert_eq!(text_and_type(BaseTypeValue::I8(127)), pair("127", "::i8"));
    assert_eq!(text_and_type(BaseTypeValue::I16(-300)), pair("-300", "::i16"));
    assert_eq!(text_and_type(BaseTypeValue::I32(i32::MIN)), pair("-2147483648", "::i32"));
    assert_eq!(text_and_type(BaseTypeValue::I64(-1)), pair("-1", "::i64"));
    assert_eq!(
        text_and_type(BaseTypeValue::I64(i64::MIN)),
        pair("-9223372036854775808", "::i64")
    );
    assert_eq!(
        text_and_type(BaseTypeValue::I64(i64::MAX)),
        pair("9223372036854775807", "::i64")
    );
}

#[test]
fn truth_values_are_words() {
    assert_eq!(text_and_type(BaseTypeValue::Bool(true)), pair("true", "::bool"));
    assert_eq!(text_and_type(BaseTypeValue::Bool(false)), pair("false", "::bool"));
}

#[test]
fn addresses_are_hexadecimal_in_ten_columns() {
    assert_eq!(
        text_and_type(BaseTypeValue::Address32(0x2000_0abc)),
        pair("'Address' 0x20000abc", "::<32 bit address>")
    );
    assert_eq!(
        text_and_type(BaseTypeValue::Address32(0)),
        pair("'Address'        0x0", "::<32 bit address>")
    );
}

#[test]
fn floating_point_numbers_are_written() {
    assert_eq!(text_and_type(BaseTypeValue::F32(1.5f32.to_bits())), pair("1.5", "::f32"));
    assert_eq!(text_and_type(BaseTypeValue::F64((-0.25f64).to_bits())), pair("-0.25", "::f63"));
}

#[test]
fn unsigned_reading_of_base_types() {
    assert_eq!(BaseTypeValue::U8(7).get_udata(), Some(7));
    assert_eq!(BaseTypeValue::Generic(9).get_udata(), Some(9));
    assert_eq!(BaseTypeValue::U64(u64::MAX).get_udata(), Some(u64::MAX));
    assert_eq!(BaseTypeValue::I8(7).get_udata(), None);
    assert_eq!(BaseTypeValue::Bool(true).get_udata(), None);
    assert_eq!(BaseTypeValue::Address32(4).get_udata(), None);
}

#[test]
fn bytes_are_listed() {
    let v = shown(EvaluatorValue::Bytes(vec![1, 20, 255]));
    assert_eq!(v.value, "EndianSlice { slice: [1, 20, 255], endian: LittleEndian }");
    assert_eq!(v.type_, "::< Bytes >");
    let none = shown(EvaluatorValue::Bytes(vec![]));
    assert_eq!(none.value, "EndianSlice { slice: [], endian: LittleEndian }");
}

#[test]
fn values_without_content() {
    assert_eq!(shown(EvaluatorValue::OptimizedOut).value, "< OptimizedOut >");
    assert_eq!(shown(EvaluatorValue::ZeroSize).value, "< OptimizedOut >");
    assert_eq!(shown(EvaluatorValue::LocationOutOfRange).value, "< LocationOutOfRange >");
    assert_eq!(shown(EvaluatorValue::OptimizedOut).type_, "");
}

#[test]
fn pointers_show_what_they_point_to() {
    let v = shown(EvaluatorValue::PointerTypeValue(Box::new(PointerTypeValue {
        name: Some("&u8".to_string()),
        value: base(BaseTypeValue::U8(3)),
    })));
    assert_eq!((v.value, v.type_), pair("3", "::&u8::u8"));
    let v = shown(EvaluatorValue::PointerTypeValue(Box::new(PointerTypeValue {
        name: None,
        value: base(BaseTypeValue::U8(3)),
    })));
    assert_eq!((v.value, v.type_), pair("3", "::u8"));
}

#[test]
fn structs_have_their_fields_as_parts() {
    let v = shown(EvaluatorValue::Struct(Box::new(StructureTypeValue {
        name: "Point".to_string(),
        members: vec![
            field("x", base(BaseTypeValue::I32(-4))),
            field("y", base(BaseTypeValue::I32(5))),
        ],
    })));
    assert_eq!(v.value, "Point");
    assert_eq!(v.type_, "::Point");
    assert_eq!(v.children.len(), 2);
    assert_eq!(v.children[0].name, Some("x".to_string()));
    assert_eq!(v.children[0].value, "-4");
    assert_eq!(v.children[0].type_, "::i32");
    assert_eq!(v.children[0].source.as_ref().unwrap().line, Some(12));
    assert_eq!(v.children[1].name, Some("y".to_string()));
    assert_eq!(v.children[1].value, "5");
}

#[test]
fn unions_keep_their_value() {
    let v = shown(EvaluatorValue::Union(Box::new(UnionTypeValue {
        name: "Either".to_string(),
        members: vec![field("a", base(BaseTypeValue::U8(1)))],
    })));
    assert_eq!(v.value, "This should be overwritten with the correct value");
    assert_eq!(v.type_, "::Either");
    assert_eq!(v.children.len(), 1);
}

#[test]
fn arrays_have_their_length_and_elements_as_parts() {
    let v = shown(EvaluatorValue::Array(Box::new(ArrayTypeValue {
        subrange_type_value: SubrangeTypeValue { count: Some(2), base_type_value: None },
        values: vec![base(BaseTypeValue::U8(7)), EvaluatorValue::OptimizedOut],
    })));
    assert_eq!(v.value, "");
    assert_eq!(v.type_, "");
    assert_eq!(v.children.len(), 3);
    assert_eq!(v.children[0].name, Some("< Length >".to_string()));
    assert_eq!(v.children[0].value, "2");
    assert_eq!(v.children[0].type_, "u64");
    assert_eq!(v.children[1].name, Some("__0".to_string()));
    assert_eq!(v.children[1].value, "7");
    assert_eq!(v.children[2].name, Some("__1".to_string()));
    assert_eq!(v.children[2].value, "< OptimizedOut >");
}

#[test]
fn array_bounds_are_a_part_where_known() {
    let evaluated = shown(EvaluatorValue::SubrangeTypeValue(SubrangeTypeValue {
        count: None,
        base_type_value: Some(BaseTypeValue::U32(11)),
    }));
    assert_eq!(evaluated.children.len(), 1);
    assert_eq!(evaluated.children[0].value, "11");
    assert_eq!(evaluated.children[0].type_, "::u32");
    let unknown = shown(EvaluatorValue::SubrangeTypeValue(SubrangeTypeValue {
        count: None,
        base_type_value: None,
    }));
    assert_eq!(unknown.children.len(), 0);
}

#[test]
fn enums_without_data_show_the_last_matching_name() {
    let enumerator = |name: Option<&str>, const_value: u64| EnumeratorValue {
        name: name.map(|n| n.to_string()),
        const_value,
    };
    let of = |n: u8| {
        shown(EvaluatorValue::Enum(Box::new(EnumerationTypeValue {
            name: "Color".to_string(),
            variant: base(BaseTypeValue::U8(n)),
            enumerators: vec![
                enumerator(Some("Red"), 0),
                enumerator(Some("Green"), 1),
                enumerator(Some("Lime"), 1),
                enumerator(None, 1),
                enumerator(None, 2),
            ],
        })))
    };
    let v = of(1);
    assert_eq!(v.name, Some("Color".to_string()));
    assert_eq!((v.value, v.type_), pair("Lime", "::Color"));
    assert_eq!(of(0).value, "Red");
    assert_eq!(of(2).value, "< OptimizedOut >");
    assert_eq!(of(9).value, "< OptimizedOut >");
}

#[test]
fn variants_of_an_enum_with_data() {
    let v = shown(EvaluatorValue::VariantPartValue(Box::new(VariantPartValue {
        variant: Some(MemberValue { name: None, value: base(BaseTypeValue::U8(1)) }),
        variants: vec![
            VariantValue {
                discr_value: Some(10),
                child: member("Some", base(BaseTypeValue::U8(4))),
            },
            VariantValue { discr_value: None, child: member("None", EvaluatorValue::ZeroSize) },
        ],
    })));
    assert_eq!(v.children.len(), 3);
    assert_eq!(v.children[0].name, Some("< Variant >".to_string()));
    assert_eq!(v.children[0].value, "1");
    assert_eq!(v.children[1].name, None);
    assert_eq!(v.children[1].value, "10");
    assert_eq!(v.children[1].type_, "u64");
    assert_eq!(v.children[1].children[0].name, Some("Some".to_string()));
    assert_eq!(v.children[1].children[0].value, "4");
    assert_eq!(v.children[2].value, "< OptimizedOut >");
    let named = shown(EvaluatorValue::VariantPartValue(Box::new(VariantPartValue {
        variant: Some(member("tag", base(BaseTypeValue::U8(1)))),
        variants: vec![],
    })));
    assert_eq!(named.children[0].name, Some("tag".to_string()));
}

#[test]
fn a_single_variant_is_a_part() {
    let v = shown(EvaluatorValue::VariantValue(Box::new(VariantValue {
        discr_value: Some(2),
        child: member("B", base(BaseTypeValue::Bool(true))),
    })));
    assert_eq!(v.children.len(), 1);
    assert_eq!(v.children[0].children[0].value, "true");
}

#[test]
fn evaluation_takes_nothing_away() {
    let v = shown(EvaluatorValue::Struct(Box::new(StructureTypeValue {
        name: "S".to_string(),
        members: vec![
            field("a", base(BaseTypeValue::U8(1))),
            EvaluatorValue::Union(Box::new(UnionTypeValue {
                name: "U".to_string(),
                members: vec![field("b", base(BaseTypeValue::U8(2)))],
            })),
        ],
    })));
    assert_eq!(v.type_, "::S::U");
    let names: Vec<Option<String>> = v.children.iter().map(|c| c.name.clone()).collect();
    assert_eq!(names, vec![Some("a".to_string()), Some("b".to_string())]);
}

#[test]
fn enums_of_other_types_cannot_be_written() {
    let of = |variant: EvaluatorValue| {
        EvaluatorValue::Enum(Box::new(EnumerationTypeValue {
            name: "E".to_string(),
            variant,
            enumerators: vec![],
        }))
    };
    assert!(of(base(BaseTypeValue::U16(1))).is_renderable());
    assert!(!of(base(BaseTypeValue::I8(1))).is_renderable());
    assert!(!of(EvaluatorValue::OptimizedOut).is_renderable());
    let inside = field("e", of(base(BaseTypeValue::Bool(true))));
    assert!(!inside.is_renderable());
    assert!(!is_all_renderable(&vec![frame("f", vec![variable("e", inside)])]));
}

#[test]
fn frames_are_resolved_in_order() {
    let trace = resolve_stack_trace(vec![
        frame("inner", vec![variable("a", base(BaseTypeValue::U8(1)))]),
        frame("outer", vec![]),
    ])
    .unwrap();
    assert_eq!(trace.len(), 2);
    assert_eq!(trace[0].name, "inner");
    assert_eq!(trace[0].call_frame.code_location, 0x8000);
    assert_eq!(trace[0].source.file, Some("main.rs".to_string()));
    assert_eq!(trace[0].variables.len(), 1);
    assert_eq!(trace[0].variables[0].value, "1");
    assert_eq!(trace[1].name, "outer");
    assert!(trace[1].variables.is_empty());
}

#[test]
fn the_first_variable_of_a_name_is_found() {
    let unnamed = EvaluatedVariable {
        name: None,
        value: base(BaseTypeValue::U8(0)),
        source: None,
    };
    let resolved = StackFrame::resolve_stackframe(&frame(
        "f",
        vec![
            unnamed,
            variable("x", base(BaseTypeValue::U8(1))),
            variable("x", base(BaseTypeValue::U8(2))),
        ],
    ))
    .unwrap();
    assert_eq!(resolved.find_variable("x").unwrap().value, "1");
    assert!(resolved.find_variable("y").is_none());
    assert_eq!(resolved.clone().find_variable("x").unwrap().value, "1");
}

#[test]
fn a_pointer_adds_no_part_of_its_own() {
    let target = || {
        EvaluatorValue::Struct(Box::new(StructureTypeValue {
            name: "Point".to_string(),
            members: vec![field("x", base(BaseTypeValue::I32(-4)))],
        }))
    };
    let mut through = shown(EvaluatorValue::OptimizedOut);
    let value = EvaluatorValue::PointerTypeValue(Box::new(PointerTypeValue {
        name: Some("*const Point".to_string()),
        value: target(),
    }));
    assert!(value.is_renderable());
    through.evaluate(&value, &None).unwrap();
    let mut direct = shown(EvaluatorValue::OptimizedOut);
    direct.type_ = "::*const Point".to_string();
    direct.evaluate(&target(), &None).unwrap();
    assert_eq!(through.type_, "::*const Point::Point");
    assert_eq!(format!("{:?}", through), format!("{:?}", direct));
}

fn lines(variable: &Variable) -> Vec<Option<u64>> {
    let mut all = vec![variable.source.as_ref().and_then(|s| s.line)];
    for child in &variable.children {
        all.extend(lines(child));
    }
    all
}

#[test]
fn parts_at_any_depth_have_the_source_location() {
    let inner = EvaluatorValue::Array(Box::new(ArrayTypeValue {
        subrange_type_value: SubrangeTypeValue { count: Some(1), base_type_value: None },
        values: vec![field("z", base(BaseTypeValue::U8(1)))],
    }));
    let v = shown(EvaluatorValue::VariantPartValue(Box::new(VariantPartValue {
        variant: Some(member("tag", base(BaseTypeValue::U8(0)))),
        variants: vec![VariantValue { discr_value: None, child: member("A", inner) }],
    })));
    assert_eq!(lines(&v), vec![Some(12); 7]);
}
