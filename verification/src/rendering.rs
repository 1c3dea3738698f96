//! What is shown of each kind of value.
use vstd::prelude::*;

use crate::evaluator::{
    ArrayTypeValue, BaseTypeValue, EnumerationTypeValue, EnumeratorValue, EvaluatedVariable,
    EvaluatorValue, MemberValue, SourceInformation, StructureTypeValue, SubrangeTypeValue,
    UnionTypeValue, UnwoundFrame, VariantPartValue, VariantValue,
};
use crate::text::{byte_list, decimal};
use crate::variable::{
    element_part, enumerator_text, evaluated, evaluated_members, member_part, resolved,
    resolved_trace, variant_part, StackFrame, Variable, VariableView,
};

verus! {

/// The view of a variable has its name, its texts, its place in the source and
/// its parts, in their order.
pub proof fn law_views_hold_what_variables_hold(v: Variable, i: int)
    ensures
        v@.name is Some == v.name is Some,
        v.name matches Some(name) ==> v@.name == Some(name@),
        v@.value == v.value@,
        v@.type_ == v.type_@,
        v@.source == v.source,
        v@.children.len() == v.children@.len(),
        0 <= i < v.children@.len() ==> v@.children[i] == v.children@[i]@,
{
}

/// The view of a frame has its name, its call frame, its place in the source
/// and its variables, in their order.
pub proof fn law_views_hold_what_frames_hold(frame: StackFrame, i: int)
    ensures
        frame@.name == frame.name@,
        frame@.call_frame == frame.call_frame,
        frame@.source == frame.source,
        frame@.variables.len() == frame.variables@.len(),
        0 <= i < frame.variables@.len() ==> frame@.variables[i] == frame.variables@[i]@,
{
}

/// Each frame that is shown has the directory, the file, the line and the column
/// of the unwound frame of the same number.
pub proof fn law_frames_keep_their_place(frames: Seq<UnwoundFrame>, i: int)
    requires
        0 <= i < frames.len(),
    ensures
        resolved_trace(frames).len() == frames.len(),
        resolved_trace(frames)[i].source == frames[i].source,
        resolved_trace(frames)[i].source.directory == frames[i].source.directory,
        resolved_trace(frames)[i].source.file == frames[i].source.file,
        resolved_trace(frames)[i].source.line == frames[i].source.line,
        resolved_trace(frames)[i].source.column == frames[i].source.column,
{
}

/// The value adds parts to the variable that it is entered into, and does
/// nothing else to it.
pub open spec fn only_adds_parts(value: EvaluatorValue) -> bool {
    value is VariantValue || value is VariantPartValue || value is SubrangeTypeValue
        || value is Member
}

/// A field, a variant, the variants of an enum and the bounds of an array leave
/// the name, the text and the type of the variable as they were.
pub proof fn law_parts_leave_the_variable(
    v: VariableView,
    value: EvaluatorValue,
    source: Option<SourceInformation>,
)
    requires
        only_adds_parts(value),
    ensures
        evaluated(v, value, source).name == v.name,
        evaluated(v, value, source).value == v.value,
        evaluated(v, value, source).type_ == v.type_,
        evaluated(v, value, source).source == v.source,
{
}

proof fn lemma_parts_leave_the_variable(
    v: VariableView,
    members: Seq<EvaluatorValue>,
    n: nat,
    source: Option<SourceInformation>,
)
    requires
        forall|i: int| 0 <= i < members.len() ==> only_adds_parts(#[trigger] members[i]),
    ensures
        evaluated_members(v, members, n, source).name == v.name,
        evaluated_members(v, members, n, source).value == v.value,
        evaluated_members(v, members, n, source).type_ == v.type_,
    decreases n,
{
    if 0 < n <= members.len() {
        lemma_parts_leave_the_variable(v, members, (n - 1) as nat, source);
        law_parts_leave_the_variable(
            evaluated_members(v, members, (n - 1) as nat, source),
            members[n - 1],
            source,
        );
    }
}

/// The text of a variable into which a struct is entered, whose members are
/// fields or variants, is the name of the struct, which is also the next step of
/// its type. The variable keeps its name.
pub proof fn law_structs_are_shown_by_their_name(
    v: VariableView,
    x: StructureTypeValue,
    source: Option<SourceInformation>,
)
    requires
        forall|i: int| 0 <= i < x.members@.len() ==> only_adds_parts(#[trigger] x.members@[i]),
    ensures
        ({
            let shown = evaluated(v, EvaluatorValue::Struct(Box::new(x)), source);
            &&& shown.name == v.name
            &&& shown.value == x.name@
            &&& shown.type_ == v.type_ + "::"@ + x.name@
        }),
{
    let named = VariableView { value: x.name@, type_: v.type_ + "::"@ + x.name@, ..v };
    lemma_parts_leave_the_variable(named, x.members@, x.members@.len(), source);
}

/// A union, whose members are fields, leaves the name and the text of the
/// variable, and its name is the next step of the type.
pub proof fn law_unions_leave_the_text(
    v: VariableView,
    x: UnionTypeValue,
    source: Option<SourceInformation>,
)
    requires
        forall|i: int| 0 <= i < x.members@.len() ==> only_adds_parts(#[trigger] x.members@[i]),
    ensures
        ({
            let shown = evaluated(v, EvaluatorValue::Union(Box::new(x)), source);
            &&& shown.name == v.name
            &&& shown.value == v.value
            &&& shown.type_ == v.type_ + "::"@ + x.name@
        }),
{
    let named = VariableView { type_: v.type_ + "::"@ + x.name@, ..v };
    lemma_parts_leave_the_variable(named, x.members@, x.members@.len(), source);
}

/// The members of a struct are entered one after the other: a struct with one
/// more member shows what it shows without it, with that member entered last.
/// Without members it shows its name.
pub proof fn law_structs_show_their_members_in_order(
    v: VariableView,
    x: StructureTypeValue,
    longer: StructureTypeValue,
    member: EvaluatorValue,
    source: Option<SourceInformation>,
)
    requires
        longer.name@ == x.name@,
        longer.members@ == x.members@.push(member),
    ensures
        evaluated(v, EvaluatorValue::Struct(Box::new(longer)), source) == evaluated(
            evaluated(v, EvaluatorValue::Struct(Box::new(x)), source),
            member,
            source,
        ),
        x.members@.len() == 0 ==> evaluated(v, EvaluatorValue::Struct(Box::new(x)), source) == (
        VariableView { value: x.name@, type_: v.type_ + "::"@ + x.name@, ..v }),
{
    let named = VariableView { value: x.name@, type_: v.type_ + "::"@ + x.name@, ..v };
    lemma_one_more_member(named, x.members@, member, x.members@.len(), source);
    assert(longer.members@[x.members@.len() as int] == member);
    assert(evaluated_members(named, longer.members@, longer.members@.len(), source) == evaluated(
        evaluated_members(named, longer.members@, x.members@.len(), source),
        member,
        source,
    ));
}

/// The members of a union are entered one after the other: a union with one
/// more member shows what it shows without it, with that member entered last.
/// Without members it shows its name in the type alone.
pub proof fn law_unions_show_their_members_in_order(
    v: VariableView,
    x: UnionTypeValue,
    longer: UnionTypeValue,
    member: EvaluatorValue,
    source: Option<SourceInformation>,
)
    requires
        longer.name@ == x.name@,
        longer.members@ == x.members@.push(member),
    ensures
        evaluated(v, EvaluatorValue::Union(Box::new(longer)), source) == evaluated(
            evaluated(v, EvaluatorValue::Union(Box::new(x)), source),
            member,
            source,
        ),
        x.members@.len() == 0 ==> evaluated(v, EvaluatorValue::Union(Box::new(x)), source) == (
        VariableView { type_: v.type_ + "::"@ + x.name@, ..v }),
{
    let named = VariableView { type_: v.type_ + "::"@ + x.name@, ..v };
    lemma_one_more_member(named, x.members@, member, x.members@.len(), source);
    assert(longer.members@[x.members@.len() as int] == member);
    assert(evaluated_members(named, longer.members@, longer.members@.len(), source) == evaluated(
        evaluated_members(named, longer.members@, x.members@.len(), source),
        member,
        source,
    ));
}

/// The first members are entered alike, whether or not there is one more.
proof fn lemma_one_more_member(
    v: VariableView,
    members: Seq<EvaluatorValue>,
    member: EvaluatorValue,
    n: nat,
    source: Option<SourceInformation>,
)
    requires
        n <= members.len(),
    ensures
        evaluated_members(v, members.push(member), n, source) == evaluated_members(
            v,
            members,
            n,
            source,
        ),
    decreases n,
{
    if n > 0 {
        lemma_one_more_member(v, members, member, (n - 1) as nat, source);
        assert(members.push(member)[n - 1] == members[n - 1]);
    }
}

/// A variable that has a name and nothing else yet.
pub open spec fn unfilled(
    name: Option<Seq<char>>,
    source: Option<SourceInformation>,
) -> VariableView {
    VariableView {
        name,
        value: "< OptimizedOut >"@,
        type_: ""@,
        source,
        children: Seq::empty(),
    }
}

/// The name of a field, where it has one.
pub open spec fn name_of(member: MemberValue) -> Option<Seq<char>> {
    match member.name {
        Some(name) => Some(name@),
        None => None,
    }
}

proof fn lemma_field(member: MemberValue, source: Option<SourceInformation>)
    ensures
        member_part(member, source) == evaluated(
            unfilled(name_of(member), source),
            member.value,
            source,
        ),
{
}

/// A field is shown as one more part, under its name, with its value entered.
pub proof fn law_fields_are_parts(
    v: VariableView,
    member: MemberValue,
    source: Option<SourceInformation>,
)
    ensures
        evaluated(v, EvaluatorValue::Member(Box::new(member)), source).children
            == v.children.push(evaluated(unfilled(name_of(member), source), member.value, source)),
{
    lemma_field(member, source);
}

/// A variant is shown as one more part without a name: its number, with the
/// field of the variant as the only part.
pub proof fn law_variants_are_parts(
    v: VariableView,
    variant: VariantValue,
    source: Option<SourceInformation>,
)
    ensures
        evaluated(v, EvaluatorValue::VariantValue(Box::new(variant)), source).children
            == v.children.push(
            VariableView {
                name: None,
                value: match variant.discr_value {
                    Some(number) => decimal(number as nat),
                    None => "< OptimizedOut >"@,
                },
                type_: "u64"@,
                source,
                children: seq![
                    evaluated(
                        unfilled(name_of(variant.child), source),
                        variant.child.value,
                        source,
                    ),
                ],
            },
        ),
{
    lemma_field(variant.child, source);
    assert(variant_part(variant, source).children =~= seq![member_part(variant.child, source)]);
    let shown = evaluated(v, EvaluatorValue::VariantValue(Box::new(variant)), source);
    assert(shown.children.last().children =~= seq![
        evaluated(unfilled(name_of(variant.child), source), variant.child.value, source),
    ]);
}

/// The variants of an enum are shown as parts: first the field of the variant
/// that it has, called a variant where it has no name, and then each of the
/// others as it is shown alone, in their order.
pub proof fn law_variant_parts_are_parts(
    v: VariableView,
    x: VariantPartValue,
    source: Option<SourceInformation>,
    i: int,
)
    ensures
        ({
            let shown = evaluated(v, EvaluatorValue::VariantPartValue(Box::new(x)), source).children;
            let chosen: nat = if x.variant is Some {
                1
            } else {
                0
            };
            &&& shown.len() == v.children.len() + chosen + x.variants@.len()
            &&& shown.take(v.children.len() as int) == v.children
            &&& x.variant matches Some(member) ==> {
                let field = evaluated(unfilled(name_of(member), source), member.value, source);
                &&& shown[v.children.len() as int] == (VariableView {
                    name: if field.name is Some {
                        field.name
                    } else {
                        Some("< Variant >"@)
                    },
                    ..field
                })
            }
            &&& 0 <= i < x.variants@.len() ==> shown[v.children.len() + chosen + i] == evaluated(
                v,
                EvaluatorValue::VariantValue(Box::new(x.variants@[i])),
                source,
            ).children.last()
        }),
{
    if let Some(member) = x.variant {
        lemma_field(member, source);
    }
    let shown = evaluated(v, EvaluatorValue::VariantPartValue(Box::new(x)), source).children;
    assert(shown.take(v.children.len() as int) =~= v.children);
}

/// The bounds of an array are shown as one part that tells the length: the
/// number of elements, or else what bounds it; where neither is known, there is
/// none.
pub proof fn law_bounds_tell_the_length(
    v: VariableView,
    bounds: SubrangeTypeValue,
    source: Option<SourceInformation>,
)
    ensures
        evaluated(v, EvaluatorValue::SubrangeTypeValue(bounds), source).children == match (
            bounds.count,
            bounds.base_type_value,
        ) {
            (Some(count), _) => v.children.push(
                VariableView {
                    name: Some("< Length >"@),
                    value: decimal(count as nat),
                    type_: "u64"@,
                    source,
                    children: Seq::empty(),
                },
            ),
            (None, Some(bound)) => v.children.push(
                VariableView {
                    name: Some("< Length >"@),
                    value: bound.text(),
                    type_: "::"@ + bound.name_of_type(),
                    source,
                    children: Seq::empty(),
                },
            ),
            (None, None) => v.children,
        },
{
    reveal_strlit("");
    if let Some(bound) = bounds.base_type_value {
        assert(""@ + "::"@ + bound.name_of_type() =~= "::"@ + bound.name_of_type());
    }
    let shown = evaluated(v, EvaluatorValue::SubrangeTypeValue(bounds), source).children;
    match (bounds.count, bounds.base_type_value) {
        (Some(count), _) => {
            assert(shown =~= v.children.push(shown.last()));
        },
        (None, Some(bound)) => {
            assert(shown =~= v.children.push(shown.last()));
        },
        (None, None) => {
            assert(shown =~= v.children);
        },
    }
}

/// An array has no text of its own, and leaves the name and the type of the
/// variable. Its parts are its length, as its bounds tell it, and then its
/// elements in their order, each under its number.
pub proof fn law_arrays_show_their_elements(
    v: VariableView,
    a: ArrayTypeValue,
    source: Option<SourceInformation>,
    i: int,
)
    ensures
        ({
            let shown = evaluated(v, EvaluatorValue::Array(Box::new(a)), source);
            let length = evaluated(
                v,
                EvaluatorValue::SubrangeTypeValue(a.subrange_type_value),
                source,
            ).children;
            &&& shown.value == ""@
            &&& shown.name == v.name
            &&& shown.type_ == v.type_
            &&& shown.children.len() == length.len() + a.values@.len()
            &&& shown.children.take(length.len() as int) == length
            &&& 0 <= i < a.values@.len() ==> shown.children[length.len() + i] == evaluated(
                unfilled(Some("__"@ + decimal(i as nat)), source),
                a.values@[i],
                source,
            )
        }),
{
    if 0 <= i < a.values@.len() {
        assert(element_part(i as nat, a.values@[i], source) == evaluated(
            unfilled(Some("__"@ + decimal(i as nat)), source),
            a.values@[i],
            source,
        ));
    }
    let shown = evaluated(v, EvaluatorValue::Array(Box::new(a)), source);
    let length = evaluated(
        v,
        EvaluatorValue::SubrangeTypeValue(a.subrange_type_value),
        source,
    ).children;
    assert(shown.children.take(length.len() as int) =~= length);
}

/// A value of a base type gives the variable its text, and its type is the next
/// step of the type; bytes without a type do the same. The name and the parts
/// stay.
pub proof fn law_base_values_are_shown_by_their_text(
    v: VariableView,
    b: BaseTypeValue,
    bytes: Vec<u8>,
    source: Option<SourceInformation>,
)
    ensures
        evaluated(v, EvaluatorValue::Value(b), source) == (VariableView {
            value: b.text(),
            type_: v.type_ + "::"@ + b.name_of_type(),
            ..v
        }),
        evaluated(v, EvaluatorValue::Bytes(bytes), source).value == "EndianSlice { slice: ["@
            + byte_list(bytes@) + "], endian: LittleEndian }"@,
        evaluated(v, EvaluatorValue::Bytes(bytes), source).type_ == v.type_ + "::"@
            + "< Bytes >"@,
        evaluated(v, EvaluatorValue::Bytes(bytes), source).name == v.name,
        evaluated(v, EvaluatorValue::Bytes(bytes), source).children == v.children,
{
}

/// A value that is not there gives the variable a text that says why, and
/// changes nothing else.
pub proof fn law_absent_values_say_why(
    v: VariableView,
    source: Option<SourceInformation>,
)
    ensures
        evaluated(v, EvaluatorValue::OptimizedOut, source) == (VariableView {
            value: "< OptimizedOut >"@,
            ..v
        }),
        evaluated(v, EvaluatorValue::ZeroSize, source) == (VariableView {
            value: "< OptimizedOut >"@,
            ..v
        }),
        evaluated(v, EvaluatorValue::LocationOutOfRange, source) == (VariableView {
            value: "< LocationOutOfRange >"@,
            ..v
        }),
{
}

/// The text of an enum without data is the name of the last enumerator that has
/// one and stands for its number; where there is none, it is that of a value
/// that is not there.
pub proof fn law_enums_are_shown_by_their_enumerator(
    v: VariableView,
    e: EnumerationTypeValue,
    b: BaseTypeValue,
    number: u64,
    source: Option<SourceInformation>,
    i: int,
)
    requires
        e.variant == EvaluatorValue::Value(b),
        b.unsigned() == Some(number),
    ensures
        ({
            let shown = evaluated(v, EvaluatorValue::Enum(Box::new(e)), source);
            let named = |j: int|
                e.enumerators@[j].const_value == number && e.enumerators@[j].name is Some;
            &&& shown.name == Some(e.name@)
            &&& shown.type_ == v.type_ + "::"@ + e.name@
            &&& shown.children == v.children
            &&& 0 <= i < e.enumerators@.len() && named(i) && (forall|j: int|
                i < j < e.enumerators@.len() ==> !#[trigger] named(j)) ==> shown.value
                == e.enumerators@[i].name->0@
            &&& (forall|j: int| 0 <= j < e.enumerators@.len() ==> !#[trigger] named(j))
                ==> shown.value == "< OptimizedOut >"@
        }),
{
    let named = |j: int|
        e.enumerators@[j].const_value == number && e.enumerators@[j].name is Some;
    lemma_enumerator(e.enumerators@, number, e.enumerators@.len() as int, i);
    assert(e.enumerators@.take(e.enumerators@.len() as int) =~= e.enumerators@);
    if forall|j: int| i < j < e.enumerators@.len() ==> !#[trigger] named(j) {
        assert(forall|j: int|
            i < j < e.enumerators@.len() ==> !named(j) && (#[trigger] e.enumerators@[j]).const_value
                == e.enumerators@[j].const_value);
    }
    if forall|j: int| 0 <= j < e.enumerators@.len() ==> !#[trigger] named(j) {
        assert(forall|j: int|
            0 <= j < e.enumerators@.len() ==> !named(j) && (#[trigger] e.enumerators@[j]).const_value
                == e.enumerators@[j].const_value);
    }
}

/// The text for a number among the first `n` enumerators.
proof fn lemma_enumerator(
    enumerators: Seq<EnumeratorValue>,
    number: u64,
    n: int,
    i: int,
)
    requires
        0 <= n <= enumerators.len(),
    ensures
        0 <= i < n && enumerators[i].const_value == number && enumerators[i].name is Some && (
        forall|j: int|
            i < j < n ==> !((#[trigger] enumerators[j]).const_value == number
                && enumerators[j].name is Some)) ==> enumerator_text(enumerators.take(n), number)
            == enumerators[i].name->0@,
        (forall|j: int|
            0 <= j < n ==> !((#[trigger] enumerators[j]).const_value == number
                && enumerators[j].name is Some)) ==> enumerator_text(enumerators.take(n), number)
            == "< OptimizedOut >"@,
    decreases n,
{
    if n > 0 {
        lemma_enumerator(enumerators, number, n - 1, i);
        assert(enumerators.take(n).drop_last() =~= enumerators.take(n - 1));
        assert(enumerators.take(n).last() == enumerators[n - 1]);
    }
}

/// A variable of the call stack is shown under its name and at its place in the
/// source, with its value entered.
pub proof fn law_variables_are_shown_by_their_value(var: EvaluatedVariable)
    ensures
        resolved(var) == evaluated(
            VariableView {
                name: match var.name {
                    Some(name) => Some(name@),
                    None => None,
                },
                value: "This should be overwritten with the correct value"@,
                type_: ""@,
                source: var.source,
                children: Seq::empty(),
            },
            var.value,
            var.source,
        ),
{
}

/// Which values can be written: all but those that hold, at any depth, an enum
/// without data whose variant is not an unsigned number.
pub proof fn law_what_can_be_written(value: EvaluatorValue)
    ensures
        value.renderable() <==> match value {
            EvaluatorValue::PointerTypeValue(p) => p.value.renderable(),
            EvaluatorValue::Member(m) => m.value.renderable(),
            EvaluatorValue::VariantValue(x) => x.child.value.renderable(),
            EvaluatorValue::VariantPartValue(x) => {
                &&& x.variant matches Some(m) ==> m.value.renderable()
                &&& forall|i: int|
                    0 <= i < x.variants@.len() ==> (
                    #[trigger] x.variants@[i]).child.value.renderable()
            },
            EvaluatorValue::Array(a) => forall|i: int|
                0 <= i < a.values@.len() ==> (#[trigger] a.values@[i]).renderable(),
            EvaluatorValue::Struct(x) => forall|i: int|
                0 <= i < x.members@.len() ==> (#[trigger] x.members@[i]).renderable(),
            EvaluatorValue::Union(x) => forall|i: int|
                0 <= i < x.members@.len() ==> (#[trigger] x.members@[i]).renderable(),
            EvaluatorValue::Enum(e) => match e.variant {
                EvaluatorValue::Value(b) => b is Generic || b is U8 || b is U16 || b is U32
                    || b is U64,
                _ => false,
            },
            _ => true,
        },
{
}

} // verus!
