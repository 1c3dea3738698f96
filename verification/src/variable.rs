//! Variables and stack frames as they are shown to the user: each value of
//! the call stack becomes a tree of names, texts and types.
use vstd::prelude::*;

use crate::commands::DebugError;
use crate::evaluator::{
    bytes_text, endian_slice_text, CallFrame, EnumeratorValue, EvaluatedVariable, EvaluatorValue,
    MemberValue, PointerTypeValue, SourceInformation, SubrangeTypeValue, UnwoundFrame,
    VariantValue,
};
use crate::text::{copied, decimal, decimal_text, joined};

verus! {

/// A variable: its name, its value and type as text, where it was declared,
/// and the parts that it is made of.
#[derive(Debug)]
pub struct Variable {
    pub name: Option<String>,
    pub value: String,
    pub type_: String,
    pub source: Option<SourceInformation>,
    pub children: Vec<Variable>,
}

/// What a [`Variable`] holds.
#[verifier::ext_equal]
pub struct VariableView {
    pub name: Option<Seq<char>>,
    pub value: Seq<char>,
    pub type_: Seq<char>,
    pub source: Option<SourceInformation>,
    pub children: Seq<VariableView>,
}

/// The characters of an optional text.
pub open spec fn optional_text(text: Option<String>) -> Option<Seq<char>> {
    match text {
        Some(t) => Some(t@),
        None => None,
    }
}

impl View for Variable {
    type V = VariableView;

    open spec fn view(&self) -> VariableView {
        variable_view(*self)
    }
}

pub open spec fn variable_view(v: Variable) -> VariableView
    decreases v,
{
    VariableView {
        name: optional_text(v.name),
        value: v.value@,
        type_: v.type_@,
        source: v.source,
        children: variable_views(v.children@),
    }
}

/// What each variable of `vs` holds.
pub open spec fn variable_views(vs: Seq<Variable>) -> Seq<VariableView>
    decreases vs,
{
    Seq::new(
        vs.len(),
        |i: int|
            if 0 <= i < vs.len() {
                variable_view(vs[i])
            } else {
                arbitrary()
            },
    )
}

/// A variable without parts.
pub open spec fn leaf(
    name: Option<Seq<char>>,
    value: Seq<char>,
    type_: Seq<char>,
    source: Option<SourceInformation>,
) -> VariableView {
    VariableView { name, value, type_, source, children: Seq::empty() }
}

/// `name` as the next step of the type path `path`.
pub open spec fn qualified(path: Seq<char>, name: Seq<char>) -> Seq<char> {
    path + "::"@ + name
}

/// `v` with one more part.
pub open spec fn with_child(v: VariableView, child: VariableView) -> VariableView {
    VariableView { children: v.children.push(child), ..v }
}

/// The text of the enumerator for `n`: the name of the last enumerator that
/// stands for `n` and has one.
pub open spec fn enumerator_text(enumerators: Seq<EnumeratorValue>, n: u64) -> Seq<char>
    decreases enumerators.len(),
{
    if enumerators.len() == 0 {
        "< OptimizedOut >"@
    } else if enumerators.last().const_value == n && enumerators.last().name is Some {
        enumerators.last().name->0@
    } else {
        enumerator_text(enumerators.drop_last(), n)
    }
}

/// The part that tells the length of an array, where it is known.
pub open spec fn length_part(
    bounds: SubrangeTypeValue,
    source: Option<SourceInformation>,
) -> Seq<VariableView> {
    match (bounds.count, bounds.base_type_value) {
        (Some(count), _) => seq![
            leaf(Some("< Length >"@), decimal(count as nat), "u64"@, source),
        ],
        (None, Some(b)) => seq![
            leaf(Some("< Length >"@), b.text(), qualified(""@, b.name_of_type()), source),
        ],
        (None, None) => Seq::empty(),
    }
}

/// The part for a field.
pub open spec fn member_part(
    member: MemberValue,
    source: Option<SourceInformation>,
) -> VariableView
    decreases member, 1int,
{
    evaluated(
        leaf(optional_text(member.name), "< OptimizedOut >"@, ""@, source),
        member.value,
        source,
    )
}

/// The part for a variant: its discriminant, with the variant's field below.
pub open spec fn variant_part(
    variant: VariantValue,
    source: Option<SourceInformation>,
) -> VariableView
    decreases variant, 1int,
{
    with_child(
        leaf(
            None,
            match variant.discr_value {
                Some(n) => decimal(n as nat),
                None => "< OptimizedOut >"@,
            },
            "u64"@,
            source,
        ),
        member_part(variant.child, source),
    )
}

/// `v`, called a variant where it has no name.
pub open spec fn named_variant(v: VariableView) -> VariableView {
    VariableView {
        name: match v.name {
            Some(name) => Some(name),
            None => Some("< Variant >"@),
        },
        ..v
    }
}

/// The part for an array's element.
pub open spec fn element_part(
    index: nat,
    value: EvaluatorValue,
    source: Option<SourceInformation>,
) -> VariableView
    decreases value, 1int,
{
    evaluated(
        leaf(Some("__"@ + decimal(index)), "< OptimizedOut >"@, ""@, source),
        value,
        source,
    )
}

/// `v` after the first `n` of `members`, one after the other.
pub open spec fn evaluated_members(
    v: VariableView,
    members: Seq<EvaluatorValue>,
    n: nat,
    source: Option<SourceInformation>,
) -> VariableView
    decreases members, n,
{
    if n == 0 || n > members.len() {
        v
    } else {
        evaluated(
            evaluated_members(v, members, (n - 1) as nat, source),
            members[n - 1],
            source,
        )
    }
}

/// `v` once `value` is entered into it.
pub open spec fn evaluated(
    v: VariableView,
    value: EvaluatorValue,
    source: Option<SourceInformation>,
) -> VariableView
    decreases value, 0int,
{
    match value {
        EvaluatorValue::Value(b) => VariableView {
            value: b.text(),
            type_: qualified(v.type_, b.name_of_type()),
            ..v
        },
        EvaluatorValue::PointerTypeValue(p) => evaluated(
            VariableView {
                type_: match p.name {
                    Some(name) => qualified(v.type_, name@),
                    None => v.type_,
                },
                ..v
            },
            p.value,
            source,
        ),
        EvaluatorValue::VariantValue(x) => with_child(v, variant_part(*x, source)),
        EvaluatorValue::VariantPartValue(x) => VariableView {
            children: v.children + match x.variant {
                Some(member) => seq![named_variant(member_part(member, source))],
                None => Seq::empty(),
            } + Seq::new(
                x.variants@.len(),
                |i: int|
                    if 0 <= i < x.variants@.len() {
                        variant_part(x.variants@[i], source)
                    } else {
                        arbitrary()
                    },
            ),
            ..v
        },
        EvaluatorValue::SubrangeTypeValue(bounds) => VariableView {
            children: v.children + length_part(bounds, source),
            ..v
        },
        EvaluatorValue::Bytes(bytes) => VariableView {
            value: bytes_text(bytes@),
            type_: qualified(v.type_, "< Bytes >"@),
            ..v
        },
        EvaluatorValue::Array(a) => VariableView {
            value: ""@,
            children: v.children + length_part(a.subrange_type_value, source) + Seq::new(
                a.values@.len(),
                |i: int|
                    if 0 <= i < a.values@.len() {
                        element_part(i as nat, a.values@[i], source)
                    } else {
                        arbitrary()
                    },
            ),
            ..v
        },
        EvaluatorValue::Struct(x) => evaluated_members(
            VariableView { value: x.name@, type_: qualified(v.type_, x.name@), ..v },
            x.members@,
            x.members@.len(),
            source,
        ),
        EvaluatorValue::Enum(e) => VariableView {
            name: Some(e.name@),
            value: match e.variant {
                EvaluatorValue::Value(b) => enumerator_text(e.enumerators@, b.unsigned()->0),
                _ => "< OptimizedOut >"@,
            },
            type_: qualified(v.type_, e.name@),
            ..v
        },
        EvaluatorValue::Union(x) => evaluated_members(
            VariableView { type_: qualified(v.type_, x.name@), ..v },
            x.members@,
            x.members@.len(),
            source,
        ),
        EvaluatorValue::Member(member) => with_child(v, member_part(*member, source)),
        EvaluatorValue::OptimizedOut => VariableView { value: "< OptimizedOut >"@, ..v },
        EvaluatorValue::LocationOutOfRange => VariableView {
            value: "< LocationOutOfRange >"@,
            ..v
        },
        EvaluatorValue::ZeroSize => VariableView { value: "< OptimizedOut >"@, ..v },
    }
}

/// What is shown of a variable of the call stack.
pub open spec fn resolved(var: EvaluatedVariable) -> VariableView {
    evaluated(
        leaf(
            optional_text(var.name),
            "This should be overwritten with the correct value"@,
            ""@,
            var.source,
        ),
        var.value,
        var.source,
    )
}

/// A fresh copy of an optional source location.
fn copied_source(source: &Option<SourceInformation>) -> (copy: Option<SourceInformation>)
    ensures
        copy == *source,
{
    match source {
        Some(s) => Some(s.clone()),
        None => None,
    }
}

/// `name` as the next step of the type path `path`.
fn qualified_text(path: &String, name: &str) -> (text: String)
    ensures
        text@ == qualified(path@, name@),
{
    joined(path.as_str(), "::", name)
}

/// The text of the enumerator for `n`.
fn enumerator_name(enumerators: &Vec<EnumeratorValue>, n: u64) -> (text: String)
    ensures
        text@ == enumerator_text(enumerators@, n),
{
    let mut text = "< OptimizedOut >".to_owned();
    let mut i: usize = 0;
    assert(enumerators@.take(0) =~= Seq::empty());
    while i < enumerators.len()
        invariant
            i <= enumerators@.len(),
            text@ == enumerator_text(enumerators@.take(i as int), n),
        decreases enumerators@.len() - i,
    {
        if enumerators[i].const_value == n {
            match &enumerators[i].name {
                Some(name) => {
                    text = name.clone();
                },
                None => (),
            }
        }
        i = i + 1;
        assert(enumerators@.take(i as int).drop_last() =~= enumerators@.take(i - 1));
    }
    assert(enumerators@.take(i as int) =~= enumerators@);
    text
}

impl Variable {
    /// What is shown of a variable of the call stack.
    pub fn resolve_varialbe(var: &EvaluatedVariable) -> (result: Result<Variable, DebugError>)
        requires
            var.value.renderable(),
        ensures
            result matches Ok(variable) && variable@ == resolved(*var),
    {
        let mut variable = Variable {
            name: copied(&var.name),
            value: "This should be overwritten with the correct value".to_owned(),
            type_: "".to_owned(),
            source: copied_source(&var.source),
            children: vec![],
        };
        assert(variable@.children =~= Seq::empty());
        match variable.evaluate(&var.value, &var.source) {
            Ok(()) => Ok(variable),
            Err(error) => Err(error),
        }
    }

    /// A variable without parts.
    fn bare(
        name: Option<String>,
        value: String,
        type_: String,
        source: &Option<SourceInformation>,
    ) -> (variable: Variable)
        ensures
            variable@ == leaf(optional_text(name), value@, type_@, *source),
    {
        let variable = Variable {
            name,
            value,
            type_,
            source: copied_source(source),
            children: vec![],
        };
        assert(variable@.children =~= Seq::empty());
        variable
    }

    /// Adds a part at the end.
    fn push_child(&mut self, child: Variable)
        ensures
            final(self)@ == with_child(old(self)@, child@),
    {
        self.children.push(child);
        assert(variable_views(self.children@) =~= old(self)@.children.push(child@));
    }

    /// Takes the last part away.
    fn pop_child(&mut self) -> (child: Option<Variable>)
        ensures
            match child {
                Some(child) => old(self)@.children.len() > 0 && child@
                    == old(self)@.children.last() && final(self)@ == (VariableView {
                    children: old(self)@.children.drop_last(),
                    ..old(self)@
                }),
                None => old(self)@.children.len() == 0 && final(self)@ == old(self)@,
            },
    {
        let ghost before = self.children@;
        let child = self.children.pop();
        proof {
            if before.len() > 0 {
                assert(variable_views(before).last() == variable_view(before.last()));
                assert(variable_views(self.children@) =~= variable_views(before).drop_last());
            }
        }
        child
    }

    /// Adds the part that tells the length of an array, where it is known.
    fn evaluate_length(
        &mut self,
        bounds: &SubrangeTypeValue,
        source: &Option<SourceInformation>,
    )
        ensures
            final(self)@ == (VariableView {
                children: old(self)@.children + length_part(*bounds, *source),
                ..old(self)@
            }),
    {
        match bounds.count {
            Some(count) => {
                let variable = Variable::bare(
                    Some("< Length >".to_owned()),
                    decimal_text(count),
                    "u64".to_owned(),
                    source,
                );
                self.push_child(variable);
            },
            None => match &bounds.base_type_value {
                Some(value) => {
                    let path = "".to_owned();
                    let variable = Variable::bare(
                        Some("< Length >".to_owned()),
                        value.to_text(),
                        qualified_text(&path, value.get_type().as_str()),
                        source,
                    );
                    self.push_child(variable);
                },
                None => (),
            },
        }
        assert(self@.children =~= old(self)@.children + length_part(*bounds, *source));
    }

    /// The part for a field.
    fn member(member: &MemberValue, source: &Option<SourceInformation>) -> (result: Result<
        Variable,
        DebugError,
    >)
        requires
            member.value.renderable(),
        ensures
            result matches Ok(variable) && variable@ == member_part(*member, *source),
        decreases member, 1int,
    {
        let mut variable = Variable::bare(
            copied(&member.name),
            "< OptimizedOut >".to_owned(),
            "".to_owned(),
            source,
        );
        match variable.evaluate(&member.value, source) {
            Ok(()) => Ok(variable),
            Err(error) => Err(error),
        }
    }

    /// The part for a variant.
    fn variant(variant: &VariantValue, source: &Option<SourceInformation>) -> (result: Result<
        Variable,
        DebugError,
    >)
        requires
            variant.child.value.renderable(),
        ensures
            result matches Ok(variable) && variable@ == variant_part(*variant, *source),
        decreases variant, 1int,
    {
        let value = match variant.discr_value {
            Some(n) => decimal_text(n),
            None => "< OptimizedOut >".to_owned(),
        };
        let mut variable = Variable::bare(None, value, "u64".to_owned(), source);
        match Variable::member(&variant.child, source) {
            Ok(child) => {
                variable.push_child(child);
                Ok(variable)
            },
            Err(error) => Err(error),
        }
    }

    /// Enters the first of `members`, then the others, one after the other.
    fn evaluate_members(
        &mut self,
        members: &Vec<EvaluatorValue>,
        source: &Option<SourceInformation>,
    ) -> (result: Result<(), DebugError>)
        requires
            forall|i: int| 0 <= i < members@.len() ==> (#[trigger] members@[i]).renderable(),
        ensures
            result is Ok,
            final(self)@ == evaluated_members(old(self)@, members@, members@.len(), *source),
        decreases members, 0int,
    {
        let mut i: usize = 0;
        while i < members.len()
            invariant
                i <= members@.len(),
                forall|j: int| 0 <= j < members@.len() ==> (#[trigger] members@[j]).renderable(),
                self@ == evaluated_members(old(self)@, members@, i as nat, *source),
            decreases members@.len() - i,
        {
            match self.evaluate(&members[i], source) {
                Ok(()) => (),
                Err(error) => return Err(error),
            }
            i = i + 1;
        }
        Ok(())
    }

    /// Enters `value` into the variable: its text and type, and a part for
    /// each of the value's parts.
    pub fn evaluate(
        &mut self,
        value: &EvaluatorValue,
        source: &Option<SourceInformation>,
    ) -> (result: Result<(), DebugError>)
        requires
            value.renderable(),
        ensures
            result is Ok,
            final(self)@ == evaluated(old(self)@, *value, *source),
        decreases value, 0int,
    {
        match value {
            EvaluatorValue::Value(b) => {
                self.value = b.to_text();
                self.type_ = qualified_text(&self.type_, b.get_type().as_str());
            },
            EvaluatorValue::PointerTypeValue(p) => {
                match &p.name {
                    Some(name) => {
                        self.type_ = qualified_text(&self.type_, name.as_str());
                    },
                    None => (),
                }
                return self.evaluate(&p.value, source);
            },
            EvaluatorValue::VariantValue(x) => {
                match Variable::variant(x, source) {
                    Ok(child) => self.push_child(child),
                    Err(error) => return Err(error),
                }
            },
            EvaluatorValue::VariantPartValue(x) => {
                match &x.variant {
                    Some(member) => {
                        match Variable::member(member, source) {
                            Ok(child) => self.push_child(child),
                            Err(error) => return Err(error),
                        }
                        match self.pop_child() {
                            Some(mut child) => {
                                match &child.name {
                                    Some(_) => (),
                                    None => {
                                        child.name = Some("< Variant >".to_owned());
                                    },
                                }
                                self.push_child(child);
                            },
                            None => return Err(DebugError::MissingChild),
                        }
                    },
                    None => (),
                }
                let ghost started = self@;
                let mut i: usize = 0;
                while i < x.variants.len()
                    invariant
                        *value == EvaluatorValue::VariantPartValue(*x),
                        i <= x.variants@.len(),
                        forall|j: int|
                            0 <= j < x.variants@.len() ==> (
                            #[trigger] x.variants@[j]).child.value.renderable(),
                        self@ == (VariableView {
                            children: started.children + Seq::new(
                                i as nat,
                                |j: int| variant_part(x.variants@[j], *source),
                            ),
                            ..started
                        }),
                    decreases x.variants@.len() - i,
                {
                    match Variable::variant(&x.variants[i], source) {
                        Ok(child) => self.push_child(child),
                        Err(error) => return Err(error),
                    }
                    i = i + 1;
                    assert(self@.children =~= started.children + Seq::new(
                        i as nat,
                        |j: int| variant_part(x.variants@[j], *source),
                    ));
                }
                assert(self@.children =~= evaluated(old(self)@, *value, *source).children);
            },
            EvaluatorValue::SubrangeTypeValue(bounds) => {
                self.evaluate_length(bounds, source);
            },
            EvaluatorValue::Bytes(bytes) => {
                self.value = endian_slice_text(bytes);
                self.type_ = qualified_text(&self.type_, "< Bytes >");
            },
            EvaluatorValue::Array(a) => {
                self.value = "".to_owned();
                self.evaluate_length(&a.subrange_type_value, source);
                let ghost started = self@;
                let mut i: usize = 0;
                while i < a.values.len()
                    invariant
                        *value == EvaluatorValue::Array(*a),
                        i <= a.values@.len(),
                        forall|j: int|
                            0 <= j < a.values@.len() ==> (#[trigger] a.values@[j]).renderable(),
                        self@ == (VariableView {
                            children: started.children + Seq::new(
                                i as nat,
                                |j: int| element_part(j as nat, a.values@[j], *source),
                            ),
                            ..started
                        }),
                    decreases a.values@.len() - i,
                {
                    let mut name = "__".to_owned();
                    name.append(decimal_text(i as u64).as_str());
                    let mut variable = Variable::bare(
                        Some(name),
                        "< OptimizedOut >".to_owned(),
                        "".to_owned(),
                        source,
                    );
                    match variable.evaluate(&a.values[i], source) {
                        Ok(()) => (),
                        Err(error) => return Err(error),
                    }
                    self.push_child(variable);
                    i = i + 1;
                    assert(self@.children =~= started.children + Seq::new(
                        i as nat,
                        |j: int| element_part(j as nat, a.values@[j], *source),
                    ));
                }
                assert(self@.children =~= evaluated(old(self)@, *value, *source).children);
            },
            EvaluatorValue::Struct(x) => {
                self.type_ = qualified_text(&self.type_, x.name.as_str());
                self.value = x.name.clone();
                return self.evaluate_members(&x.members, source);
            },
            EvaluatorValue::Enum(e) => {
                self.name = Some(e.name.clone());
                self.type_ = qualified_text(&self.type_, e.name.as_str());
                self.value = "< OptimizedOut >".to_owned();
                match &e.variant {
                    EvaluatorValue::Value(b) => {
                        match b.get_udata() {
                            Some(variant) => {
                                self.value = enumerator_name(&e.enumerators, variant);
                            },
                            None => (),
                        }
                    },
                    _ => (),
                }
            },
            EvaluatorValue::Union(x) => {
                self.type_ = qualified_text(&self.type_, x.name.as_str());
                return self.evaluate_members(&x.members, source);
            },
            EvaluatorValue::Member(member) => {
                match Variable::member(member, source) {
                    Ok(child) => self.push_child(child),
                    Err(error) => return Err(error),
                }
            },
            EvaluatorValue::OptimizedOut => {
                self.value = "< OptimizedOut >".to_owned();
            },
            EvaluatorValue::LocationOutOfRange => {
                self.value = "< LocationOutOfRange >".to_owned();
            },
            EvaluatorValue::ZeroSize => {
                self.value = "< OptimizedOut >".to_owned();
            },
        }
        Ok(())
    }
}

impl Clone for Variable {
    fn clone(&self) -> (copy: Self)
        ensures
            copy@ == self@,
        decreases self,
    {
        let copy = Variable {
            name: copied(&self.name),
            value: self.value.clone(),
            type_: self.type_.clone(),
            source: copied_source(&self.source),
            children: copied_variables(&self.children),
        };
        copy
    }
}

/// A fresh copy of a list of variables.
pub fn copied_variables(variables: &Vec<Variable>) -> (copy: Vec<Variable>)
    ensures
        variable_views(copy@) == variable_views(variables@),
    decreases variables,
{
    let mut copy: Vec<Variable> = Vec::new();
    let mut i: usize = 0;
    while i < variables.len()
        invariant
            i <= variables@.len(),
            copy@.len() == i,
            forall|j: int| 0 <= j < i ==> variable_view(#[trigger] copy@[j]) == variable_view(
                variables@[j],
            ),
        decreases variables@.len() - i,
    {
        let variable = variables[i].clone();
        copy.push(variable);
        i = i + 1;
    }
    assert(variable_views(copy@) =~= variable_views(variables@));
    copy
}

/// A frame of the call stack as it is shown to the user.
#[derive(Debug)]
pub struct StackFrame {
    pub name: String,
    pub call_frame: CallFrame,
    pub source: SourceInformation,
    pub variables: Vec<Variable>,
}

/// What a [`StackFrame`] holds.
#[verifier::ext_equal]
pub struct StackFrameView {
    pub name: Seq<char>,
    pub call_frame: CallFrame,
    pub source: SourceInformation,
    pub variables: Seq<VariableView>,
}

impl View for StackFrame {
    type V = StackFrameView;

    open spec fn view(&self) -> StackFrameView {
        StackFrameView {
            name: self.name@,
            call_frame: self.call_frame,
            source: self.source,
            variables: variable_views(self.variables@),
        }
    }
}

/// What each frame of `frames` holds.
pub open spec fn frame_views(frames: Seq<StackFrame>) -> Seq<StackFrameView> {
    Seq::new(frames.len(), |i: int| frames[i]@)
}

/// What is shown of a frame of the unwound call stack.
pub open spec fn resolved_frame(frame: UnwoundFrame) -> StackFrameView {
    StackFrameView {
        name: frame.name@,
        call_frame: frame.call_frame,
        source: frame.source,
        variables: Seq::new(frame.variables@.len(), |i: int| resolved(frame.variables@[i])),
    }
}

/// The first of the variables that is called `name`.
pub open spec fn first_named(variables: Seq<VariableView>, name: Seq<char>) -> Option<VariableView>
    decreases variables.len(),
{
    if variables.len() == 0 {
        None
    } else if variables.first().name == Some(name) {
        Some(variables.first())
    } else {
        first_named(variables.drop_first(), name)
    }
}

impl Clone for StackFrame {
    fn clone(&self) -> (copy: Self)
        ensures
            copy@ == self@,
    {
        StackFrame {
            name: self.name.clone(),
            call_frame: self.call_frame,
            source: self.source.clone(),
            variables: copied_variables(&self.variables),
        }
    }
}

/// A fresh copy of a list of frames.
pub fn copied_frames(frames: &Vec<StackFrame>) -> (copy: Vec<StackFrame>)
    ensures
        frame_views(copy@) == frame_views(frames@),
{
    let mut copy: Vec<StackFrame> = Vec::new();
    let mut i: usize = 0;
    while i < frames.len()
        invariant
            i <= frames@.len(),
            copy@.len() == i,
            forall|j: int| 0 <= j < i ==> (#[trigger] copy@[j])@ == frames@[j]@,
        decreases frames@.len() - i,
    {
        let frame = frames[i].clone();
        copy.push(frame);
        i = i + 1;
    }
    assert(frame_views(copy@) =~= frame_views(frames@));
    copy
}

impl StackFrame {
    /// What is shown of a frame of the unwound call stack.
    pub fn resolve_stackframe(frame: &UnwoundFrame) -> (result: Result<StackFrame, DebugError>)
        requires
            frame.renderable(),
        ensures
            result matches Ok(resolved) && resolved@ == resolved_frame(*frame),
    {
        let mut variables: Vec<Variable> = vec![];
        let mut i: usize = 0;
        while i < frame.variables.len()
            invariant
                frame.renderable(),
                i <= frame.variables@.len(),
                variables@.len() == i,
                forall|j: int|
                    0 <= j < i ==> variable_view(#[trigger] variables@[j]) == resolved(
                        frame.variables@[j],
                    ),
            decreases frame.variables@.len() - i,
        {
            match Variable::resolve_varialbe(&frame.variables[i]) {
                Ok(variable) => variables.push(variable),
                Err(error) => return Err(error),
            }
            i = i + 1;
        }
        assert(variable_views(variables@) =~= resolved_frame(*frame).variables);
        Ok(
            StackFrame {
                name: frame.name.clone(),
                call_frame: frame.call_frame,
                source: frame.source.clone(),
                variables,
            },
        )
    }

    /// The first variable of the frame that is called `name`.
    pub fn find_variable(&self, name: &str) -> (found: Option<&Variable>)
        ensures
            match found {
                Some(variable) => first_named(self@.variables, name@) == Some(variable@),
                None => first_named(self@.variables, name@) is None,
            },
    {
        let wanted = name.to_owned();
        let mut i: usize = 0;
        assert(self@.variables.skip(0) =~= self@.variables);
        while i < self.variables.len()
            invariant
                wanted@ == name@,
                i <= self.variables@.len(),
                first_named(self@.variables, name@) == first_named(
                    self@.variables.skip(i as int),
                    name@,
                ),
            decreases self.variables@.len() - i,
        {
            let v = &self.variables[i];
            assert(self@.variables.skip(i as int).first() == v@);
            assert(self@.variables.skip(i as int).drop_first() =~= self@.variables.skip(i + 1));
            match &v.name {
                Some(var_name) => {
                    if *var_name == wanted {
                        return Some(v);
                    }
                },
                None => (),
            }
            i = i + 1;
        }
        None
    }
}

/// All variables of all frames can be written.
pub open spec fn all_renderable(frames: Seq<UnwoundFrame>) -> bool {
    forall|i: int| 0 <= i < frames.len() ==> (#[trigger] frames[i]).renderable()
}

/// Whether all variables of all frames can be written.
pub fn is_all_renderable(frames: &Vec<UnwoundFrame>) -> (yes: bool)
    ensures
        yes == all_renderable(frames@),
{
    let mut i: usize = 0;
    while i < frames.len()
        invariant
            i <= frames@.len(),
            forall|j: int| 0 <= j < i ==> (#[trigger] frames@[j]).renderable(),
        decreases frames@.len() - i,
    {
        if !frames[i].is_renderable() {
            return false;
        }
        i = i + 1;
    }
    true
}

/// What is shown of an unwound call stack.
pub open spec fn resolved_trace(frames: Seq<UnwoundFrame>) -> Seq<StackFrameView> {
    Seq::new(frames.len(), |i: int| resolved_frame(frames[i]))
}

/// What is shown of an unwound call stack.
pub fn resolve_stack_trace(stack_frames: Vec<UnwoundFrame>) -> (result: Result<
    Vec<StackFrame>,
    DebugError,
>)
    requires
        all_renderable(stack_frames@),
    ensures
        result matches Ok(trace) && frame_views(trace@) == resolved_trace(stack_frames@),
{
    let mut stack_trace: Vec<StackFrame> = vec![];
    let mut i: usize = 0;
    while i < stack_frames.len()
        invariant
            all_renderable(stack_frames@),
            i <= stack_frames@.len(),
            stack_trace@.len() == i,
            forall|j: int|
                0 <= j < i ==> (#[trigger] stack_trace@[j])@ == resolved_frame(stack_frames@[j]),
        decreases stack_frames@.len() - i,
    {
        match StackFrame::resolve_stackframe(&stack_frames[i]) {
            Ok(frame) => stack_trace.push(frame),
            Err(error) => return Err(error),
        }
        i = i + 1;
    }
    assert(frame_views(stack_trace@) =~= resolved_trace(stack_frames@));
    Ok(stack_trace)
}

/// `later` has all that `earlier` has, and maybe more: the parts and the type
/// path of `earlier` come first, and it was declared in the same place.
pub open spec fn extends(later: VariableView, earlier: VariableView) -> bool {
    &&& earlier.children.is_prefix_of(later.children)
    &&& earlier.type_.is_prefix_of(later.type_)
    &&& later.source == earlier.source
}

/// Entering a value into a variable takes nothing away: the parts that the
/// variable has come first among its parts, its type path grows at the end,
/// and where it was declared stays.
pub proof fn law_evaluation_extends(
    v: VariableView,
    value: EvaluatorValue,
    source: Option<SourceInformation>,
)
    ensures
        extends(evaluated(v, value, source), v),
    decreases value, 0int,
{
    match value {
        EvaluatorValue::PointerTypeValue(p) => {
            let named = VariableView {
                type_: match p.name {
                    Some(name) => qualified(v.type_, name@),
                    None => v.type_,
                },
                ..v
            };
            law_evaluation_extends(named, p.value, source);
        },
        EvaluatorValue::Struct(x) => {
            let named = VariableView {
                value: x.name@,
                type_: qualified(v.type_, x.name@),
                ..v
            };
            lemma_members_extend(named, x.members@, x.members@.len(), source);
        },
        EvaluatorValue::Union(x) => {
            let named = VariableView { type_: qualified(v.type_, x.name@), ..v };
            lemma_members_extend(named, x.members@, x.members@.len(), source);
        },
        _ => {},
    }
}

proof fn lemma_members_extend(
    v: VariableView,
    members: Seq<EvaluatorValue>,
    n: nat,
    source: Option<SourceInformation>,
)
    ensures
        extends(evaluated_members(v, members, n, source), v),
    decreases members, n,
{
    if 0 < n <= members.len() {
        lemma_members_extend(v, members, (n - 1) as nat, source);
        let before = evaluated_members(v, members, (n - 1) as nat, source);
        law_evaluation_extends(before, members[n - 1], source);
    }
}

/// A pointer is shown by what it points to, in the same variable and without a
/// part of its own: its name, where it has one, is a step of the type path.
pub proof fn law_pointers_show_their_target(
    v: VariableView,
    pointer: PointerTypeValue,
    source: Option<SourceInformation>,
)
    ensures
        ({
            let value = EvaluatorValue::PointerTypeValue(Box::new(pointer));
            let named = VariableView {
                type_: match pointer.name {
                    Some(name) => v.type_ + "::"@ + name@,
                    None => v.type_,
                },
                ..v
            };
            &&& value.renderable() == pointer.value.renderable()
            &&& evaluated(v, value, source) == evaluated(named, pointer.value, source)
        }),
{
}

/// The variable and all its parts, at any depth, were declared in that place.
pub open spec fn declared_at(v: VariableView, source: Option<SourceInformation>) -> bool
    decreases v,
{
    &&& v.source == source
    &&& forall|i: int|
        0 <= i < v.children.len() ==> declared_at(#[trigger] v.children[i], source)
}

/// The parts from number `from` on, and all their parts, were declared in that
/// place.
pub open spec fn parts_declared_at(
    v: VariableView,
    from: int,
    source: Option<SourceInformation>,
) -> bool {
    forall|i: int|
        from <= i < v.children.len() ==> declared_at(#[trigger] v.children[i], source)
}

/// Each part that entering a value adds, at any depth, has the source location
/// that it was entered with.
pub proof fn law_parts_are_declared_at_the_source(
    v: VariableView,
    value: EvaluatorValue,
    source: Option<SourceInformation>,
)
    ensures
        parts_declared_at(evaluated(v, value, source), v.children.len() as int, source),
    decreases value, 0int,
{
    match value {
        EvaluatorValue::PointerTypeValue(p) => {
            let named = VariableView {
                type_: match p.name {
                    Some(name) => qualified(v.type_, name@),
                    None => v.type_,
                },
                ..v
            };
            law_parts_are_declared_at_the_source(named, p.value, source);
        },
        EvaluatorValue::VariantValue(x) => {
            lemma_variant_declared_at(*x, source);
        },
        EvaluatorValue::VariantPartValue(x) => {
            if let Some(member) = x.variant {
                lemma_member_declared_at(member, source);
                assert(declared_at(named_variant(member_part(member, source)), source));
            }
            assert forall|i: int| 0 <= i < x.variants@.len() implies declared_at(
                #[trigger] variant_part(x.variants@[i], source),
                source,
            ) by {
                lemma_variant_declared_at(x.variants@[i], source);
            }
            let all = evaluated(v, value, source).children;
            let first = v.children.len() + if x.variant is Some {
                1nat
            } else {
                0nat
            };
            assert forall|i: int| v.children.len() <= i < all.len() implies declared_at(
                #[trigger] all[i],
                source,
            ) by {
                if i >= first {
                    assert(all[i] == variant_part(x.variants@[i - first], source));
                }
            }
        },
        EvaluatorValue::SubrangeTypeValue(bounds) => {
            lemma_length_declared_at(bounds, source);
        },
        EvaluatorValue::Array(a) => {
            lemma_length_declared_at(a.subrange_type_value, source);
            assert forall|i: int| 0 <= i < a.values@.len() implies declared_at(
                #[trigger] element_part(i as nat, a.values@[i], source),
                source,
            ) by {
                let bare = leaf(
                    Some("__"@ + decimal(i as nat)),
                    "< OptimizedOut >"@,
                    ""@,
                    source,
                );
                law_parts_are_declared_at_the_source(bare, a.values@[i], source);
                law_evaluation_extends(bare, a.values@[i], source);
            }
            let all = evaluated(v, value, source).children;
            let length = length_part(a.subrange_type_value, source);
            let first = v.children.len() + length.len();
            assert forall|i: int| v.children.len() <= i < all.len() implies declared_at(
                #[trigger] all[i],
                source,
            ) by {
                if i >= first {
                    assert(all[i] == element_part(
                        (i - first) as nat,
                        a.values@[i - first],
                        source,
                    ));
                } else {
                    assert(all[i] == length[i - v.children.len()]);
                }
            }
        },
        EvaluatorValue::Struct(x) => {
            let named = VariableView {
                value: x.name@,
                type_: qualified(v.type_, x.name@),
                ..v
            };
            lemma_members_declared_at(named, x.members@, x.members@.len(), source);
        },
        EvaluatorValue::Union(x) => {
            let named = VariableView { type_: qualified(v.type_, x.name@), ..v };
            lemma_members_declared_at(named, x.members@, x.members@.len(), source);
        },
        EvaluatorValue::Member(member) => {
            lemma_member_declared_at(*member, source);
        },
        _ => {},
    }
}

proof fn lemma_length_declared_at(bounds: SubrangeTypeValue, source: Option<SourceInformation>)
    ensures
        forall|i: int|
            0 <= i < length_part(bounds, source).len() ==> declared_at(
                #[trigger] length_part(bounds, source)[i],
                source,
            ),
{
}

proof fn lemma_member_declared_at(member: MemberValue, source: Option<SourceInformation>)
    ensures
        declared_at(member_part(member, source), source),
    decreases member, 1int,
{
    let bare = leaf(optional_text(member.name), "< OptimizedOut >"@, ""@, source);
    law_parts_are_declared_at_the_source(bare, member.value, source);
    law_evaluation_extends(bare, member.value, source);
}

proof fn lemma_variant_declared_at(variant: VariantValue, source: Option<SourceInformation>)
    ensures
        declared_at(variant_part(variant, source), source),
    decreases variant, 1int,
{
    lemma_member_declared_at(variant.child, source);
}

proof fn lemma_members_declared_at(
    v: VariableView,
    members: Seq<EvaluatorValue>,
    n: nat,
    source: Option<SourceInformation>,
)
    ensures
        parts_declared_at(
            evaluated_members(v, members, n, source),
            v.children.len() as int,
            source,
        ),
    decreases members, n,
{
    if 0 < n <= members.len() {
        lemma_members_declared_at(v, members, (n - 1) as nat, source);
        let before = evaluated_members(v, members, (n - 1) as nat, source);
        let after = evaluated(before, members[n - 1], source);
        law_parts_are_declared_at_the_source(before, members[n - 1], source);
        law_evaluation_extends(before, members[n - 1], source);
        assert forall|i: int| v.children.len() <= i < after.children.len() implies declared_at(
            #[trigger] after.children[i],
            source,
        ) by {
            if i < before.children.len() {
                assert(after.children[i] == before.children[i]);
            }
        }
    } else {
        assert(parts_declared_at(v, v.children.len() as int, source));
    }
}

/// What is shown of a call stack has a frame for each frame, in the same
/// order, with a variable for each of its variables, in the same order. The
/// variable and all its parts have the variable's source location.
pub proof fn law_trace_keeps_its_shape(frames: Seq<UnwoundFrame>, i: int, j: int)
    requires
        0 <= i < frames.len(),
        0 <= j < frames[i].variables@.len(),
    ensures
        resolved_trace(frames).len() == frames.len(),
        resolved_trace(frames)[i].name == frames[i].name@,
        resolved_trace(frames)[i].call_frame == frames[i].call_frame,
        resolved_trace(frames)[i].variables.len() == frames[i].variables@.len(),
        resolved_trace(frames)[i].variables[j] == resolved(frames[i].variables@[j]),
        declared_at(resolved_trace(frames)[i].variables[j], frames[i].variables@[j].source),
{
    let var = frames[i].variables@[j];
    let bare = leaf(
        optional_text(var.name),
        "This should be overwritten with the correct value"@,
        ""@,
        var.source,
    );
    law_evaluation_extends(bare, var.value, var.source);
    law_parts_are_declared_at_the_source(bare, var.value, var.source);
}

} // verus!
