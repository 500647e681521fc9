//! The rule that every variable is declared with a type that values can be
//! passed in as: a scalar, an enum or an input object, under any wrapping.

use vstd::prelude::*;
use crate::ast::VariableEntry;
use crate::parser::SourcePosition;
use crate::schema::{SchemaType, TypeKind};
use crate::validation::context::{RuleErrorView, ValidatorContext};

verus! {

/// The rule itself. It keeps nothing between one node and the next.
#[derive(Debug)]
pub struct UniqueVariableNames {}

pub fn factory() -> (rule: UniqueVariableNames)
    ensures
        rule == (UniqueVariableNames {}),
{
    UniqueVariableNames {}
}

/// The message for a variable `var_name` declared with the type written as
/// `type_text`.
pub open spec fn spec_error_message(var_name: Seq<char>, type_text: Seq<char>) -> Seq<char> {
    "Variable \""@ + var_name + "\" cannot be of non-input type \""@ + type_text + "\""@
}

pub fn error_message(var_name: &str, type_text: &str) -> (message: String)
    ensures
        message@ == spec_error_message(var_name@, type_text@),
{
    let mut message = String::from_str("Variable \"");
    message.append(var_name);
    message.append("\" cannot be of non-input type \"");
    message.append(type_text);
    message.append("\"");
    message
}

/// What the rule reports for one variable definition under `schema`: nothing
/// where the innermost name of its type is unknown or names an input type,
/// else one error at the start of the type as written.
pub open spec fn variable_definition_errors(
    schema: &SchemaType,
    definition: &VariableEntry,
) -> Seq<RuleErrorView> {
    match schema.kind_of(definition.1.var_type.item.spec_innermost_name()) {
        Some(kind) => if kind.spec_is_input() {
            Seq::empty()
        } else {
            seq![
                RuleErrorView {
                    message: spec_error_message(
                        definition.0.item@,
                        definition.1.var_type.item.rendered(),
                    ),
                    locations: seq![definition.1.var_type.start],
                },
            ]
        },
        None => Seq::empty(),
    }
}

impl UniqueVariableNames {
    /// Checks one variable definition and reports it if its type is no input
    /// type. The rule keeps nothing from one definition to the next.
    pub fn enter_variable_definition<'a>(
        &mut self,
        ctx: &mut ValidatorContext<'a>,
        definition: &VariableEntry,
    )
        ensures
            *final(self) == *old(self),
            final(ctx).schema == old(ctx).schema,
            final(ctx).reported() == old(ctx).reported() + variable_definition_errors(
                old(ctx).schema,
                definition,
            ),
    {
        let var_def = &definition.1;
        if let Some(var_type) = ctx.concrete_type_by_name(var_def.var_type.item.innermost_name()) {
            if !var_type.is_input() {
                let type_text = var_def.var_type.item.render();
                let message = error_message(definition.0.item.as_str(), type_text.as_str());
                let locations: [SourcePosition; 1] = [var_def.var_type.start];
                ctx.report_error(message.as_str(), locations.as_slice());
                assert(locations@ =~= seq![var_def.var_type.start]);
                assert(final(ctx).reported() =~= old(ctx).reported() + variable_definition_errors(
                    old(ctx).schema,
                    definition,
                ));
                return ;
            }
        }
        assert(final(ctx).reported() =~= old(ctx).reported() + variable_definition_errors(
            old(ctx).schema,
            definition,
        ));
    }
}

/// Whether `part` stands in `text` from position `at` on.
pub open spec fn occurs_at(text: Seq<char>, part: Seq<char>, at: nat) -> bool {
    at + part.len() <= text.len() && text.subrange(at as int, (at + part.len()) as int) == part
}

/// The message holds the variable's name behind its first ten characters,
/// and the type as written thirty-one characters behind the name.
pub proof fn lemma_message_holds_name_and_type(var_name: Seq<char>, type_text: Seq<char>)
    ensures
        spec_error_message(var_name, type_text).len() == var_name.len() + type_text.len() + 42,
        occurs_at(spec_error_message(var_name, type_text), var_name, 10),
        occurs_at(spec_error_message(var_name, type_text), type_text, 41 + var_name.len()),
{
    reveal_strlit("Variable \"");
    reveal_strlit("\" cannot be of non-input type \"");
    reveal_strlit("\"");
    let message = spec_error_message(var_name, type_text);
    let name_end: int = (10 + var_name.len()) as int;
    let type_start: int = (41 + var_name.len()) as int;
    assert(message.subrange(10, name_end) =~= var_name);
    assert(message.subrange(type_start, type_start + type_text.len()) =~= type_text);
}

/// A variable whose type names, under any wrapping, a scalar, an enum or an
/// input object is not reported.
pub proof fn lemma_input_type_is_accepted(schema: &SchemaType, definition: &VariableEntry)
    requires
        schema.kind_of(definition.1.var_type.item.spec_innermost_name()) matches Some(kind)
            && (kind == TypeKind::Scalar || kind == TypeKind::Enum || kind
            == TypeKind::InputObject),
    ensures
        variable_definition_errors(schema, definition) == Seq::<RuleErrorView>::empty(),
{
}

/// A variable whose type names, under any wrapping, an object, an interface
/// or a union is reported exactly once: with the message made of its name
/// and its type as written, which holds both, and with the start of the type
/// as its one location.
pub proof fn lemma_output_type_is_reported_once(schema: &SchemaType, definition: &VariableEntry)
    requires
        schema.kind_of(definition.1.var_type.item.spec_innermost_name()) matches Some(kind)
            && (kind == TypeKind::Object || kind == TypeKind::Interface || kind
            == TypeKind::Union),
    ensures
        variable_definition_errors(schema, definition).len() == 1,
        variable_definition_errors(schema, definition)[0].message == spec_error_message(
            definition.0.item@,
            definition.1.var_type.item.rendered(),
        ),
        occurs_at(variable_definition_errors(schema, definition)[0].message, definition.0.item@, 10),
        occurs_at(
            variable_definition_errors(schema, definition)[0].message,
            definition.1.var_type.item.rendered(),
            41 + definition.0.item@.len(),
        ),
        variable_definition_errors(schema, definition)[0].locations
            == seq![definition.1.var_type.start],
{
    lemma_message_holds_name_and_type(definition.0.item@, definition.1.var_type.item.rendered());
}

/// A variable whose innermost type name the schema does not define is not
/// reported: unknown names are not this rule's concern.
pub proof fn lemma_unknown_type_is_skipped(schema: &SchemaType, definition: &VariableEntry)
    requires
        schema.kind_of(definition.1.var_type.item.spec_innermost_name()) is None,
    ensures
        variable_definition_errors(schema, definition) == Seq::<RuleErrorView>::empty(),
{
}

/// Whether a variable is reported depends on the innermost name of its type
/// alone: list and non-null layers change nothing.
pub proof fn lemma_wrapping_changes_no_verdict(
    schema: &SchemaType,
    first: &VariableEntry,
    second: &VariableEntry,
)
    requires
        first.1.var_type.item.spec_innermost_name() == second.1.var_type.item.spec_innermost_name(),
    ensures
        variable_definition_errors(schema, first).len() == variable_definition_errors(
            schema,
            second,
        ).len(),
{
}

} // verus!
