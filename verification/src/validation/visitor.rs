//! The walk over a document: one pass in source order, every node handed to
//! each rule on the way in and on the way out.

use vstd::prelude::*;
use crate::ast::{Argument, Definition, Document, Node, Selection, VariableEntry};
use crate::schema::SchemaType;
use crate::validation::context::{error_views, RuleError, RuleErrorView, ValidatorContext};
use crate::validation::rules::rule_set::{dispatch, rules_report, Phase, Rule};
use crate::validation::theorems::{lemma_only_variables_are_reported, operations_variables_errors};

verus! {

/// What the rules report on the way into `node`.
pub open spec fn entered(rules: Seq<Rule>, schema: &SchemaType, node: Node) -> Seq<RuleErrorView> {
    rules_report(rules, schema, Phase::Enter, node)
}

/// What the rules report on the way out of `node`.
pub open spec fn left(rules: Seq<Rule>, schema: &SchemaType, node: Node) -> Seq<RuleErrorView> {
    rules_report(rules, schema, Phase::Leave, node)
}

/// What a walk over the arguments of a field reports: each argument entered
/// and left, in source order.
pub open spec fn arguments_errors(rules: Seq<Rule>, schema: &SchemaType, arguments: Seq<Argument>) -> Seq<
    RuleErrorView,
>
    decreases arguments.len(),
{
    if arguments.len() == 0 {
        Seq::empty()
    } else {
        arguments_errors(rules, schema, arguments.drop_last()) + entered(
            rules,
            schema,
            Node::Argument(&arguments.last()),
        ) + left(rules, schema, Node::Argument(&arguments.last()))
    }
}

/// What a walk over a selection set reports: the set entered, its selections
/// in source order, the set left.
pub open spec fn selection_set_errors(
    rules: Seq<Rule>,
    schema: &SchemaType,
    selection_set: &Vec<Selection>,
) -> Seq<RuleErrorView>
    decreases selection_set, selection_set@.len() + 1,
{
    entered(rules, schema, Node::SelectionSet(selection_set)) + selections_errors(
        rules,
        schema,
        selection_set,
        selection_set@.len(),
    ) + left(rules, schema, Node::SelectionSet(selection_set))
}

/// What a walk over the first `upto` selections of a set reports.
pub open spec fn selections_errors(
    rules: Seq<Rule>,
    schema: &SchemaType,
    selection_set: &Vec<Selection>,
    upto: nat,
) -> Seq<RuleErrorView>
    decreases selection_set, upto,
{
    if upto == 0 || upto > selection_set@.len() {
        Seq::empty()
    } else {
        selections_errors(rules, schema, selection_set, (upto - 1) as nat) + selection_errors(
            rules,
            schema,
            &selection_set@[upto - 1],
        )
    }
}

/// What a walk over one selection reports: a field entered, its arguments,
/// its selection set if it has one, the field left; a fragment spread
/// entered and left; an inline fragment entered, its selection set, the
/// fragment left.
pub open spec fn selection_errors(rules: Seq<Rule>, schema: &SchemaType, selection: &Selection) -> Seq<
    RuleErrorView,
>
    decreases selection, 0nat,
{
    match selection {
        Selection::Field(field) => entered(rules, schema, Node::Field(field)) + arguments_errors(
            rules,
            schema,
            field.item.arguments@,
        ) + (match &field.item.selection_set {
            Some(inner) => selection_set_errors(rules, schema, inner),
            None => Seq::empty(),
        }) + left(rules, schema, Node::Field(field)),
        Selection::FragmentSpread(spread) => entered(rules, schema, Node::FragmentSpread(spread))
            + left(rules, schema, Node::FragmentSpread(spread)),
        Selection::InlineFragment(fragment) => entered(
            rules,
            schema,
            Node::InlineFragment(fragment),
        ) + selection_set_errors(rules, schema, &fragment.item.selection_set) + left(
            rules,
            schema,
            Node::InlineFragment(fragment),
        ),
    }
}

/// What a walk over a list of variable definitions reports: each definition
/// entered and left, in source order.
pub open spec fn variable_definitions_errors(
    rules: Seq<Rule>,
    schema: &SchemaType,
    definitions: Seq<VariableEntry>,
) -> Seq<RuleErrorView>
    decreases definitions.len(),
{
    if definitions.len() == 0 {
        Seq::empty()
    } else {
        variable_definitions_errors(rules, schema, definitions.drop_last()) + entered(
            rules,
            schema,
            Node::VariableDefinition(&definitions.last()),
        ) + left(rules, schema, Node::VariableDefinition(&definitions.last()))
    }
}

/// What a walk over one top-level definition reports: an operation entered,
/// its variable definitions, its selection set, the operation left; a
/// fragment entered, its selection set, the fragment left.
pub open spec fn definition_errors(rules: Seq<Rule>, schema: &SchemaType, definition: &Definition) -> Seq<
    RuleErrorView,
> {
    match definition {
        Definition::Operation(operation) => entered(
            rules,
            schema,
            Node::OperationDefinition(operation),
        ) + variable_definitions_errors(rules, schema, operation.item.variable_definitions@)
            + selection_set_errors(rules, schema, &operation.item.selection_set) + left(
            rules,
            schema,
            Node::OperationDefinition(operation),
        ),
        Definition::Fragment(fragment) => entered(rules, schema, Node::FragmentDefinition(fragment))
            + selection_set_errors(rules, schema, &fragment.item.selection_set) + left(
            rules,
            schema,
            Node::FragmentDefinition(fragment),
        ),
    }
}

/// What a walk over a list of top-level definitions reports, in source order.
pub open spec fn definitions_errors(
    rules: Seq<Rule>,
    schema: &SchemaType,
    definitions: Seq<Definition>,
) -> Seq<RuleErrorView>
    decreases definitions.len(),
{
    if definitions.len() == 0 {
        Seq::empty()
    } else {
        definitions_errors(rules, schema, definitions.drop_last()) + definition_errors(
            rules,
            schema,
            &definitions.last(),
        )
    }
}

/// What a walk over a whole document reports: the document entered, its
/// definitions in source order, the document left.
pub open spec fn document_errors(rules: Seq<Rule>, schema: &SchemaType, document: &Document) -> Seq<
    RuleErrorView,
> {
    entered(rules, schema, Node::Document(document)) + definitions_errors(
        rules,
        schema,
        document@,
    ) + left(rules, schema, Node::Document(document))
}

/// Enters and leaves a node without children.
fn visit_leaf<'a>(rules: &mut Vec<Rule>, ctx: &mut ValidatorContext<'a>, node: Node)
    ensures
        final(rules)@ == old(rules)@,
        final(ctx).schema == old(ctx).schema,
        final(ctx).reported() == old(ctx).reported() + entered(
            old(rules)@,
            old(ctx).schema,
            node,
        ) + left(old(rules)@, old(ctx).schema, node),
{
    dispatch(rules, ctx, Phase::Enter, node);
    dispatch(rules, ctx, Phase::Leave, node);
}

/// Walks the arguments of a field in source order.
pub fn visit_arguments<'a>(
    rules: &mut Vec<Rule>,
    ctx: &mut ValidatorContext<'a>,
    arguments: &Vec<Argument>,
)
    ensures
        final(rules)@ == old(rules)@,
        final(ctx).schema == old(ctx).schema,
        final(ctx).reported() == old(ctx).reported() + arguments_errors(
            old(rules)@,
            old(ctx).schema,
            arguments@,
        ),
{
    let mut at: usize = 0;
    assert(arguments@.take(0) =~= Seq::<Argument>::empty());
    assert(ctx.reported() =~= old(ctx).reported() + Seq::<RuleErrorView>::empty());
    while at < arguments.len()
        invariant
            at <= arguments.len(),
            rules@ == old(rules)@,
            ctx.schema == old(ctx).schema,
            ctx.reported() == old(ctx).reported() + arguments_errors(
                rules@,
                ctx.schema,
                arguments@.take(at as int),
            ),
        decreases arguments.len() - at,
    {
        visit_leaf(rules, ctx, Node::Argument(&arguments[at]));
        proof {
            let upto = arguments@.take(at + 1);
            assert(upto.drop_last() =~= arguments@.take(at as int));
            assert(upto.last() == arguments@[at as int]);
            assert(ctx.reported() =~= old(ctx).reported() + arguments_errors(
                rules@,
                ctx.schema,
                upto,
            ));
        }
        at += 1;
    }
    assert(arguments@.take(at as int) =~= arguments@);
}

/// Walks a selection set: enters it, walks its selections in source order,
/// leaves it.
pub fn visit_selection_set<'a>(
    rules: &mut Vec<Rule>,
    ctx: &mut ValidatorContext<'a>,
    selection_set: &Vec<Selection>,
)
    ensures
        final(rules)@ == old(rules)@,
        final(ctx).schema == old(ctx).schema,
        final(ctx).reported() == old(ctx).reported() + selection_set_errors(
            old(rules)@,
            old(ctx).schema,
            selection_set,
        ),
    decreases selection_set,
{
    dispatch(rules, ctx, Phase::Enter, Node::SelectionSet(selection_set));
    let mut at: usize = 0;
    assert(ctx.reported() =~= old(ctx).reported() + (entered(
        rules@,
        ctx.schema,
        Node::SelectionSet(selection_set),
    ) + selections_errors(rules@, ctx.schema, selection_set, 0)));
    while at < selection_set.len()
        invariant
            at <= selection_set.len(),
            rules@ == old(rules)@,
            ctx.schema == old(ctx).schema,
            ctx.reported() == old(ctx).reported() + (entered(
                rules@,
                ctx.schema,
                Node::SelectionSet(selection_set),
            ) + selections_errors(rules@, ctx.schema, selection_set, at as nat)),
        decreases selection_set.len() - at,
    {
        visit_selection(rules, ctx, &selection_set[at]);
        assert(ctx.reported() =~= old(ctx).reported() + (entered(
            rules@,
            ctx.schema,
            Node::SelectionSet(selection_set),
        ) + selections_errors(rules@, ctx.schema, selection_set, (at + 1) as nat)));
        at += 1;
    }
    dispatch(rules, ctx, Phase::Leave, Node::SelectionSet(selection_set));
    assert(final(ctx).reported() =~= old(ctx).reported() + selection_set_errors(
        old(rules)@,
        old(ctx).schema,
        selection_set,
    ));
}

/// Walks one selection with all that stands below it.
pub fn visit_selection<'a>(
    rules: &mut Vec<Rule>,
    ctx: &mut ValidatorContext<'a>,
    selection: &Selection,
)
    ensures
        final(rules)@ == old(rules)@,
        final(ctx).schema == old(ctx).schema,
        final(ctx).reported() == old(ctx).reported() + selection_errors(
            old(rules)@,
            old(ctx).schema,
            selection,
        ),
    decreases selection,
{
    match selection {
        Selection::Field(field) => {
            dispatch(rules, ctx, Phase::Enter, Node::Field(field));
            visit_arguments(rules, ctx, &field.item.arguments);
            let ghost above = ctx.reported();
            if let Some(inner) = &field.item.selection_set {
                visit_selection_set(rules, ctx, inner);
            } else {
                assert(ctx.reported() =~= above + Seq::<RuleErrorView>::empty());
            }
            dispatch(rules, ctx, Phase::Leave, Node::Field(field));
        },
        Selection::FragmentSpread(spread) => {
            visit_leaf(rules, ctx, Node::FragmentSpread(spread));
        },
        Selection::InlineFragment(fragment) => {
            dispatch(rules, ctx, Phase::Enter, Node::InlineFragment(fragment));
            visit_selection_set(rules, ctx, &fragment.item.selection_set);
            dispatch(rules, ctx, Phase::Leave, Node::InlineFragment(fragment));
        },
    }
    assert(final(ctx).reported() =~= old(ctx).reported() + selection_errors(
        old(rules)@,
        old(ctx).schema,
        selection,
    ));
}

/// Walks the variable definitions of an operation in source order.
pub fn visit_variable_definitions<'a>(
    rules: &mut Vec<Rule>,
    ctx: &mut ValidatorContext<'a>,
    definitions: &Vec<VariableEntry>,
)
    ensures
        final(rules)@ == old(rules)@,
        final(ctx).schema == old(ctx).schema,
        final(ctx).reported() == old(ctx).reported() + variable_definitions_errors(
            old(rules)@,
            old(ctx).schema,
            definitions@,
        ),
{
    let mut at: usize = 0;
    assert(definitions@.take(0) =~= Seq::<VariableEntry>::empty());
    assert(ctx.reported() =~= old(ctx).reported() + Seq::<RuleErrorView>::empty());
    while at < definitions.len()
        invariant
            at <= definitions.len(),
            rules@ == old(rules)@,
            ctx.schema == old(ctx).schema,
            ctx.reported() == old(ctx).reported() + variable_definitions_errors(
                rules@,
                ctx.schema,
                definitions@.take(at as int),
            ),
        decreases definitions.len() - at,
    {
        visit_leaf(rules, ctx, Node::VariableDefinition(&definitions[at]));
        proof {
            let upto = definitions@.take(at + 1);
            assert(upto.drop_last() =~= definitions@.take(at as int));
            assert(upto.last() == definitions@[at as int]);
            assert(ctx.reported() =~= old(ctx).reported() + variable_definitions_errors(
                rules@,
                ctx.schema,
                upto,
            ));
        }
        at += 1;
    }
    assert(definitions@.take(at as int) =~= definitions@);
}

/// Walks one top-level definition: an operation with its variable
/// definitions and then its selection set, or a fragment with its selection
/// set.
pub fn visit_definition<'a>(
    rules: &mut Vec<Rule>,
    ctx: &mut ValidatorContext<'a>,
    definition: &Definition,
)
    ensures
        final(rules)@ == old(rules)@,
        final(ctx).schema == old(ctx).schema,
        final(ctx).reported() == old(ctx).reported() + definition_errors(
            old(rules)@,
            old(ctx).schema,
            definition,
        ),
{
    match definition {
        Definition::Operation(operation) => {
            dispatch(rules, ctx, Phase::Enter, Node::OperationDefinition(operation));
            visit_variable_definitions(rules, ctx, &operation.item.variable_definitions);
            visit_selection_set(rules, ctx, &operation.item.selection_set);
            dispatch(rules, ctx, Phase::Leave, Node::OperationDefinition(operation));
        },
        Definition::Fragment(fragment) => {
            dispatch(rules, ctx, Phase::Enter, Node::FragmentDefinition(fragment));
            visit_selection_set(rules, ctx, &fragment.item.selection_set);
            dispatch(rules, ctx, Phase::Leave, Node::FragmentDefinition(fragment));
        },
    }
    assert(final(ctx).reported() =~= old(ctx).reported() + definition_errors(
        old(rules)@,
        old(ctx).schema,
        definition,
    ));
}

/// Walks a document once, in source order, and leaves in the context what
/// the rules reported, behind what was there before.
pub fn visit<'a>(rules: &mut Vec<Rule>, ctx: &mut ValidatorContext<'a>, document: &Document)
    ensures
        final(rules)@ == old(rules)@,
        final(ctx).schema == old(ctx).schema,
        final(ctx).reported() == old(ctx).reported() + document_errors(
            old(rules)@,
            old(ctx).schema,
            document,
        ),
{
    dispatch(rules, ctx, Phase::Enter, Node::Document(document));
    let mut at: usize = 0;
    assert(document@.take(0) =~= Seq::<Definition>::empty());
    assert(ctx.reported() =~= old(ctx).reported() + (entered(
        rules@,
        ctx.schema,
        Node::Document(document),
    ) + definitions_errors(rules@, ctx.schema, document@.take(0))));
    while at < document.len()
        invariant
            at <= document.len(),
            rules@ == old(rules)@,
            ctx.schema == old(ctx).schema,
            ctx.reported() == old(ctx).reported() + (entered(
                rules@,
                ctx.schema,
                Node::Document(document),
            ) + definitions_errors(rules@, ctx.schema, document@.take(at as int))),
        decreases document.len() - at,
    {
        visit_definition(rules, ctx, &document[at]);
        proof {
            let upto = document@.take(at + 1);
            assert(upto.drop_last() =~= document@.take(at as int));
            assert(upto.last() == document@[at as int]);
            assert(ctx.reported() =~= old(ctx).reported() + (entered(
                rules@,
                ctx.schema,
                Node::Document(document),
            ) + definitions_errors(rules@, ctx.schema, upto)));
        }
        at += 1;
    }
    assert(document@.take(at as int) =~= document@);
    dispatch(rules, ctx, Phase::Leave, Node::Document(document));
    assert(final(ctx).reported() =~= old(ctx).reported() + document_errors(
        old(rules)@,
        old(ctx).schema,
        document,
    ));
}

/// Validates `document` against `schema` under the rules of `rules`, and
/// returns what one walk over the document reports: the verdicts of the
/// rules on the variable definitions of its operations, in source order.
/// The document passes where the result is empty.
pub fn validate(document: &Document, schema: &SchemaType, rules: Vec<Rule>) -> (errors: Vec<
    RuleError,
>)
    ensures
        error_views(errors@) == document_errors(rules@, schema, document),
        error_views(errors@) == operations_variables_errors(rules@, schema, document@),
{
    let mut rules = rules;
    let mut ctx = ValidatorContext::new(schema);
    visit(&mut rules, &mut ctx, document);
    proof {
        lemma_only_variables_are_reported(rules@, schema, document);
        assert(ctx.reported() =~= document_errors(rules@, schema, document));
    }
    ctx.into_errors()
}

} // verus!
