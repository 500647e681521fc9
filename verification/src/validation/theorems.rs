//! What holds of every walk: only variable definitions are reported, in
//! source order, and the same way on every run.

use vstd::prelude::*;
use crate::ast::{Argument, Definition, Document, Node, Selection, VariableEntry};
use crate::schema::SchemaType;
use crate::validation::context::{error_views, RuleError, RuleErrorView};
use crate::validation::rules::rule_set::{
    lemma_only_variable_definitions_report,
    lemma_single_rule,
    Phase,
    Rule,
};
use crate::validation::rules::variables_are_input_types::{
    variable_definition_errors,
    UniqueVariableNames,
};
use crate::validation::visitor::{
    arguments_errors,
    definition_errors,
    definitions_errors,
    document_errors,
    entered,
    selection_errors,
    selection_set_errors,
    selections_errors,
    variable_definitions_errors,
};

verus! {

/// What the rules report on entering each of `definitions`, in source order.
pub open spec fn declared_variables_errors(
    rules: Seq<Rule>,
    schema: &SchemaType,
    definitions: Seq<VariableEntry>,
) -> Seq<RuleErrorView>
    decreases definitions.len(),
{
    if definitions.len() == 0 {
        Seq::empty()
    } else {
        declared_variables_errors(rules, schema, definitions.drop_last()) + entered(
            rules,
            schema,
            Node::VariableDefinition(&definitions.last()),
        )
    }
}

/// What the rules report on entering the variable definitions of each
/// operation among `definitions`, in source order.
pub open spec fn operations_variables_errors(
    rules: Seq<Rule>,
    schema: &SchemaType,
    definitions: Seq<Definition>,
) -> Seq<RuleErrorView>
    decreases definitions.len(),
{
    if definitions.len() == 0 {
        Seq::empty()
    } else {
        operations_variables_errors(rules, schema, definitions.drop_last()) + (
        match definitions.last() {
            Definition::Operation(operation) => declared_variables_errors(
                rules,
                schema,
                operation.item.variable_definitions@,
            ),
            Definition::Fragment(_) => Seq::empty(),
        })
    }
}

/// A rule set that holds this one rule reports for a variable definition
/// what the rule says of it.
pub proof fn lemma_rule_alone_reports_its_verdict(
    rule: UniqueVariableNames,
    schema: &SchemaType,
    definition: &VariableEntry,
)
    ensures
        entered(
            seq![Rule::VariablesAreInputTypes(rule)],
            schema,
            Node::VariableDefinition(definition),
        ) == variable_definition_errors(schema, definition),
{
    lemma_single_rule(
        Rule::VariablesAreInputTypes(rule),
        schema,
        Phase::Enter,
        Node::VariableDefinition(definition),
    );
}

proof fn lemma_arguments_are_quiet(rules: Seq<Rule>, schema: &SchemaType, arguments: Seq<Argument>)
    ensures
        arguments_errors(rules, schema, arguments) == Seq::<RuleErrorView>::empty(),
    decreases arguments.len(),
{
    if arguments.len() > 0 {
        lemma_arguments_are_quiet(rules, schema, arguments.drop_last());
        let node = Node::Argument(&arguments.last());
        lemma_only_variable_definitions_report(rules, schema, Phase::Enter, node);
        lemma_only_variable_definitions_report(rules, schema, Phase::Leave, node);
        assert(arguments_errors(rules, schema, arguments) =~= Seq::<RuleErrorView>::empty());
    }
}

/// Nothing is reported anywhere in a selection set: not on its fields, their
/// arguments or the sets below them, not on fragment spreads or inline
/// fragments.
pub proof fn lemma_selection_set_is_quiet(
    rules: Seq<Rule>,
    schema: &SchemaType,
    selection_set: &Vec<Selection>,
)
    ensures
        selection_set_errors(rules, schema, selection_set) == Seq::<RuleErrorView>::empty(),
    decreases selection_set, selection_set@.len() + 1,
{
    let node = Node::SelectionSet(selection_set);
    lemma_only_variable_definitions_report(rules, schema, Phase::Enter, node);
    lemma_only_variable_definitions_report(rules, schema, Phase::Leave, node);
    lemma_selections_are_quiet(rules, schema, selection_set, selection_set@.len());
    assert(selection_set_errors(rules, schema, selection_set) =~= Seq::<RuleErrorView>::empty());
}

proof fn lemma_selections_are_quiet(
    rules: Seq<Rule>,
    schema: &SchemaType,
    selection_set: &Vec<Selection>,
    upto: nat,
)
    ensures
        selections_errors(rules, schema, selection_set, upto) == Seq::<RuleErrorView>::empty(),
    decreases selection_set, upto,
{
    if upto != 0 && upto <= selection_set@.len() {
        lemma_selections_are_quiet(rules, schema, selection_set, (upto - 1) as nat);
        lemma_selection_is_quiet(rules, schema, &selection_set@[upto - 1]);
        assert(selections_errors(rules, schema, selection_set, upto)
            =~= Seq::<RuleErrorView>::empty());
    }
}

proof fn lemma_selection_is_quiet(rules: Seq<Rule>, schema: &SchemaType, selection: &Selection)
    ensures
        selection_errors(rules, schema, selection) == Seq::<RuleErrorView>::empty(),
    decreases selection, 0nat,
{
    match selection {
        Selection::Field(field) => {
            lemma_only_variable_definitions_report(rules, schema, Phase::Enter, Node::Field(field));
            lemma_only_variable_definitions_report(rules, schema, Phase::Leave, Node::Field(field));
            lemma_arguments_are_quiet(rules, schema, field.item.arguments@);
            match &field.item.selection_set {
                Some(inner) => {
                    lemma_selection_set_is_quiet(rules, schema, inner);
                },
                None => {},
            }
        },
        Selection::FragmentSpread(spread) => {
            let node = Node::FragmentSpread(spread);
            lemma_only_variable_definitions_report(rules, schema, Phase::Enter, node);
            lemma_only_variable_definitions_report(rules, schema, Phase::Leave, node);
        },
        Selection::InlineFragment(fragment) => {
            let node = Node::InlineFragment(fragment);
            lemma_only_variable_definitions_report(rules, schema, Phase::Enter, node);
            lemma_only_variable_definitions_report(rules, schema, Phase::Leave, node);
            lemma_selection_set_is_quiet(rules, schema, &fragment.item.selection_set);
        },
    }
    assert(selection_errors(rules, schema, selection) =~= Seq::<RuleErrorView>::empty());
}

proof fn lemma_variable_definitions_report_on_entry(
    rules: Seq<Rule>,
    schema: &SchemaType,
    definitions: Seq<VariableEntry>,
)
    ensures
        variable_definitions_errors(rules, schema, definitions) == declared_variables_errors(
            rules,
            schema,
            definitions,
        ),
    decreases definitions.len(),
{
    if definitions.len() > 0 {
        lemma_variable_definitions_report_on_entry(rules, schema, definitions.drop_last());
        lemma_only_variable_definitions_report(
            rules,
            schema,
            Phase::Leave,
            Node::VariableDefinition(&definitions.last()),
        );
        assert(variable_definitions_errors(rules, schema, definitions)
            =~= declared_variables_errors(rules, schema, definitions));
    }
}

proof fn lemma_definitions_report_their_variables(
    rules: Seq<Rule>,
    schema: &SchemaType,
    definitions: Seq<Definition>,
)
    ensures
        definitions_errors(rules, schema, definitions) == operations_variables_errors(
            rules,
            schema,
            definitions,
        ),
    decreases definitions.len(),
{
    if definitions.len() > 0 {
        lemma_definitions_report_their_variables(rules, schema, definitions.drop_last());
        match &definitions.last() {
            Definition::Operation(operation) => {
                let node = Node::OperationDefinition(operation);
                lemma_only_variable_definitions_report(rules, schema, Phase::Enter, node);
                lemma_only_variable_definitions_report(rules, schema, Phase::Leave, node);
                lemma_variable_definitions_report_on_entry(
                    rules,
                    schema,
                    operation.item.variable_definitions@,
                );
                lemma_selection_set_is_quiet(rules, schema, &operation.item.selection_set);
                assert(definition_errors(rules, schema, &definitions.last())
                    =~= declared_variables_errors(
                    rules,
                    schema,
                    operation.item.variable_definitions@,
                ));
            },
            Definition::Fragment(fragment) => {
                let node = Node::FragmentDefinition(fragment);
                lemma_only_variable_definitions_report(rules, schema, Phase::Enter, node);
                lemma_only_variable_definitions_report(rules, schema, Phase::Leave, node);
                lemma_selection_set_is_quiet(rules, schema, &fragment.item.selection_set);
                assert(definition_errors(rules, schema, &definitions.last())
                    =~= Seq::<RuleErrorView>::empty());
            },
        }
    }
}

/// A walk over a document reports what the rules say of the variable
/// definitions of its operations, in source order, and nothing else.
pub proof fn lemma_only_variables_are_reported(
    rules: Seq<Rule>,
    schema: &SchemaType,
    document: &Document,
)
    ensures
        document_errors(rules, schema, document) == operations_variables_errors(
            rules,
            schema,
            document@,
        ),
{
    let node = Node::Document(document);
    lemma_only_variable_definitions_report(rules, schema, Phase::Enter, node);
    lemma_only_variable_definitions_report(rules, schema, Phase::Leave, node);
    lemma_definitions_report_their_variables(rules, schema, document@);
    assert(document_errors(rules, schema, document) =~= operations_variables_errors(
        rules,
        schema,
        document@,
    ));
}

/// Errors come in the order of the variable definitions in the source,
/// however many there are: what is reported for the definitions of `front`
/// stands before what is reported for those of `back`.
pub proof fn lemma_variable_errors_follow_source_order(
    rules: Seq<Rule>,
    schema: &SchemaType,
    front: Seq<VariableEntry>,
    back: Seq<VariableEntry>,
)
    ensures
        declared_variables_errors(rules, schema, front + back) == declared_variables_errors(
            rules,
            schema,
            front,
        ) + declared_variables_errors(rules, schema, back),
    decreases back.len(),
{
    if back.len() == 0 {
        assert(front + back =~= front);
    } else {
        lemma_variable_errors_follow_source_order(rules, schema, front, back.drop_last());
        assert((front + back).drop_last() =~= front + back.drop_last());
        assert((front + back).last() == back.last());
    }
    assert(declared_variables_errors(rules, schema, front + back) =~= declared_variables_errors(
        rules,
        schema,
        front,
    ) + declared_variables_errors(rules, schema, back));
}

/// A list of one variable definition is reported as that definition is.
proof fn lemma_one_variable(rules: Seq<Rule>, schema: &SchemaType, definition: VariableEntry)
    ensures
        declared_variables_errors(rules, schema, seq![definition]) == entered(
            rules,
            schema,
            Node::VariableDefinition(&definition),
        ),
{
    let one = seq![definition];
    assert(one.drop_last() =~= Seq::<VariableEntry>::empty());
    assert(declared_variables_errors(rules, schema, one.drop_last())
        == Seq::<RuleErrorView>::empty());
    assert(one.last() == definition);
    assert(declared_variables_errors(rules, schema, one) =~= entered(
        rules,
        schema,
        Node::VariableDefinition(&definition),
    ));
}

/// What is reported for the definition at `at` stands in the errors of the
/// whole list right behind what is reported for the definitions before it.
pub proof fn lemma_variable_errors_have_their_place(
    rules: Seq<Rule>,
    schema: &SchemaType,
    definitions: Seq<VariableEntry>,
    at: int,
)
    requires
        0 <= at < definitions.len(),
    ensures
        ({
            let all = declared_variables_errors(rules, schema, definitions);
            let before = declared_variables_errors(rules, schema, definitions.take(at));
            let here = entered(rules, schema, Node::VariableDefinition(&definitions[at]));
            &&& declared_variables_errors(rules, schema, definitions.take(at + 1)) == before + here
            &&& before.len() + here.len() <= all.len()
            &&& all.subrange(0, before.len() as int) == before
            &&& all.subrange(before.len() as int, (before.len() + here.len()) as int) == here
        }),
{
    let all = declared_variables_errors(rules, schema, definitions);
    let before = declared_variables_errors(rules, schema, definitions.take(at));
    let here = entered(rules, schema, Node::VariableDefinition(&definitions[at]));
    let behind = declared_variables_errors(rules, schema, definitions.skip(at + 1));
    lemma_one_variable(rules, schema, definitions[at]);
    lemma_variable_errors_follow_source_order(
        rules,
        schema,
        definitions.take(at),
        seq![definitions[at]],
    );
    assert(definitions.take(at) + seq![definitions[at]] =~= definitions.take(at + 1));
    lemma_variable_errors_follow_source_order(
        rules,
        schema,
        definitions.take(at + 1),
        definitions.skip(at + 1),
    );
    assert(definitions.take(at + 1) + definitions.skip(at + 1) =~= definitions);
    assert(all =~= before + here + behind);
    assert(all.subrange(0, before.len() as int) =~= before);
    assert(all.subrange(before.len() as int, (before.len() + here.len()) as int) =~= here);
}

/// Of two variable definitions of one list, what is reported for the earlier
/// one stands wholly before what is reported for the later one.
pub proof fn lemma_earlier_variable_is_reported_first(
    rules: Seq<Rule>,
    schema: &SchemaType,
    definitions: Seq<VariableEntry>,
    earlier: int,
    later: int,
)
    requires
        0 <= earlier < later < definitions.len(),
    ensures
        declared_variables_errors(rules, schema, definitions.take(earlier)).len() + entered(
            rules,
            schema,
            Node::VariableDefinition(&definitions[earlier]),
        ).len() <= declared_variables_errors(rules, schema, definitions.take(later)).len(),
{
    lemma_variable_errors_have_their_place(rules, schema, definitions, earlier);
    lemma_variable_errors_follow_source_order(
        rules,
        schema,
        definitions.take(earlier + 1),
        definitions.subrange(earlier + 1, later),
    );
    assert(definitions.take(earlier + 1) + definitions.subrange(earlier + 1, later)
        =~= definitions.take(later));
}

/// Errors come in the order of the operations in the source: what is
/// reported for the definitions of `front` stands before what is reported
/// for those of `back`.
pub proof fn lemma_document_errors_follow_source_order(
    rules: Seq<Rule>,
    schema: &SchemaType,
    front: Seq<Definition>,
    back: Seq<Definition>,
)
    ensures
        operations_variables_errors(rules, schema, front + back) == operations_variables_errors(
            rules,
            schema,
            front,
        ) + operations_variables_errors(rules, schema, back),
    decreases back.len(),
{
    if back.len() == 0 {
        assert(front + back =~= front);
    } else {
        lemma_document_errors_follow_source_order(rules, schema, front, back.drop_last());
        assert((front + back).drop_last() =~= front + back.drop_last());
        assert((front + back).last() == back.last());
    }
    assert(operations_variables_errors(rules, schema, front + back)
        =~= operations_variables_errors(rules, schema, front) + operations_variables_errors(
        rules,
        schema,
        back,
    ));
}

/// Two runs over the same document, schema and rule set return the same
/// errors in the same order: what a run returns is determined by what it
/// was given, and no rule keeps anything from one run to the next.
pub proof fn lemma_runs_agree(
    first: Seq<RuleError>,
    second: Seq<RuleError>,
    rules: Seq<Rule>,
    schema: &SchemaType,
    document: &Document,
)
    requires
        error_views(first) == document_errors(rules, schema, document),
        error_views(second) == document_errors(rules, schema, document),
    ensures
        first.len() == second.len(),
        forall|at: int| 0 <= at < first.len() ==> (#[trigger] first[at])@ == second[at]@,
{
    assert(error_views(first).len() == first.len());
    assert(error_views(second).len() == second.len());
    assert forall|at: int| 0 <= at < first.len() implies (#[trigger] first[at])@ == second[at]@ by {
        assert(error_views(first)[at] == first[at]@);
        assert(error_views(second)[at] == second[at]@);
    }
}

} // verus!
