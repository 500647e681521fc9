//! The closed set of rules, and how a node is handed to each of them.

use vstd::prelude::*;
use crate::ast::Node;
use crate::schema::SchemaType;
use crate::validation::context::{RuleErrorView, ValidatorContext};
use crate::validation::rules::variables_are_input_types::{
    variable_definition_errors,
    UniqueVariableNames,
};

verus! {

/// The two moments at which the walk hands a node to the rules: before it
/// descends into the node's children, and after it has left them.
#[derive(Clone, Copy, Debug, PartialEq, Eq, Structural)]
pub enum Phase {
    Enter,
    Leave,
}

/// One rule of a rule set.
#[derive(Debug)]
pub enum Rule {
    VariablesAreInputTypes(UniqueVariableNames),
}

impl Rule {
    /// What this rule reports when the walk hands it `node` in `phase`.
    pub open spec fn reports(&self, schema: &SchemaType, phase: Phase, node: Node) -> Seq<
        RuleErrorView,
    > {
        match self {
            Rule::VariablesAreInputTypes(_) => match (phase, node) {
                (Phase::Enter, Node::VariableDefinition(definition)) => variable_definition_errors(
                    schema,
                    definition,
                ),
                _ => Seq::empty(),
            },
        }
    }

    /// Hands `node` to the rule before the walk descends into it.
    pub fn enter<'a>(&mut self, ctx: &mut ValidatorContext<'a>, node: Node)
        ensures
            *final(self) == *old(self),
            final(ctx).schema == old(ctx).schema,
            final(ctx).reported() == old(ctx).reported() + old(self).reports(
                old(ctx).schema,
                Phase::Enter,
                node,
            ),
    {
        match self {
            Rule::VariablesAreInputTypes(rule) => match node {
                Node::VariableDefinition(definition) => {
                    rule.enter_variable_definition(ctx, definition);
                },
                Node::Document(_) => {},
                Node::OperationDefinition(_) => {},
                Node::FragmentDefinition(_) => {},
                Node::SelectionSet(_) => {},
                Node::Field(_) => {},
                Node::Argument(_) => {},
                Node::FragmentSpread(_) => {},
                Node::InlineFragment(_) => {},
            },
        }
        assert(final(ctx).reported() =~= old(ctx).reported() + old(self).reports(
            old(ctx).schema,
            Phase::Enter,
            node,
        ));
    }

    /// Hands `node` to the rule after the walk has left its children.
    pub fn leave<'a>(&mut self, ctx: &mut ValidatorContext<'a>, node: Node)
        ensures
            *final(self) == *old(self),
            final(ctx).schema == old(ctx).schema,
            final(ctx).reported() == old(ctx).reported() + old(self).reports(
                old(ctx).schema,
                Phase::Leave,
                node,
            ),
    {
        match self {
            Rule::VariablesAreInputTypes(_) => {},
        }
        assert(final(ctx).reported() =~= old(ctx).reported() + old(self).reports(
            old(ctx).schema,
            Phase::Leave,
            node,
        ));
    }
}

/// What the rules of a set report, one after the other in the order of the
/// set, when the walk hands them `node` in `phase`.
pub open spec fn rules_report(rules: Seq<Rule>, schema: &SchemaType, phase: Phase, node: Node) -> Seq<
    RuleErrorView,
>
    decreases rules.len(),
{
    if rules.len() == 0 {
        Seq::empty()
    } else {
        rules_report(rules.drop_last(), schema, phase, node) + rules.last().reports(
            schema,
            phase,
            node,
        )
    }
}

/// Hands `node` to every rule of the set, in the order of the set.
pub fn dispatch<'a>(
    rules: &mut Vec<Rule>,
    ctx: &mut ValidatorContext<'a>,
    phase: Phase,
    node: Node,
)
    ensures
        final(rules)@ == old(rules)@,
        final(ctx).schema == old(ctx).schema,
        final(ctx).reported() == old(ctx).reported() + rules_report(
            old(rules)@,
            old(ctx).schema,
            phase,
            node,
        ),
{
    let mut at: usize = 0;
    assert(rules@.take(0) =~= Seq::<Rule>::empty());
    assert(ctx.reported() =~= old(ctx).reported() + Seq::<RuleErrorView>::empty());
    while at < rules.len()
        invariant
            at <= rules.len(),
            rules@ == old(rules)@,
            ctx.schema == old(ctx).schema,
            ctx.reported() == old(ctx).reported() + rules_report(
                rules@.take(at as int),
                ctx.schema,
                phase,
                node,
            ),
        decreases rules.len() - at,
    {
        let ghost all = rules@;
        match phase {
            Phase::Enter => rules[at].enter(ctx, node),
            Phase::Leave => rules[at].leave(ctx, node),
        }
        proof {
            assert(rules@ =~= all);
            let upto = all.take(at + 1);
            assert(upto.drop_last() =~= all.take(at as int));
            assert(upto.last() == all[at as int]);
            assert(ctx.reported() =~= old(ctx).reported() + rules_report(
                upto,
                ctx.schema,
                phase,
                node,
            ));
        }
        at += 1;
    }
    assert(rules@.take(at as int) =~= rules@);
}

/// A set of one rule reports what that rule reports.
pub proof fn lemma_single_rule(rule: Rule, schema: &SchemaType, phase: Phase, node: Node)
    ensures
        rules_report(seq![rule], schema, phase, node) == rule.reports(schema, phase, node),
{
    assert(seq![rule].drop_last() =~= Seq::<Rule>::empty());
    assert(rules_report(seq![rule].drop_last(), schema, phase, node)
        == Seq::<RuleErrorView>::empty());
    assert(rules_report(seq![rule], schema, phase, node) =~= rule.reports(schema, phase, node));
}

/// No rule of the set reports anywhere but on entering a variable
/// definition.
pub proof fn lemma_only_variable_definitions_report(
    rules: Seq<Rule>,
    schema: &SchemaType,
    phase: Phase,
    node: Node,
)
    requires
        !(phase == Phase::Enter && node is VariableDefinition),
    ensures
        rules_report(rules, schema, phase, node) == Seq::<RuleErrorView>::empty(),
    decreases rules.len(),
{
    if rules.len() > 0 {
        lemma_only_variable_definitions_report(rules.drop_last(), schema, phase, node);
        assert(rules_report(rules, schema, phase, node) =~= Seq::<RuleErrorView>::empty());
    }
}

} // verus!
