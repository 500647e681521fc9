//! The state of one validation run: the schema it reads and the errors
//! reported so far.

use vstd::prelude::*;
use vstd::slice::slice_to_vec;
use crate::parser::SourcePosition;
use crate::schema::{MetaType, SchemaType};

verus! {

/// A violation found by a rule: what is wrong, and where in the source.
#[derive(Clone, Debug, PartialEq, Eq)]
pub struct RuleError {
    pub locations: Vec<SourcePosition>,
    pub message: String,
}

/// What a `RuleError` says: its message as characters, its locations in order.
pub struct RuleErrorView {
    pub message: Seq<char>,
    pub locations: Seq<SourcePosition>,
}

impl View for RuleError {
    type V = RuleErrorView;

    open spec fn view(&self) -> RuleErrorView {
        RuleErrorView { message: self.message@, locations: self.locations@ }
    }
}

/// What a list of errors says, entry by entry.
pub open spec fn error_views(errors: Seq<RuleError>) -> Seq<RuleErrorView> {
    errors.map_values(|error: RuleError| error@)
}

impl RuleError {
    pub fn new(message: &str, locations: &[SourcePosition]) -> (error: RuleError)
        ensures
            error@ == (RuleErrorView { message: message@, locations: locations@ }),
    {
        RuleError { message: String::from_str(message), locations: slice_to_vec(locations) }
    }

    pub fn message(&self) -> (message: &str)
        ensures
            message@ == self@.message,
    {
        self.message.as_str()
    }

    pub fn locations(&self) -> (locations: &[SourcePosition])
        ensures
            locations@ == self@.locations,
    {
        self.locations.as_slice()
    }
}

/// The state that the rules of one run share.
pub struct ValidatorContext<'a> {
    pub schema: &'a SchemaType,
    pub errors: Vec<RuleError>,
}

impl<'a> ValidatorContext<'a> {
    /// The errors reported so far, oldest first.
    pub open spec fn reported(&self) -> Seq<RuleErrorView> {
        error_views(self.errors@)
    }

    /// A context over `schema` with nothing reported yet.
    pub fn new(schema: &'a SchemaType) -> (ctx: ValidatorContext<'a>)
        ensures
            ctx.schema == schema,
            ctx.reported() == Seq::<RuleErrorView>::empty(),
    {
        let ctx = ValidatorContext { schema, errors: Vec::new() };
        assert(ctx.reported() =~= Seq::<RuleErrorView>::empty());
        ctx
    }

    /// Looks a type up in the schema of this run.
    pub fn concrete_type_by_name(&self, name: &str) -> (found: Option<&'a MetaType>)
        ensures
            match self.schema.position_of(name@) {
                Some(at) => found == Some(&self.schema.types@[at]),
                None => found is None,
            },
    {
        self.schema.concrete_type_by_name(name)
    }

    /// Records an error behind those already reported.
    pub fn report_error(&mut self, message: &str, locations: &[SourcePosition])
        ensures
            final(self).schema == old(self).schema,
            final(self).reported() == old(self).reported().push(
                RuleErrorView { message: message@, locations: locations@ },
            ),
    {
        let error = RuleError::new(message, locations);
        self.errors.push(error);
        assert(final(self).reported() =~= old(self).reported().push(
            RuleErrorView { message: message@, locations: locations@ },
        ));
    }

    /// Whether any error was reported.
    pub fn has_errors(&self) -> (any: bool)
        ensures
            any == (self.reported().len() > 0),
    {
        self.errors.len() > 0
    }

    /// Ends the run and hands out its errors, in the order they were reported.
    pub fn into_errors(self) -> (errors: Vec<RuleError>)
        ensures
            errors@ == self.errors@,
            error_views(errors@) == self.reported(),
    {
        self.errors
    }
}

} // verus!
