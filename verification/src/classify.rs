//! The line classifier: is a line of a log possibly a chat message?

use crate::error::PatternError;
use crate::pattern::{compile, is_match, regex_compiles, regex_is_match, regex_source};
use crate::shape::{registered_shapes, registry, LogShape};
use regex::Regex;
use vstd::prelude::*;

verus! {

/// Whether `line` matches the pattern of `shape`.
pub open spec fn shape_matches(shape: LogShape, line: Seq<char>) -> bool {
    regex_is_match(shape.pattern(), line)
}

/// Whether `line` matches any of the registered shapes.
pub open spec fn accepts(line: Seq<char>, catch_all: bool) -> bool {
    exists|i: int|
        0 <= i < registry(catch_all).len() && shape_matches(#[trigger] registry(catch_all)[i], line)
}

/// The first of `shapes` that `line` matches.
pub open spec fn first_matching(shapes: Seq<LogShape>, line: Seq<char>) -> Option<LogShape>
    decreases shapes.len(),
{
    if shapes.len() == 0 {
        None
    } else if shape_matches(shapes[0], line) {
        Some(shapes[0])
    } else {
        first_matching(shapes.drop_first(), line)
    }
}

/// The first of `shapes` whose pattern the engine refuses.
pub open spec fn first_refused(shapes: Seq<LogShape>) -> Option<LogShape>
    decreases shapes.len(),
{
    if shapes.len() == 0 {
        None
    } else if !regex_compiles(shapes[0].pattern()) {
        Some(shapes[0])
    } else {
        first_refused(shapes.drop_first())
    }
}

/// A shape with its compiled pattern.
pub struct CompiledShape {
    shape: LogShape,
    regex: Regex,
}

impl CompiledShape {
    #[verifier::type_invariant]
    spec fn compiled_from_pattern(self) -> bool {
        regex_source(self.regex) == self.shape.pattern()
    }

    /// The shape that this pattern recognises.
    pub closed spec fn shape(self) -> LogShape {
        self.shape
    }

    /// Compiles the pattern of `shape`.
    pub fn new(shape: LogShape) -> (compiled: Result<CompiledShape, PatternError>)
        ensures
            compiled is Ok <==> regex_compiles(shape.pattern()),
            compiled matches Ok(c) ==> c.shape() == shape,
            compiled matches Err(e) ==> e == PatternError::Shape(shape),
    {
        match compile(shape.pattern_text()) {
            Ok(regex) => Ok(CompiledShape { shape, regex }),
            Err(_) => Err(PatternError::Shape(shape)),
        }
    }

    /// The shape that this pattern recognises.
    pub fn which_shape(&self) -> (shape: LogShape)
        ensures
            shape == self.shape(),
    {
        self.shape
    }

    /// Whether `line` matches this shape.
    pub fn matches(&self, line: &str) -> (hit: bool)
        ensures
            hit == shape_matches(self.shape(), line@),
    {
        proof {
            use_type_invariant(self);
        }
        is_match(&self.regex, line)
    }
}

/// The registered shapes with their compiled patterns. Built once and only
/// read afterwards.
pub struct Classifier {
    shapes: Vec<CompiledShape>,
    catch_all: bool,
}

impl Classifier {
    #[verifier::type_invariant]
    spec fn holds_registry(self) -> bool {
        &&& self.shapes@.len() == registry(self.catch_all).len()
        &&& forall|i: int|
            0 <= i < self.shapes@.len() ==> (#[trigger] self.shapes@[i]).shape() == registry(
                self.catch_all,
            )[i]
    }

    /// Whether the permissive shape is registered.
    pub closed spec fn catch_all_enabled(self) -> bool {
        self.catch_all
    }

    /// Whether the permissive shape is registered.
    pub fn has_catch_all(&self) -> (enabled: bool)
        ensures
            enabled == self.catch_all_enabled(),
    {
        self.catch_all
    }

    /// Compiles the registered shapes in order and stops at the first pattern
    /// that the engine refuses.
    fn build(catch_all: bool) -> (built: Result<Classifier, PatternError>)
        ensures
            match built {
                Ok(classifier) => classifier.catch_all_enabled() == catch_all && first_refused(
                    registry(catch_all),
                ) is None,
                Err(e) => first_refused(registry(catch_all)) matches Some(shape) && e
                    == PatternError::Shape(shape),
            },
    {
        let order = registered_shapes(catch_all);
        let mut shapes: Vec<CompiledShape> = Vec::new();
        let mut i: usize = 0;
        assert(order@.skip(0) == order@);
        while i < order.len()
            invariant
                order@ == registry(catch_all),
                0 <= i <= order.len(),
                shapes@.len() == i,
                forall|k: int| 0 <= k < i ==> (#[trigger] shapes@[k]).shape() == order@[k],
                first_refused(order@) == first_refused(order@.skip(i as int)),
            decreases order.len() - i,
        {
            assert(order@.skip(i as int).drop_first() == order@.skip(i + 1));
            match CompiledShape::new(order[i]) {
                Ok(compiled) => {
                    shapes.push(compiled);
                },
                Err(e) => {
                    return Err(e);
                },
            }
            i += 1;
        }
        Ok(Classifier { shapes, catch_all })
    }

    /// A classifier of the server and client shapes. The permissive shape is
    /// left out.
    pub fn new() -> (built: Result<Classifier, PatternError>)
        ensures
            match built {
                Ok(classifier) => !classifier.catch_all_enabled() && first_refused(registry(false))
                    is None,
                Err(e) => first_refused(registry(false)) matches Some(shape) && e
                    == PatternError::Shape(shape),
            },
    {
        Classifier::build(false)
    }

    /// A classifier that tries the permissive shape after the others.
    pub fn with_catch_all() -> (built: Result<Classifier, PatternError>)
        ensures
            match built {
                Ok(classifier) => classifier.catch_all_enabled() && first_refused(registry(true))
                    is None,
                Err(e) => first_refused(registry(true)) matches Some(shape) && e
                    == PatternError::Shape(shape),
            },
    {
        Classifier::build(true)
    }

    /// The first registered shape that `line` matches, if any.
    pub fn classify(&self, line: &str) -> (hit: Option<LogShape>)
        ensures
            hit == first_matching(registry(self.catch_all_enabled()), line@),
    {
        proof {
            use_type_invariant(self);
        }
        let ghost order = registry(self.catch_all);
        let mut i: usize = 0;
        assert(order.skip(0) == order);
        while i < self.shapes.len()
            invariant
                order == registry(self.catch_all),
                0 <= i <= self.shapes@.len(),
                self.shapes@.len() == order.len(),
                forall|k: int|
                    0 <= k < self.shapes@.len() ==> (#[trigger] self.shapes@[k]).shape()
                        == order[k],
                first_matching(order, line@) == first_matching(order.skip(i as int), line@),
            decreases self.shapes@.len() - i,
        {
            assert(order.skip(i as int).drop_first() == order.skip(i + 1));
            if self.shapes[i].matches(line) {
                return Some(self.shapes[i].which_shape());
            }
            i += 1;
        }
        None
    }

    /// Whether `line` is possibly a chat message: whether it matches any of
    /// the registered shapes.
    pub fn is_possible_chat_message(&self, line: &str) -> (accepted: bool)
        ensures
            accepted == accepts(line@, self.catch_all_enabled()),
    {
        let hit = self.classify(line);
        proof {
            lemma_first_matching(registry(self.catch_all_enabled()), line@);
        }
        hit.is_some()
    }
}

/// `first_matching` finds a shape exactly when some shape of the list
/// matches, and the one it finds is the earliest of them.
pub proof fn lemma_first_matching(shapes: Seq<LogShape>, line: Seq<char>)
    ensures
        match first_matching(shapes, line) {
            Some(shape) => exists|i: int|
                0 <= i < shapes.len() && #[trigger] shapes[i] == shape && shape_matches(shape, line)
                    && forall|j: int| 0 <= j < i ==> !shape_matches(#[trigger] shapes[j], line),
            None => forall|i: int|
                0 <= i < shapes.len() ==> !shape_matches(#[trigger] shapes[i], line),
        },
    decreases shapes.len(),
{
    if shapes.len() > 0 && !shape_matches(shapes[0], line) {
        let rest = shapes.drop_first();
        lemma_first_matching(rest, line);
        match first_matching(rest, line) {
            Some(shape) => {
                let i = choose|i: int|
                    0 <= i < rest.len() && #[trigger] rest[i] == shape && shape_matches(shape, line)
                        && forall|j: int| 0 <= j < i ==> !shape_matches(#[trigger] rest[j], line);
                assert(shapes[i + 1] == shape);
                assert forall|j: int| 0 <= j < i + 1 implies !shape_matches(
                    #[trigger] shapes[j],
                    line,
                ) by {
                    if j > 0 {
                        assert(shapes[j] == rest[j - 1]);
                    }
                }
            },
            None => {
                assert forall|i: int| 0 <= i < shapes.len() implies !shape_matches(
                    #[trigger] shapes[i],
                    line,
                ) by {
                    if i > 0 {
                        assert(shapes[i] == rest[i - 1]);
                    }
                }
            },
        }
    }
}

/// A line that matches a registered shape is accepted.
pub proof fn lemma_registered_shape_accepts(shape: LogShape, line: Seq<char>, catch_all: bool)
    requires
        registry(catch_all).contains(shape),
        shape_matches(shape, line),
    ensures
        accepts(line, catch_all),
{
    let i = choose|i: int| 0 <= i < registry(catch_all).len() && registry(catch_all)[i] == shape;
    assert(shape_matches(registry(catch_all)[i], line));
}

} // verus!
