//! Procedural patterns as trees, and the rule by which an alternating
//! pattern chooses between its two children.
//!
//! A pattern is generic in the colour `C` that its leaves hold and in the
//! matrix `M` that places it. Stripes, rings and checkers own two child
//! patterns, so patterns nest to any depth.

use vstd::prelude::*;

verus! {

/// Whether the cell numbered `cell` shows the first of two alternating
/// children: even cells do, odd cells show the second. Cells are numbered by
/// rounding down, so cell -1 lies just below cell 0 and is odd.
pub open spec fn first_child_shows(cell: int) -> bool {
    cell % 2 == 0
}

/// Whether the cell numbered `cell` shows the first of the two children of
/// a stripe, ring or checkers pattern.
pub fn shows_first(cell: i64) -> (first: bool)
    ensures
        first == first_child_shows(cell as int),
{
    cell % 2 == 0
}

/// What a pattern draws.
#[derive(Debug)]
pub enum PatternType<C, M> {
    /// Two children alternating like the cubes of a three-dimensional
    /// chessboard.
    Checkers(Box<Pattern<C, M>>, Box<Pattern<C, M>>),
    /// One colour everywhere.
    Solid(C),
    /// Two children alternating in slabs along the x axis.
    Stripe(Box<Pattern<C, M>>, Box<Pattern<C, M>>),
    /// A blend from the first colour to the second along the x axis.
    LinearGradient(C, C),
    /// Two children alternating in rings around the y axis.
    Ring(Box<Pattern<C, M>>, Box<Pattern<C, M>>),
}

/// A pattern with its placement: the transform from pattern space to the
/// space of whatever carries it, and that transform's inverse.
#[derive(Debug)]
pub struct Pattern<C, M> {
    pub pattern_type: PatternType<C, M>,
    pub transform: M,
    pub inverse_transform: M,
}

impl<C, M> PatternType<C, M> {
    /// Whether this kind of pattern alternates between two children.
    pub open spec fn alternates(self) -> bool {
        self is Checkers || self is Stripe || self is Ring
    }

    /// The child that shows in the cell numbered `cell`.
    pub open spec fn child_in(self, cell: int) -> Pattern<C, M>
        recommends
            self.alternates(),
    {
        match self {
            PatternType::Checkers(p1, p2) | PatternType::Stripe(p1, p2) | PatternType::Ring(
                p1,
                p2,
            ) => if first_child_shows(cell) {
                *p1
            } else {
                *p2
            },
            _ => arbitrary(),
        }
    }

    /// The child whose colour shows in the cell numbered `cell`: the first
    /// child in even cells, the second in odd ones. A solid colour and a
    /// gradient have no children.
    pub fn child_for(&self, cell: i64) -> (child: Option<&Pattern<C, M>>)
        ensures
            child.is_some() <==> self.alternates(),
            self.alternates() ==> *child.unwrap() == self.child_in(cell as int),
    {
        match self {
            PatternType::Checkers(p1, p2) => Some(
                if shows_first(cell) {
                    &**p1
                } else {
                    &**p2
                },
            ),
            PatternType::Stripe(p1, p2) => Some(
                if shows_first(cell) {
                    &**p1
                } else {
                    &**p2
                },
            ),
            PatternType::Ring(p1, p2) => Some(
                if shows_first(cell) {
                    &**p1
                } else {
                    &**p2
                },
            ),
            PatternType::Solid(_) => None,
            PatternType::LinearGradient(_, _) => None,
        }
    }
}

impl<C: Copy, M: Copy> Clone for Pattern<C, M> {
    /// A copy of the whole tree.
    fn clone(&self) -> (copy: Self)
        ensures
            copy == *self,
        decreases *self,
    {
        let pattern_type = match &self.pattern_type {
            PatternType::Checkers(p1, p2) => {
                let first: Pattern<C, M> = (**p1).clone();
                let second: Pattern<C, M> = (**p2).clone();
                PatternType::Checkers(Box::new(first), Box::new(second))
            },
            PatternType::Solid(c) => PatternType::Solid(*c),
            PatternType::Stripe(p1, p2) => {
                let first: Pattern<C, M> = (**p1).clone();
                let second: Pattern<C, M> = (**p2).clone();
                PatternType::Stripe(Box::new(first), Box::new(second))
            },
            PatternType::LinearGradient(c1, c2) => PatternType::LinearGradient(*c1, *c2),
            PatternType::Ring(p1, p2) => {
                let first: Pattern<C, M> = (**p1).clone();
                let second: Pattern<C, M> = (**p2).clone();
                PatternType::Ring(Box::new(first), Box::new(second))
            },
        };
        Pattern {
            pattern_type,
            transform: self.transform,
            inverse_transform: self.inverse_transform,
        }
    }
}

impl<C, M: Copy> Pattern<C, M> {
    /// A pattern drawing `pattern_type`, placed by `identity`, which is its
    /// own inverse.
    pub fn new(pattern_type: PatternType<C, M>, identity: M) -> (p: Self)
        ensures
            p.pattern_type == pattern_type,
            p.transform == identity,
            p.inverse_transform == identity,
    {
        Pattern { pattern_type, transform: identity, inverse_transform: identity }
    }

    /// Checkers of `p1` and `p2`.
    pub fn checkers(p1: Self, p2: Self, identity: M) -> (p: Self)
        ensures
            p.pattern_type == PatternType::Checkers(Box::new(p1), Box::new(p2)),
            p.transform == identity,
            p.inverse_transform == identity,
    {
        Self::new(PatternType::Checkers(Box::new(p1), Box::new(p2)), identity)
    }

    /// Rings of `p1` and `p2`.
    pub fn ring(p1: Self, p2: Self, identity: M) -> (p: Self)
        ensures
            p.pattern_type == PatternType::Ring(Box::new(p1), Box::new(p2)),
            p.transform == identity,
            p.inverse_transform == identity,
    {
        Self::new(PatternType::Ring(Box::new(p1), Box::new(p2)), identity)
    }

    /// The colour `c` everywhere.
    pub fn solid(c: C, identity: M) -> (p: Self)
        ensures
            p.pattern_type == PatternType::<C, M>::Solid(c),
            p.transform == identity,
            p.inverse_transform == identity,
    {
        Self::new(PatternType::Solid(c), identity)
    }

    /// Stripes of the two colours `c1` and `c2`, each a solid child.
    pub fn stripe(c1: C, c2: C, identity: M) -> (p: Self)
        ensures
            p.pattern_type == PatternType::Stripe(
                Box::new(
                    Pattern {
                        pattern_type: PatternType::Solid(c1),
                        transform: identity,
                        inverse_transform: identity,
                    },
                ),
                Box::new(
                    Pattern {
                        pattern_type: PatternType::Solid(c2),
                        transform: identity,
                        inverse_transform: identity,
                    },
                ),
            ),
            p.transform == identity,
            p.inverse_transform == identity,
    {
        let first = Self::solid(c1, identity);
        let second = Self::solid(c2, identity);
        Self::new(PatternType::Stripe(Box::new(first), Box::new(second)), identity)
    }

    /// A blend from `c1` to `c2`.
    pub fn linear_gradient(c1: C, c2: C, identity: M) -> (p: Self)
        ensures
            p.pattern_type == PatternType::<C, M>::LinearGradient(c1, c2),
            p.transform == identity,
            p.inverse_transform == identity,
    {
        Self::new(PatternType::LinearGradient(c1, c2), identity)
    }

    /// The same pattern placed by `transform`, whose inverse is `inverse`.
    /// Both are replaced together, so neither is ever left from an earlier
    /// placement.
    pub fn transform(self, transform: M, inverse: M) -> (p: Self)
        ensures
            p.pattern_type == self.pattern_type,
            p.transform == transform,
            p.inverse_transform == inverse,
    {
        Pattern { pattern_type: self.pattern_type, transform, inverse_transform: inverse }
    }
}

} // verus!
