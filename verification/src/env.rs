use crate::ident::{Ident, IdentName};
use crate::pattern::PatternType;
use crate::region::{Located, Region};
use vstd::prelude::*;

verus! {

/// Something to report to the user.
#[derive(Debug, PartialEq, Eq)]
pub enum Problem {
    /// A new name hides the identifier, which was introduced in the region.
    Shadowing(Located<Ident>),
    /// A pattern stands where it cannot be used.
    UnsupportedPattern(PatternType, Region),
}

/// What a problem says.
pub enum ProblemView {
    Shadowing(Located<IdentName>),
    UnsupportedPattern(PatternType, Region),
}

impl View for Problem {
    type V = ProblemView;

    open spec fn view(&self) -> ProblemView {
        match self {
            Problem::Shadowing(ident) => ProblemView::Shadowing(ident@),
            Problem::UnsupportedPattern(pattern_type, region) => ProblemView::UnsupportedPattern(
                *pattern_type,
                *region,
            ),
        }
    }
}

/// The module that is being canonicalized.
#[derive(Debug)]
pub struct Env {
    /// The module's path. Unqualified names belong to it.
    pub home: String,
    /// The problems found so far, which are reported at the end.
    pub problems: Vec<Problem>,
}

impl Env {
    /// What the problems found so far say.
    pub open spec fn reported(self) -> Seq<ProblemView> {
        self.problems@.map_values(|problem: Problem| problem@)
    }

    pub fn new(home: &str) -> (env: Env)
        ensures
            env.home@ == home@,
            env.reported() == Seq::<ProblemView>::empty(),
    {
        let env = Env { home: home.to_owned(), problems: Vec::new() };
        assert(env.reported() =~= Seq::<ProblemView>::empty());
        env
    }

    pub fn problem(&mut self, problem: Problem)
        ensures
            final(self).home == old(self).home,
            final(self).reported() == old(self).reported().push(problem@),
    {
        self.problems.push(problem);
        assert(self.reported() =~= old(self).reported().push(problem@));
    }
}

/// A problem says which identifier is hidden, and where it was introduced, or which kind of
/// pattern is not supported, and where it stands.
pub proof fn problem_says_what_it_holds(problem: Problem)
    ensures
        (match problem {
            Problem::Shadowing(ident) => problem@ == ProblemView::Shadowing(
                Located { region: ident.region, value: ident.value@ },
            ),
            Problem::UnsupportedPattern(pattern_type, region) => problem@
                == ProblemView::UnsupportedPattern(pattern_type, region),
        }),
{
}

/// What is reported is what each problem says, in the order in which they were found.
pub proof fn every_problem_is_reported(env: Env)
    ensures
        env.reported().len() == env.problems@.len(),
        forall|i: int|
            0 <= i < env.problems@.len() ==> #[trigger] env.reported()[i] == env.problems@[i]@,
{
}

} // verus!
