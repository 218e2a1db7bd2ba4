//! Built-in rules: the life-like family, defined by birth and survival
//! counts, and a rule made of an ordered list of partial rules.
use vstd::prelude::*;

use crate::engine::Rules;
use crate::grid::CellMatrix;
use crate::neighborhood::Neighborhood;
use crate::CellStateType;

verus! {

/// The sum of a sequence of cell states.
pub open spec fn sum_of(s: Seq<CellStateType>) -> int
    decreases s.len(),
{
    if s.len() == 0 {
        0
    } else {
        sum_of(s.drop_last()) + s.last()
    }
}

/// The sum of the states around the centre cell: the neighbourhood's sum
/// less the centre's own state.
pub open spec fn other_sum(window: CellMatrix, current_state: CellStateType) -> int {
    sum_of(window.cells) - current_state
}

/// `s` holds the count `n`.
pub open spec fn holds_count(s: Seq<CellStateType>, n: int) -> bool {
    0 <= n <= 255 && s.contains(n as CellStateType)
}

/// The life-like transition: a cell is born (1) when the sum of the others
/// is in `birth`, keeps its state when it is in `survival`, and dies (0)
/// otherwise.
pub open spec fn life_like_next(
    birth: Seq<CellStateType>,
    survival: Seq<CellStateType>,
    window: CellMatrix,
    current_state: CellStateType,
) -> CellStateType {
    let n = other_sum(window, current_state);
    if holds_count(birth, n) {
        1
    } else if holds_count(survival, n) {
        current_state
    } else {
        0
    }
}

proof fn lemma_sum_bound(s: Seq<CellStateType>)
    ensures
        0 <= sum_of(s) <= 255 * s.len(),
    decreases s.len(),
{
    if s.len() > 0 {
        lemma_sum_bound(s.drop_last());
    }
}

/// The sum of the states around the centre, when it is a count in `0..=255`.
fn neighbour_count(neighborhood: &Neighborhood, current_state: CellStateType) -> (r: Option<
    CellStateType,
>)
    ensures
        r == (if 0 <= other_sum(neighborhood@, current_state) <= 255 {
            Some(other_sum(neighborhood@, current_state) as CellStateType)
        } else {
            None
        }),
{
    let (nrows, ncols) = neighborhood.shape();
    let len = nrows * ncols;
    let mut it = neighborhood.iter();
    let mut total: u128 = 0;
    let mut k: usize = 0;
    while k < len
        invariant
            it.wf(),
            it.cells() == neighborhood@.cells,
            len == it.cells().len(),
            k <= len,
            it.position() == k,
            total == sum_of(it.cells().take(k as int)),
        decreases len - k,
    {
        proof {
            lemma_sum_bound(it.cells().take(k as int));
            assert(it.cells().take(k + 1).drop_last() =~= it.cells().take(k as int));
        }
        match it.next() {
            Some(v) => {
                total = total + v as u128;
            },
            None => {},
        }
        k = k + 1;
    }
    proof {
        assert(it.cells().take(len as int) =~= neighborhood@.cells);
    }
    if total < current_state as u128 {
        return None;
    }
    let n = total - current_state as u128;
    if n > 255 {
        None
    } else {
        Some(n as CellStateType)
    }
}

/// Whether `v` holds `x`.
fn holds(v: &Vec<CellStateType>, x: CellStateType) -> (r: bool)
    ensures
        r == v@.contains(x),
{
    let mut i: usize = 0;
    while i < v.len()
        invariant
            i <= v@.len(),
            forall|t: int| 0 <= t < i ==> v@[t] != x,
        decreases v@.len() - i,
    {
        if v[i] == x {
            return true;
        }
        i = i + 1;
    }
    false
}

/// A life-like rule, given by the counts of other live cells at which a cell
/// is born and at which it survives.
#[derive(Debug)]
pub struct LifeLike {
    birth: Vec<CellStateType>,
    survival: Vec<CellStateType>,
}

impl LifeLike {
    pub closed spec fn birth(&self) -> Seq<CellStateType> {
        self.birth@
    }

    pub closed spec fn survival(&self) -> Seq<CellStateType> {
        self.survival@
    }

    pub fn new(birth: Vec<CellStateType>, survival: Vec<CellStateType>) -> (r: Self)
        ensures
            r.birth() == birth@,
            r.survival() == survival@,
    {
        LifeLike { birth, survival }
    }
}

impl Rules for LifeLike {
    open spec fn next_state(&self, window: CellMatrix, current_state: CellStateType) -> CellStateType {
        life_like_next(self.birth(), self.survival(), window, current_state)
    }

    fn step(&self, neighborhood: &Neighborhood, current_state: CellStateType) -> (r: CellStateType) {
        match neighbour_count(neighborhood, current_state) {
            Some(n) => {
                if holds(&self.birth, n) {
                    1
                } else if holds(&self.survival, n) {
                    current_state
                } else {
                    0
                }
            },
            None => 0,
        }
    }
}

/// Conway's Game of Life: born at 3, survives at 2 or 3.
#[derive(Debug)]
pub struct GameOfLife {
    life_like: LifeLike,
}

impl GameOfLife {
    #[verifier::type_invariant]
    spec fn inv(self) -> bool {
        &&& self.life_like.birth() == seq![3u8]
        &&& self.life_like.survival() == seq![2u8, 3u8]
    }

    pub fn new() -> Self {
        let birth: Vec<CellStateType> = vec![3];
        let survival: Vec<CellStateType> = vec![2, 3];
        proof {
            assert(birth@ =~= seq![3u8]);
            assert(survival@ =~= seq![2u8, 3u8]);
        }
        GameOfLife { life_like: LifeLike::new(birth, survival) }
    }
}

impl Rules for GameOfLife {
    open spec fn next_state(&self, window: CellMatrix, current_state: CellStateType) -> CellStateType {
        life_like_next(seq![3u8], seq![2u8, 3u8], window, current_state)
    }

    fn step(&self, neighborhood: &Neighborhood, current_state: CellStateType) -> (r: CellStateType) {
        proof {
            use_type_invariant(self);
        }
        self.life_like.step(neighborhood, current_state)
    }
}

/// Maze: born at 3, survives at 1 to 5.
#[derive(Debug)]
pub struct Maze {
    life_like: LifeLike,
}

impl Maze {
    #[verifier::type_invariant]
    spec fn inv(self) -> bool {
        &&& self.life_like.birth() == seq![3u8]
        &&& self.life_like.survival() == seq![1u8, 2u8, 3u8, 4u8, 5u8]
    }

    pub fn new() -> Self {
        let birth: Vec<CellStateType> = vec![3];
        let survival: Vec<CellStateType> = vec![1, 2, 3, 4, 5];
        proof {
            assert(birth@ =~= seq![3u8]);
            assert(survival@ =~= seq![1u8, 2u8, 3u8, 4u8, 5u8]);
        }
        Maze { life_like: LifeLike::new(birth, survival) }
    }
}

impl Rules for Maze {
    open spec fn next_state(&self, window: CellMatrix, current_state: CellStateType) -> CellStateType {
        life_like_next(seq![3u8], seq![1u8, 2u8, 3u8, 4u8, 5u8], window, current_state)
    }

    fn step(&self, neighborhood: &Neighborhood, current_state: CellStateType) -> (r: CellStateType) {
        proof {
            use_type_invariant(self);
        }
        self.life_like.step(neighborhood, current_state)
    }
}

/// Mazectric: born at 3, survives at 1 to 4.
#[derive(Debug)]
pub struct Mazectric {
    life_like: LifeLike,
}

impl Mazectric {
    #[verifier::type_invariant]
    spec fn inv(self) -> bool {
        &&& self.life_like.birth() == seq![3u8]
        &&& self.life_like.survival() == seq![1u8, 2u8, 3u8, 4u8]
    }

    pub fn new() -> Self {
        let birth: Vec<CellStateType> = vec![3];
        let survival: Vec<CellStateType> = vec![1, 2, 3, 4];
        proof {
            assert(birth@ =~= seq![3u8]);
            assert(survival@ =~= seq![1u8, 2u8, 3u8, 4u8]);
        }
        Mazectric { life_like: LifeLike::new(birth, survival) }
    }
}

impl Rules for Mazectric {
    open spec fn next_state(&self, window: CellMatrix, current_state: CellStateType) -> CellStateType {
        life_like_next(seq![3u8], seq![1u8, 2u8, 3u8, 4u8], window, current_state)
    }

    fn step(&self, neighborhood: &Neighborhood, current_state: CellStateType) -> (r: CellStateType) {
        proof {
            use_type_invariant(self);
        }
        self.life_like.step(neighborhood, current_state)
    }
}

/// The rule that keeps every cell's state.
#[derive(Debug)]
pub struct Unchanged;

impl Rules for Unchanged {
    open spec fn next_state(&self, window: CellMatrix, current_state: CellStateType) -> CellStateType {
        current_state
    }

    fn step(&self, neighborhood: &Neighborhood, current_state: CellStateType) -> (r: CellStateType) {
        current_state
    }
}

/// One rule of an ordered list: a next state, or no opinion.
pub trait PartialRule: Send + Sync {
    /// The next state this rule gives, if any.
    spec fn opinion(&self, window: CellMatrix, current_state: CellStateType) -> Option<
        CellStateType,
    >;

    fn evaluate(&self, neighborhood: &Neighborhood, current_state: CellStateType) -> (r: Option<
        CellStateType,
    >)
        ensures
            r == self.opinion(neighborhood@, current_state),
    ;
}

/// The opinion of the first rule of `rules` that has one.
pub open spec fn first_opinion<P: PartialRule>(
    rules: Seq<P>,
    window: CellMatrix,
    current_state: CellStateType,
) -> Option<CellStateType>
    decreases rules.len(),
{
    if rules.len() == 0 {
        None
    } else {
        match rules[0].opinion(window, current_state) {
            Some(v) => Some(v),
            None => first_opinion(rules.drop_first(), window, current_state),
        }
    }
}

/// A rule made of partial rules tried in order: the first that gives a next
/// state decides; when none does, the cell keeps its state.
#[derive(Debug)]
pub struct FirstMatch<P: PartialRule> {
    rules: Vec<P>,
}

impl<P: PartialRule> FirstMatch<P> {
    pub closed spec fn rules(&self) -> Seq<P> {
        self.rules@
    }

    pub fn new(rules: Vec<P>) -> (r: Self)
        ensures
            r.rules() == rules@,
    {
        FirstMatch { rules }
    }
}

impl<P: PartialRule> Rules for FirstMatch<P> {
    open spec fn next_state(&self, window: CellMatrix, current_state: CellStateType) -> CellStateType {
        match first_opinion(self.rules(), window, current_state) {
            Some(v) => v,
            None => current_state,
        }
    }

    fn step(&self, neighborhood: &Neighborhood, current_state: CellStateType) -> (r: CellStateType) {
        let ghost w = neighborhood@;
        proof {
            assert(self.rules@.subrange(0, self.rules@.len() as int) =~= self.rules@);
        }
        let mut i: usize = 0;
        while i < self.rules.len()
            invariant
                w == neighborhood@,
                i <= self.rules@.len(),
                first_opinion(self.rules@, w, current_state) == first_opinion(
                    self.rules@.subrange(i as int, self.rules@.len() as int),
                    w,
                    current_state,
                ),
            decreases self.rules@.len() - i,
        {
            let ghost rest = self.rules@.subrange(i as int, self.rules@.len() as int);
            proof {
                assert(rest[0] == self.rules@[i as int]);
                assert(rest.drop_first() =~= self.rules@.subrange(
                    i + 1,
                    self.rules@.len() as int,
                ));
            }
            match self.rules[i].evaluate(neighborhood, current_state) {
                Some(v) => {
                    return v;
                },
                None => {},
            }
            i = i + 1;
        }
        current_state
    }
}

/// A partial rule on the sum of the states around the centre: when that sum
/// is one of `counts`, the next state is `next_state`.
#[derive(Debug)]
pub struct CountRule {
    counts: Vec<CellStateType>,
    next_state: CellStateType,
}

impl CountRule {
    pub closed spec fn counts(&self) -> Seq<CellStateType> {
        self.counts@
    }

    pub closed spec fn outcome(&self) -> CellStateType {
        self.next_state
    }

    pub fn new(counts: Vec<CellStateType>, next_state: CellStateType) -> (r: Self)
        ensures
            r.counts() == counts@,
            r.outcome() == next_state,
    {
        CountRule { counts, next_state }
    }
}

impl PartialRule for CountRule {
    open spec fn opinion(&self, window: CellMatrix, current_state: CellStateType) -> Option<
        CellStateType,
    > {
        if holds_count(self.counts(), other_sum(window, current_state)) {
            Some(self.outcome())
        } else {
            None
        }
    }

    fn evaluate(&self, neighborhood: &Neighborhood, current_state: CellStateType) -> (r: Option<
        CellStateType,
    >) {
        match neighbour_count(neighborhood, current_state) {
            Some(n) => {
                if holds(&self.counts, n) {
                    Some(self.next_state)
                } else {
                    None
                }
            },
            None => None,
        }
    }
}

} // verus!
