use crate::algebraic_extensions::{Group, MulIdentity};
use crate::set_extensions::SetRestriction;
use rand::distributions::{Distribution, Uniform};
use vstd::prelude::*;
use vstd::std_specs::cmp::PartialEqSpec;

verus! {

/// A type whose values have a determinant in the scalars `T`.
pub trait Determinant<T>: Sized {
    /// Whether the determinant may be computed.
    spec fn det_defined(&self) -> bool;

    /// The determinant.
    spec fn det_spec(&self) -> T;

    fn det(&self) -> (r: T)
        requires
            self.det_defined(),
        ensures
            r == self.det_spec(),
    ;
}

/// Linear transformations with determinant one: the subset SL(2,R) of the 2x2
/// matrices. The condition of the set restriction is that the determinant
/// equals one; it is checked when a value is made and relied on afterwards.
pub trait SpecialLinear<T: MulIdentity + PartialEq>: Determinant<T> + SetRestriction {
    /// The condition can be decided wherever the determinant can be computed
    /// and compared, and holds exactly where the determinant equals one.
    proof fn lemma_condition_is_determinant_one(&self)
        ensures
            self.condition_defined() == (self.det_defined() && T::obeys_eq_spec()),
            self.condition_spec() == self.det_spec().eq_spec(&T::one_spec()),
    ;
}

/// A group with a finite generating set: every element is a finite
/// combination of the generators and their inverses.
pub trait FinitelyGeneratedGroup {
    type GroupElement: Group;

    /// The generators, in their order.
    spec fn generators_spec(&self) -> Seq<Self::GroupElement>;

    fn generators(&self) -> (r: &[Self::GroupElement])
        ensures
            r@ == self.generators_spec(),
    ;
}

/// How the next generator is picked when an orbit is sampled.
#[derive(Clone, Copy, Debug, PartialEq, Eq, Structural)]
pub enum PickGeneratorMode {
    /// In turn, in the order of the picking pool, starting over at its end.
    Sequential,
    /// Uniformly at random, each pick independent of the others.
    Random,
}

impl Default for PickGeneratorMode {
    fn default() -> (r: Self)
        ensures
            r == PickGeneratorMode::Sequential,
    {
        PickGeneratorMode::Sequential
    }
}

impl PickGeneratorMode {
    /// Whether a byte is blank: a space, or a control character from the
    /// tabulator to the carriage return.
    pub open spec fn is_blank(b: u8) -> bool {
        b == 32 || 9 <= b <= 13
    }

    /// The byte, a capital letter replaced by the small one.
    pub open spec fn lowered(b: u8) -> u8 {
        if 65 <= b <= 90 {
            (b + 32) as u8
        } else {
            b
        }
    }

    /// Whether `text` holds `word` from `start` to `end`, in whatever case,
    /// and nothing but blanks around it.
    pub open spec fn names_at(text: Seq<u8>, word: Seq<u8>, start: int, end: int) -> bool {
        &&& 0 <= start <= end <= text.len()
        &&& end - start == word.len()
        &&& forall|i: int| 0 <= i < start ==> Self::is_blank(#[trigger] text[i])
        &&& forall|i: int| end <= i < text.len() ==> Self::is_blank(#[trigger] text[i])
        &&& forall|i: int|
            0 <= i < word.len() ==> Self::lowered(text[start + i]) == #[trigger] word[i]
    }

    /// Whether `text` is `word`, in whatever case, between blanks.
    pub open spec fn names(text: Seq<u8>, word: Seq<u8>) -> bool {
        exists|start: int, end: int| Self::names_at(text, word, start, end)
    }

    /// The bytes of the word `random`.
    pub open spec fn random_name() -> Seq<u8> {
        vstd::string::StringSliceAdditionalSpecFns::spec_bytes("random")
    }

    /// The bytes of the word `sequential`.
    pub open spec fn sequential_name() -> Seq<u8> {
        vstd::string::StringSliceAdditionalSpecFns::spec_bytes("sequential")
    }

    /// The mode that a text names: `random` or `sequential`, in whatever case
    /// and between blanks; no other text names a mode.
    pub open spec fn from_name_spec(text: Seq<u8>) -> Option<Self> {
        if Self::names(text, Self::random_name()) {
            Some(PickGeneratorMode::Random)
        } else if Self::names(text, Self::sequential_name()) {
            Some(PickGeneratorMode::Sequential)
        } else {
            None
        }
    }

    fn blank(b: u8) -> (r: bool)
        ensures
            r == Self::is_blank(b),
    {
        b == 32 || (9 <= b && b <= 13)
    }

    fn lower(b: u8) -> (r: u8)
        ensures
            r == Self::lowered(b),
    {
        if 65 <= b && b <= 90 {
            b + 32
        } else {
            b
        }
    }

    /// Whether `text` is `word`, in whatever case, between blanks, for a word
    /// that begins and ends with a byte that is not blank.
    fn is_word(text: &[u8], word: &[u8]) -> (r: bool)
        requires
            word@.len() > 0,
            !Self::is_blank(word@[0]),
            !Self::is_blank(word@.last()),
        ensures
            r == Self::names(text@, word@),
    {
        let n = text.len();
        let mut start: usize = 0;
        while start < n && Self::blank(text[start])
            invariant
                start <= n == text@.len(),
                forall|i: int| 0 <= i < start ==> Self::is_blank(#[trigger] text@[i]),
            decreases n - start,
        {
            start += 1;
        }
        let mut end: usize = n;
        while end > start && Self::blank(text[end - 1])
            invariant
                start <= end <= n == text@.len(),
                forall|i: int| end <= i < n ==> Self::is_blank(#[trigger] text@[i]),
            decreases end,
        {
            end -= 1;
        }
        let mut same = end - start == word.len();
        let mut k: usize = 0;
        while same && k < word.len()
            invariant
                start <= end <= n == text@.len(),
                same ==> end - start == word@.len() && k <= word@.len(),
                same ==> forall|i: int|
                    0 <= i < k ==> Self::lowered(text@[start + i]) == #[trigger] word@[i],
                !same ==> !Self::names_at(text@, word@, start as int, end as int),
            decreases word@.len() - k + (if same { 1int } else { 0int }),
        {
            if Self::lower(text[start + k]) != word[k] {
                same = false;
            } else {
                k += 1;
            }
        }
        proof {
            if same {
                assert(Self::names_at(text@, word@, start as int, end as int));
            } else {
                assert forall|s: int, e: int| !Self::names_at(text@, word@, s, e) by {
                    if Self::names_at(text@, word@, s, e) {
                        // The word begins and ends with a byte that is not blank, so
                        // that it stands where the blanks end.
                        assert(Self::lowered(text@[s + 0]) == word@[0]);
                        assert(Self::lowered(text@[s + (word@.len() - 1)]) == word@[word@.len() - 1]);
                        assert(!Self::is_blank(text@[s]));
                        assert(!Self::is_blank(text@[e - 1]));
                        assert(s == start);
                        assert(e == end);
                    }
                }
            }
        }
        same
    }

    /// The mode that `name` names: `random` or `sequential`, in whatever case
    /// and between blanks. Nothing, where `name` names no mode.
    pub fn from_name(name: &str) -> (r: Option<Self>)
        ensures
            r == Self::from_name_spec(vstd::string::StringSliceAdditionalSpecFns::spec_bytes(name)),
    {
        let text = name.as_bytes();
        let random = "random".as_bytes();
        let sequential = "sequential".as_bytes();
        proof {
            reveal_strlit("random");
            reveal_strlit("sequential");
            vstd::string::is_ascii_spec_bytes("random");
            vstd::string::is_ascii_spec_bytes("sequential");
            assert(vstd::string::is_ascii("random"));
            assert(vstd::string::is_ascii("sequential"));
        }
        if Self::is_word(text, random) {
            Some(PickGeneratorMode::Random)
        } else if Self::is_word(text, sequential) {
            Some(PickGeneratorMode::Sequential)
        } else {
            None
        }
    }
}

/// A map of a space into itself for each value of the type.
pub trait Action<Space>: Sized {
    /// Whether `self` may be applied to `x`.
    spec fn map_defined(&self, x: &Space) -> bool;

    /// The image of `x` under `self`.
    spec fn map_spec(&self, x: &Space) -> Space;

    fn map(&self, x: &Space) -> (r: Space)
        requires
            self.map_defined(x),
        ensures
            r == self.map_spec(x),
    ;
}

/// The (left) action of a group `G` on a space `X`, with tests of its two
/// laws on given elements.
pub trait GroupAction<Space>: Action<Space> + Group where Space: PartialEq {
    /// Tests on `x` that the identity element maps every point to itself.
    fn identity_check(&self, x: &Space) -> (r: bool)
        requires
            Self::identity_spec().map_defined(x),
        ensures
            Space::obeys_eq_spec() ==> r == Self::identity_spec().map_spec(x).eq_spec(x),
    {
        let e: Self = Group::identity();
        e.map(x).eq(x)
    }

    /// Tests on `x` that mapping by `h` and then by `self` is mapping by the
    /// combination of `self` and `h`.
    fn compatibility_check(&self, h: &Self, x: &Space) -> (r: bool)
        requires
            h.map_defined(x),
            self.map_defined(&h.map_spec(x)),
            self.combine_defined(h),
            self.combine_spec(h).map_defined(x),
        ensures
            Space::obeys_eq_spec() ==> r == self.map_spec(&h.map_spec(x)).eq_spec(
                &self.combine_spec(h).map_spec(x),
            ),
    {
        let g_hx = self.map(&h.map(x));
        let gh_x = (self.combine(h)).map(x);
        g_hx.eq(&gh_x)
    }
}

impl<Space: PartialEq, G: Action<Space> + Group> GroupAction<Space> for G {

}

/// Picks the elements of a pool in turn, starting over at its end, until a
/// given number of picks is made.
pub struct SequentialPicker<'a, G> {
    generators: &'a Vec<G>,
    cursor: usize,
    max_n: usize,
    generator_len: usize,
}

impl<'a, G: Copy> SequentialPicker<'a, G> {
    /// The pool that is picked from.
    pub closed spec fn pool(&self) -> Seq<G> {
        self.generators@
    }

    /// The number of picks made.
    pub closed spec fn picked(&self) -> nat {
        self.cursor as nat
    }

    /// The number of picks after which the picker is exhausted.
    pub closed spec fn limit(&self) -> nat {
        self.max_n as nat
    }

    /// The picker knows the length of its pool.
    pub closed spec fn well_formed(&self) -> bool {
        self.generator_len == self.generators@.len()
    }

    pub fn new(generators: &'a Vec<G>, max_n: usize) -> (r: Self)
        ensures
            r.well_formed(),
            r.pool() == generators@,
            r.picked() == 0,
            r.limit() == max_n,
    {
        let generator_len = generators.len();
        Self { max_n, cursor: 0, generator_len, generators }
    }

    /// The next pick: the element at the place of the cursor, counted round
    /// the pool; nothing once the limit is reached. A pick from an empty pool
    /// cannot be made.
    pub fn next(&mut self) -> (r: Option<G>)
        requires
            old(self).well_formed(),
            old(self).picked() < old(self).limit() ==> old(self).pool().len() > 0,
        ensures
            final(self).well_formed(),
            final(self).pool() == old(self).pool(),
            final(self).limit() == old(self).limit(),
            old(self).picked() < old(self).limit() ==> r == Some(
                old(self).pool()[(old(self).picked() % old(self).pool().len()) as int],
            ) && final(self).picked() == old(self).picked() + 1,
            old(self).picked() >= old(self).limit() ==> r is None && final(self).picked() == old(
                self,
            ).picked(),
    {
        if self.cursor < self.max_n {
            let item = self.generators[self.cursor % self.generator_len];
            self.cursor += 1;
            return Some(item);
        }
        None
    }
}

/// Picks elements of a pool uniformly at random, each pick independent of the
/// others, until a given number of picks is made.
pub struct RandomPicker<'a, G> {
    generators: &'a Vec<G>,
    cursor: usize,
    max_n: usize,
}

/// Draws an index below `u_bound` from the uniform distribution, with the
/// random number generator of the thread.
///
/// Calls `rand::distributions::Uniform::new(0, u_bound)` and samples the
/// distribution once with `rand::thread_rng()`. The distribution is over the
/// half-open range `[0, u_bound)`, and its construction panics for an empty
/// range. Of the index that was drawn the contract claims the range only.
#[verifier::external_body]
fn random_index(u_bound: usize) -> (index: usize)
    requires
        0 < u_bound,
    ensures
        index < u_bound,
{
    Uniform::new(0usize, u_bound).sample(&mut rand::thread_rng())
}

impl<'a, G: Copy> RandomPicker<'a, G> {
    /// The pool that is picked from.
    pub closed spec fn pool(&self) -> Seq<G> {
        self.generators@
    }

    /// The number of picks made.
    pub closed spec fn picked(&self) -> nat {
        self.cursor as nat
    }

    /// The number of picks after which the picker is exhausted.
    pub closed spec fn limit(&self) -> nat {
        self.max_n as nat
    }

    /// A picker for a pool that is not empty.
    pub fn new(generators: &'a Vec<G>, max_n: usize) -> (r: Self)
        requires
            generators.len() > 0,
        ensures
            r.pool() == generators@,
            r.picked() == 0,
            r.limit() == max_n,
    {
        Self { max_n, cursor: 0, generators }
    }

    /// The pick for the index `drawn`: the element at that index; nothing once
    /// the limit is reached.
    pub fn pick(&mut self, drawn: usize) -> (r: Option<G>)
        requires
            drawn < old(self).pool().len(),
        ensures
            final(self).pool() == old(self).pool(),
            final(self).limit() == old(self).limit(),
            old(self).picked() < old(self).limit() ==> r == Some(old(self).pool()[drawn as int])
                && final(self).picked() == old(self).picked() + 1,
            old(self).picked() >= old(self).limit() ==> r is None && final(self).picked() == old(
                self,
            ).picked(),
    {
        if self.cursor < self.max_n {
            let item = self.generators[drawn];
            self.cursor += 1;
            return Some(item);
        }
        None
    }

    /// The next pick: the element at an index drawn at random; nothing once
    /// the limit is reached. Which index is drawn is not known.
    pub fn next(&mut self) -> (r: Option<G>)
        requires
            old(self).pool().len() > 0,
        ensures
            final(self).pool() == old(self).pool(),
            final(self).limit() == old(self).limit(),
            old(self).picked() < old(self).limit() ==> final(self).picked() == old(self).picked()
                + 1 && exists|drawn: int|
                0 <= drawn < old(self).pool().len() && r == Some(
                    #[trigger] old(self).pool()[drawn],
                ),
            old(self).picked() >= old(self).limit() ==> r is None && final(self).picked() == old(
                self,
            ).picked(),
    {
        if self.cursor < self.max_n {
            let drawn = random_index(self.generators.len());
            return self.pick(drawn);
        }
        None
    }
}

/// The points that a base point reaches under the elements of a group that
/// are picked one after the other, in the order in which they are reached.
pub struct Orbit<Space> {
    pub points: Vec<Space>,
}

impl<Space> Orbit<Space> {
    /// The mode that is applied: the one given, or the sequential one.
    pub open spec fn mode(pick_generator: Option<PickGeneratorMode>) -> PickGeneratorMode {
        match pick_generator {
            Some(mode) => mode,
            None => PickGeneratorMode::Sequential,
        }
    }

    /// The pool that the elements are picked from: the generators, followed by
    /// their inverses in the same order, so that in turn no element follows
    /// its own inverse. A single generator makes the pool alone.
    pub open spec fn picking_pool<G: Group>(generators: Seq<G>) -> Seq<G> {
        if generators.len() > 1 {
            generators + generators.map_values(|g: G| g.inv_spec())
        } else {
            generators
        }
    }

    /// The indices that are picked in turn: `0, 1, ..` counted round a pool of
    /// the length `pool_len`.
    pub open spec fn sequential_picks(n: nat, pool_len: nat) -> Seq<int> {
        Seq::new(n, |i: int| i % (pool_len as int))
    }

    /// Whether `picks` holds `n` indices into a pool of the length `pool_len`.
    pub open spec fn valid_picks(picks: Seq<int>, n: nat, pool_len: nat) -> bool {
        &&& picks.len() == n
        &&& forall|i: int| 0 <= i < picks.len() ==> 0 <= #[trigger] picks[i] < pool_len
    }

    /// The point that is mapped next: the last one reached, or the base point
    /// where none is reached yet.
    pub open spec fn reached(points: Seq<Space>, base_point: Space) -> Space {
        if points.len() == 0 {
            base_point
        } else {
            points.last()
        }
    }

    /// The points that `base_point` reaches when the elements of `pool` at the
    /// indices `picks` are applied one after the other, each to the point
    /// reached before.
    pub open spec fn trace<G: Action<Space>>(pool: Seq<G>, base_point: Space, picks: Seq<int>) -> Seq<
        Space,
    >
        decreases picks.len(),
    {
        if picks.len() == 0 {
            Seq::empty()
        } else {
            let before = Self::trace(pool, base_point, picks.drop_last());
            before.push(pool[picks.last()].map_spec(&Self::reached(before, base_point)))
        }
    }

    /// Whether every element picked may be applied to the point reached before
    /// it.
    pub open spec fn traceable<G: Action<Space>>(
        pool: Seq<G>,
        base_point: Space,
        picks: Seq<int>,
    ) -> bool
        decreases picks.len(),
    {
        picks.len() == 0 || {
            let before = Self::trace(pool, base_point, picks.drop_last());
            &&& Self::traceable(pool, base_point, picks.drop_last())
            &&& pool[picks.last()].map_defined(&Self::reached(before, base_point))
        }
    }

    /// Where a sequence of picks can be traced, each of its beginnings can.
    pub proof fn lemma_traceable_prefix<G: Action<Space>>(
        pool: Seq<G>,
        base_point: Space,
        picks: Seq<int>,
        k: int,
    )
        requires
            Self::traceable(pool, base_point, picks),
            0 <= k <= picks.len(),
        ensures
            Self::traceable(pool, base_point, picks.take(k)),
        decreases picks.len(),
    {
        if k == picks.len() {
            assert(picks.take(k) == picks);
        } else {
            assert(picks.drop_last().take(k) == picks.take(k));
            Self::lemma_traceable_prefix(pool, base_point, picks.drop_last(), k);
        }
    }

    /// As many points as are asked for are traced, whatever is picked.
    pub proof fn lemma_trace_len<G: Action<Space>>(pool: Seq<G>, base_point: Space, picks: Seq<int>)
        ensures
            Self::trace(pool, base_point, picks).len() == picks.len(),
        decreases picks.len(),
    {
        if picks.len() > 0 {
            Self::lemma_trace_len(pool, base_point, picks.drop_last());
        }
    }

    /// Samples the orbit of `base_point` under `group`: `n_points` times the
    /// next element is picked from the picking pool, in the given mode, and
    /// applied to the point reached last, which makes the next point.
    ///
    /// The group has a generator at least, and its picking pool can be
    /// counted.
    pub fn sample<Group>(
        group: &Group,
        base_point: &Space,
        n_points: usize,
        pick_generator: Option<PickGeneratorMode>,
    ) -> (orbit: Self) where
        Group: FinitelyGeneratedGroup,
        Group::GroupElement: Action<Space> + Copy,

        requires
            group.generators_spec().len() > 0,
            2 * group.generators_spec().len() <= usize::MAX,
            group.generators_spec().len() > 1 ==> forall|i: int|
                0 <= i < group.generators_spec().len() ==> (
                #[trigger] group.generators_spec()[i]).inv_defined(),
            match Self::mode(pick_generator) {
                PickGeneratorMode::Sequential => Self::traceable(
                    Self::picking_pool(group.generators_spec()),
                    *base_point,
                    Self::sequential_picks(
                        n_points as nat,
                        Self::picking_pool(group.generators_spec()).len(),
                    ),
                ),
                PickGeneratorMode::Random => forall|picks: Seq<int>|
                    Self::valid_picks(
                        picks,
                        n_points as nat,
                        Self::picking_pool(group.generators_spec()).len(),
                    ) ==> #[trigger] Self::traceable(
                        Self::picking_pool(group.generators_spec()),
                        *base_point,
                        picks,
                    ),
            },
        ensures
            orbit.points@.len() == n_points,
            match Self::mode(pick_generator) {
                PickGeneratorMode::Sequential => orbit.points@ == Self::trace(
                    Self::picking_pool(group.generators_spec()),
                    *base_point,
                    Self::sequential_picks(
                        n_points as nat,
                        Self::picking_pool(group.generators_spec()).len(),
                    ),
                ),
                PickGeneratorMode::Random => exists|picks: Seq<int>|
                    Self::valid_picks(
                        picks,
                        n_points as nat,
                        Self::picking_pool(group.generators_spec()).len(),
                    ) && orbit.points@ == #[trigger] Self::trace(
                        Self::picking_pool(group.generators_spec()),
                        *base_point,
                        picks,
                    ),
            },
    {
        let mut points: Vec<Space> = Vec::with_capacity(n_points);
        let originals = group.generators();
        let n_originals = originals.len();
        let mut generators: Vec<Group::GroupElement> = Vec::with_capacity(2 * n_originals);
        if n_originals > 1 {
            // The order matters: in turn, no element follows its own inverse.
            let mut i: usize = 0;
            while i < n_originals
                invariant
                    i <= n_originals == originals@.len(),
                    generators@ == originals@.take(i as int),
                decreases n_originals - i,
            {
                generators.push(originals[i]);
                assert(originals@.take(i + 1) == originals@.take(i as int).push(originals@[i as int]));
                i += 1;
            }
            assert(originals@.take(n_originals as int) == originals@);
            let mut j: usize = 0;
            while j < n_originals
                invariant
                    j <= n_originals == originals@.len(),
                    forall|k: int| 0 <= k < originals@.len() ==> (#[trigger] originals@[k]).inv_defined(),
                    generators@ == originals@ + originals@.take(j as int).map_values(
                        |g: Group::GroupElement| g.inv_spec(),
                    ),
                decreases n_originals - j,
            {
                generators.push(originals[j].inv());
                assert(originals@.take(j + 1).map_values(|g: Group::GroupElement| g.inv_spec())
                    == originals@.take(j as int).map_values(
                    |g: Group::GroupElement| g.inv_spec(),
                ).push(originals@[j as int].inv_spec()));
                j += 1;
            }
            assert(originals@.take(n_originals as int) == originals@);
        } else {
            generators.push(originals[0]);
            assert(generators@ == originals@);
        }
        assert(generators@ == Self::picking_pool(group.generators_spec()));
        let ghost pool = generators@;

        match pick_generator {
            Some(PickGeneratorMode::Random) => {
                let mut picker = RandomPicker::new(&generators, n_points);
                let ghost mut picks: Seq<int> = Seq::empty();
                loop
                    invariant
                        pool == generators@,
                        pool.len() > 0,
                        picker.pool() == pool,
                        picker.limit() == n_points,
                        picker.picked() == points@.len(),
                        points@.len() <= n_points,
                        Self::valid_picks(picks, points@.len(), pool.len()),
                        points@ == Self::trace(pool, *base_point, picks),
                        forall|all: Seq<int>|
                            Self::valid_picks(all, n_points as nat, pool.len())
                                ==> #[trigger] Self::traceable(pool, *base_point, all),
                    ensures
                        points@.len() == n_points,
                    decreases n_points - points@.len(),
                {
                    match picker.next() {
                        Some(g) => {
                            let ghost drawn = choose|drawn: int|
                                0 <= drawn < pool.len() && g == #[trigger] pool[drawn];
                            proof {
                                let rest = Seq::new(
                                    (n_points - points@.len() - 1) as nat,
                                    |i: int| 0int,
                                );
                                let all = picks.push(drawn) + rest;
                                assert(Self::valid_picks(all, n_points as nat, pool.len()));
                                Self::lemma_traceable_prefix(
                                    pool,
                                    *base_point,
                                    all,
                                    picks.len() as int + 1,
                                );
                                assert(all.take(picks.len() as int + 1) == picks.push(drawn));
                                assert(picks.push(drawn).drop_last() == picks);
                                picks = picks.push(drawn);
                            }
                            let next = if points.len() == 0 {
                                g.map(base_point)
                            } else {
                                g.map(&points[points.len() - 1])
                            };
                            points.push(next);
                        },
                        None => {
                            break ;
                        },
                    }
                }
                Self { points }
            },
            _ => {
                let mut picker = SequentialPicker::new(&generators, n_points);
                let ghost picks = Self::sequential_picks(n_points as nat, pool.len());
                loop
                    invariant
                        pool == generators@,
                        pool.len() > 0,
                        picker.well_formed(),
                        picker.pool() == pool,
                        picker.limit() == n_points,
                        picker.picked() == points@.len(),
                        points@.len() <= n_points,
                        picks == Self::sequential_picks(n_points as nat, pool.len()),
                        Self::traceable(pool, *base_point, picks),
                        points@ == Self::trace(pool, *base_point, picks.take(points@.len() as int)),
                    ensures
                        points@.len() == n_points,
                    decreases n_points - points@.len(),
                {
                    match picker.next() {
                        Some(g) => {
                            proof {
                                let done = points@.len() as int;
                                Self::lemma_traceable_prefix(pool, *base_point, picks, done + 1);
                                assert(picks.take(done + 1).drop_last() == picks.take(done));
                                assert(picks.take(done + 1).last() == done % (pool.len() as int));
                            }
                            let next = if points.len() == 0 {
                                g.map(base_point)
                            } else {
                                g.map(&points[points.len() - 1])
                            };
                            points.push(next);
                        },
                        None => {
                            break ;
                        },
                    }
                }
                assert(picks.take(n_points as int) == picks);
                Self { points }
            },
        }
    }
}

} // verus!
