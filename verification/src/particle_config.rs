//! The particle configuration of one simulation, with its force matrix.
//!
//! The force matrix is a square table, stored row by row: the entry in row
//! `a` and column `b` is the coefficient of the force that a particle of type
//! `a` feels from a particle of type `b`. A positive coefficient attracts, a
//! negative one repels.

use vstd::prelude::*;

use crate::fixed::{fixed_mul, magnitude, multiply, UNIT};
use crate::globals::{
    DEFAULT_PARTICLE_COUNT, DEFAULT_PARTICLE_SIZE, DEFAULT_PARTICLE_TYPES, DEFAULT_WORLD_SIZE,
    MAX_COEFFICIENT,
};
use crate::random::random_unit;

verus! {

/// Coefficient of a type on itself among three types: -0.3.
pub const TRIANGLE_SELF: i64 = -300_000;

/// Coefficient toward the next type among three types: 1.
pub const TRIANGLE_NEXT: i64 = 1_000_000;

/// Coefficient toward the previous type among three types: -0.5.
pub const TRIANGLE_PREVIOUS: i64 = -500_000;

/// Coefficient of a type on itself among six types: -0.4.
pub const HEXAGON_SELF: i64 = -400_000;

/// Coefficient toward the next type among six types: 1.2.
pub const HEXAGON_NEXT: i64 = 1_200_000;

/// Coefficient toward the previous type among six types: -0.8.
pub const HEXAGON_PREVIOUS: i64 = -800_000;

/// Width of the band that the remaining coefficients among six types are
/// drawn from: 0.6.
pub const HEXAGON_JITTER: i64 = 600_000;

/// How many particles of how many types live in a world of which size, and
/// the forces between the types.
pub struct ParticleConfig {
    pub num_particles: u32,
    pub world_size: i64,
    pub num_types: u32,
    pub particle_size: i64,
    pub force_matrix: Vec<i64>,
}

/// The coefficient of a type on itself that a random draw of `[0, 1)` gives:
/// a value of `[-1.5, -0.5]`.
pub open spec fn self_coefficient_of(draw: int) -> int {
    -draw - UNIT / 2
}

/// The coefficient between two different types that a random draw of `[0, 1)`
/// gives: a value of `[-2, 2)`.
pub open spec fn cross_coefficient_of(draw: int) -> int {
    4 * draw - 2 * UNIT
}

/// The small coefficient that a random draw of `[0, 1)` gives: a value of
/// `[-0.3, 0.3)`.
pub open spec fn jitter_coefficient_of(draw: int) -> int {
    fixed_mul(draw - UNIT / 2, HEXAGON_JITTER as int)
}

/// `force` is the coefficient of a type on itself that some draw of `[0, 1)`
/// gives.
pub open spec fn is_self_coefficient(force: int) -> bool {
    exists|draw: int| 0 <= draw < UNIT && force == #[trigger] self_coefficient_of(draw)
}

/// `force` is the coefficient between two different types that some draw of
/// `[0, 1)` gives.
pub open spec fn is_cross_coefficient(force: int) -> bool {
    exists|draw: int| 0 <= draw < UNIT && force == #[trigger] cross_coefficient_of(draw)
}

/// `force` is the small coefficient that some draw of `[0, 1)` gives.
pub open spec fn is_jitter_coefficient(force: int) -> bool {
    exists|draw: int| 0 <= draw < UNIT && force == #[trigger] jitter_coefficient_of(draw)
}

/// `force` is a coefficient that `generate_random_forces` can draw for row
/// `a` and column `b`.
pub open spec fn is_random_coefficient(a: int, b: int, force: int) -> bool {
    if a == b {
        is_self_coefficient(force)
    } else {
        is_cross_coefficient(force)
    }
}

/// The small coefficient of a draw of `[0, 1)` lies in `[-0.3, 0.3]`.
pub proof fn lemma_jitter_range(draw: int)
    requires
        0 <= draw < UNIT,
    ensures
        -3 * (UNIT / 10) <= jitter_coefficient_of(draw) <= 3 * (UNIT / 10),
{
    crate::fixed::lemma_mul_bound(draw - UNIT / 2, HEXAGON_JITTER as int, UNIT / 2, HEXAGON_JITTER as int);
    crate::fixed::lemma_div_toward_zero_bound(
        (draw - UNIT / 2) * HEXAGON_JITTER,
        UNIT as int,
        3 * (UNIT / 10),
    );
}

/// What the cycle among six types fixes for row `a` and column `b`: the next
/// type is attracted, the previous one repelled, the type itself mildly
/// repelled. For the other pairs it fixes nothing.
pub open spec fn hexagon_coefficient(a: int, b: int) -> Option<int> {
    if b == (a + 1) % 6 {
        Some(HEXAGON_NEXT as int)
    } else if b == (a + 5) % 6 {
        Some(HEXAGON_PREVIOUS as int)
    } else if b == a {
        Some(HEXAGON_SELF as int)
    } else {
        None
    }
}

/// The rock-paper-scissors matrix of three types.
pub open spec fn triangle_matrix() -> Seq<i64> {
    seq![
        TRIANGLE_SELF,
        TRIANGLE_NEXT,
        TRIANGLE_PREVIOUS,
        TRIANGLE_PREVIOUS,
        TRIANGLE_SELF,
        TRIANGLE_NEXT,
        TRIANGLE_NEXT,
        TRIANGLE_PREVIOUS,
        TRIANGLE_SELF,
    ]
}

impl ParticleConfig {
    /// The matrix has one entry for each ordered pair of types, and no
    /// coefficient is beyond the limit.
    pub open spec fn wf(&self) -> bool {
        &&& self.num_types >= 1
        &&& self.force_matrix@.len() == self.num_types * self.num_types
        &&& forall|k: int|
            0 <= k < self.force_matrix@.len() ==> magnitude(#[trigger] self.force_matrix@[k] as int)
                <= MAX_COEFFICIENT
    }

    /// Where the matrix holds the entry of row `a` and column `b`.
    pub open spec fn index_of(&self, a: int, b: int) -> int {
        a * self.num_types + b
    }

    /// The entry of row `a` and column `b`.
    pub open spec fn force(&self, a: int, b: int) -> int {
        self.force_matrix@[self.index_of(a, b)] as int
    }

    /// Every entry is a coefficient that `generate_random_forces` can draw
    /// for its place: on the diagonal what `self_coefficient_of` gives for a
    /// draw of `[0, 1)`, elsewhere what `cross_coefficient_of` gives for one.
    pub open spec fn is_random_matrix(&self) -> bool {
        forall|a: int, b: int|
            0 <= a < self.num_types && 0 <= b < self.num_types ==> is_random_coefficient(
                a,
                b,
                #[trigger] self.force(a, b),
            )
    }

    /// The matrix holds the cycle among six types, and where the cycle fixes
    /// nothing, what `jitter_coefficient_of` gives for a draw of `[0, 1)`.
    pub open spec fn is_hexagon(&self) -> bool {
        &&& self.num_types == 6
        &&& forall|a: int, b: int|
            0 <= a < 6 && 0 <= b < 6 ==> match hexagon_coefficient(a, b) {
                Some(c) => #[trigger] self.force(a, b) == c,
                None => is_jitter_coefficient(#[trigger] self.force(a, b)),
            }
    }

    /// The same configuration but for the matrix, which has kept its size.
    pub open spec fn same_shape(&self, other: &ParticleConfig) -> bool {
        &&& self.num_particles == other.num_particles
        &&& self.world_size == other.world_size
        &&& self.num_types == other.num_types
        &&& self.particle_size == other.particle_size
        &&& self.force_matrix@.len() == other.force_matrix@.len()
    }

    /// Row `a`, column `b` lies inside the matrix, and rows do not overlap.
    pub proof fn lemma_index_in_range(&self, a: int, b: int)
        requires
            self.wf(),
            0 <= a < self.num_types,
            0 <= b < self.num_types,
        ensures
            0 <= a * self.num_types,
            0 <= self.index_of(a, b) < self.force_matrix@.len() <= usize::MAX,
            self.index_of(a, b) / (self.num_types as int) == a,
            self.index_of(a, b) % (self.num_types as int) == b,
    {
        let n = self.num_types as int;
        assert(self.force_matrix@.len() == self.force_matrix.len());
        assert(a * n + b < n * n && a * n >= 0) by (nonlinear_arith)
            requires
                0 <= a < n,
                0 <= b < n,
        ;
        vstd::arithmetic::div_mod::lemma_fundamental_div_mod_converse(a * n + b, n, a, b);
    }

    /// Different pairs of types have different places in the matrix.
    pub proof fn lemma_index_injective(&self, a: int, b: int, c: int, d: int)
        requires
            self.wf(),
            0 <= a < self.num_types,
            0 <= b < self.num_types,
            0 <= c < self.num_types,
            0 <= d < self.num_types,
            self.index_of(a, b) == self.index_of(c, d),
        ensures
            a == c && b == d,
    {
        self.lemma_index_in_range(a, b);
        self.lemma_index_in_range(c, d);
    }

    /// In a random matrix no type attracts itself.
    pub proof fn lemma_random_self_repulsion(&self, a: int)
        requires
            self.is_random_matrix(),
            0 <= a < self.num_types,
        ensures
            self.force(a, a) <= 0,
    {
        assert(is_random_coefficient(a, a, self.force(a, a)));
    }

    /// The entries of a random matrix lie in `[-1.5, -0.5]` on the diagonal
    /// and in `[-2, 2)` elsewhere.
    pub proof fn lemma_random_ranges(&self, a: int, b: int)
        requires
            self.is_random_matrix(),
            0 <= a < self.num_types,
            0 <= b < self.num_types,
        ensures
            a == b ==> -UNIT - UNIT / 2 <= self.force(a, b) <= -UNIT / 2,
            a != b ==> -2 * UNIT <= self.force(a, b) < 2 * UNIT,
    {
        assert(is_random_coefficient(a, b, self.force(a, b)));
    }

    /// Where the cycle among six types fixes nothing, the entries lie in
    /// `[-0.3, 0.3]`.
    pub proof fn lemma_hexagon_ranges(&self, a: int, b: int)
        requires
            self.is_hexagon(),
            0 <= a < 6,
            0 <= b < 6,
            hexagon_coefficient(a, b) is None,
        ensures
            -3 * (UNIT / 10) <= self.force(a, b) <= 3 * (UNIT / 10),
    {
        assert(is_jitter_coefficient(self.force(a, b)));
        let draw = choose|draw: int|
            0 <= draw < UNIT && self.force(a, b) == #[trigger] jitter_coefficient_of(draw);
        lemma_jitter_range(draw);
    }

    /// Whether the matrix is square and within the limit.
    pub fn is_wf(&self) -> (ok: bool)
        ensures
            ok == self.wf(),
    {
        if self.num_types < 1 {
            return false;
        }
        let side: u64 = self.num_types as u64;
        assert(side * side <= 0xffff_ffff * 0xffff_ffff) by (nonlinear_arith)
            requires
                side <= 0xffff_ffff,
        ;
        if self.force_matrix.len() as u64 != side * side {
            return false;
        }
        let size: usize = self.force_matrix.len();
        let mut k: usize = 0;
        while k < size
            invariant
                k <= size,
                size == self.force_matrix@.len(),
                forall|m: int|
                    0 <= m < k ==> magnitude(#[trigger] self.force_matrix@[m] as int)
                        <= MAX_COEFFICIENT,
            decreases size - k,
        {
            let force: i64 = self.force_matrix[k];
            if force < -MAX_COEFFICIENT || force > MAX_COEFFICIENT {
                return false;
            }
            k += 1;
        }
        true
    }

    /// A configuration for `num_types` types whose matrix is all zero.
    pub fn new(num_particles: u32, world_size: i64, num_types: u32, particle_size: i64) -> (config:
        ParticleConfig)
        requires
            num_types >= 1,
            num_types * num_types <= usize::MAX,
        ensures
            config.wf(),
            config.num_particles == num_particles,
            config.world_size == world_size,
            config.num_types == num_types,
            config.particle_size == particle_size,
            forall|k: int| 0 <= k < config.force_matrix@.len() ==> config.force_matrix@[k] == 0,
    {
        proof {
            assert(num_types * num_types >= num_types) by (nonlinear_arith)
                requires
                    num_types >= 1,
            ;
        }
        let side: usize = num_types as usize;
        let size: usize = side * side;
        let mut force_matrix: Vec<i64> = Vec::new();
        let mut k: usize = 0;
        while k < size
            invariant
                k <= size,
                force_matrix@.len() == k,
                forall|m: int| 0 <= m < k ==> force_matrix@[m] == 0,
            decreases size - k,
        {
            force_matrix.push(0);
            k += 1;
        }
        ParticleConfig { num_particles, world_size, num_types, particle_size, force_matrix }
    }

    /// Sets every coefficient to zero.
    pub fn clear_forces(&mut self)
        requires
            old(self).wf(),
        ensures
            final(self).wf(),
            final(self).same_shape(old(self)),
            forall|k: int|
                0 <= k < final(self).force_matrix@.len() ==> final(self).force_matrix@[k] == 0,
    {
        let size: usize = self.force_matrix.len();
        let mut k: usize = 0;
        while k < size
            invariant
                k <= size,
                size == self.force_matrix@.len(),
                self.same_shape(old(self)),
                self.wf(),
                forall|m: int| 0 <= m < k ==> self.force_matrix@[m] == 0,
            decreases size - k,
        {
            self.force_matrix.set(k, 0);
            k += 1;
        }
    }

    /// The coefficient of the force that a particle of type `type_a` feels
    /// from one of type `type_b`.
    pub fn get_force(&self, type_a: u32, type_b: u32) -> (force: i64)
        requires
            self.wf(),
            type_a < self.num_types,
            type_b < self.num_types,
        ensures
            force == self.force(type_a as int, type_b as int),
            magnitude(force as int) <= MAX_COEFFICIENT,
    {
        proof {
            self.lemma_index_in_range(type_a as int, type_b as int);
        }
        let index: usize = (type_a as usize) * (self.num_types as usize) + (type_b as usize);
        self.force_matrix[index]
    }

    /// Sets the coefficient of the force that a particle of type `type_a`
    /// feels from one of type `type_b`.
    pub fn set_force(&mut self, type_a: u32, type_b: u32, force: i64)
        requires
            old(self).wf(),
            type_a < old(self).num_types,
            type_b < old(self).num_types,
            magnitude(force as int) <= MAX_COEFFICIENT,
        ensures
            final(self).wf(),
            final(self).same_shape(old(self)),
            final(self).force_matrix@ == old(self).force_matrix@.update(
                old(self).index_of(type_a as int, type_b as int),
                force,
            ),
            final(self).force(type_a as int, type_b as int) == force,
            forall|a: int, b: int|
                0 <= a < old(self).num_types && 0 <= b < old(self).num_types && (a != type_a || b
                    != type_b) ==> #[trigger] final(self).force(a, b) == old(self).force(a, b),
    {
        proof {
            self.lemma_index_in_range(type_a as int, type_b as int);
        }
        let index: usize = (type_a as usize) * (self.num_types as usize) + (type_b as usize);
        self.force_matrix.set(index, force);
        proof {
            assert forall|a: int, b: int|
                0 <= a < old(self).num_types && 0 <= b < old(self).num_types && (a != type_a || b
                    != type_b) implies #[trigger] self.force(a, b) == old(self).force(a, b) by {
                old(self).lemma_index_in_range(a, b);
                if old(self).index_of(a, b) == old(self).index_of(type_a as int, type_b as int) {
                    old(self).lemma_index_injective(a, b, type_a as int, type_b as int);
                }
            }
        }
    }

    /// Draws every coefficient anew: on the diagonal from `[-1.5, -0.5]`, so
    /// that a type repels itself, elsewhere from `[-2, 2)`.
    pub fn generate_random_forces(&mut self)
        requires
            old(self).wf(),
        ensures
            final(self).wf(),
            final(self).same_shape(old(self)),
            final(self).force_matrix@.len() == old(self).num_types * old(self).num_types,
            final(self).is_random_matrix(),
    {
        let mut generator = rand::rng();
        let types: u32 = self.num_types;
        let mut i: u32 = 0;
        while i < types
            invariant
                i <= types,
                types == self.num_types,
                self.wf(),
                self.same_shape(old(self)),
                forall|a: int, b: int|
                    0 <= a < i && 0 <= b < types ==> is_random_coefficient(
                        a,
                        b,
                        #[trigger] self.force(a, b),
                    ),
            decreases types - i,
        {
            let mut j: u32 = 0;
            while j < types
                invariant
                    i < types,
                    j <= types,
                    types == self.num_types,
                    self.wf(),
                    self.same_shape(old(self)),
                    forall|a: int, b: int|
                        (0 <= a < i && 0 <= b < types) || (a == i && 0 <= b < j)
                            ==> is_random_coefficient(a, b, #[trigger] self.force(a, b)),
                decreases types - j,
            {
                let draw: i64 = random_unit(&mut generator);
                let force: i64 = if i == j {
                    self_coefficient(draw)
                } else {
                    cross_coefficient(draw)
                };
                assert(is_random_coefficient(i as int, j as int, force as int)) by {
                    assert(force == self_coefficient_of(draw as int) || force
                        == cross_coefficient_of(draw as int));
                }
                self.set_force(i, j, force);
                j += 1;
            }
            i += 1;
        }
    }

    /// Installs a pattern chosen by hand where one is known for the number of
    /// types, and random coefficients otherwise. Three types get the
    /// rock-paper-scissors cycle. Six types get a cycle in which each type
    /// attracts the next, repels the previous and mildly repels itself, with
    /// small random coefficients toward the other three.
    pub fn set_interesting_forces(&mut self)
        requires
            old(self).wf(),
        ensures
            final(self).wf(),
            final(self).same_shape(old(self)),
            final(self).force_matrix@.len() == old(self).num_types * old(self).num_types,
            old(self).num_types == 3 ==> final(self).force_matrix@ == triangle_matrix(),
            old(self).num_types == 6 ==> final(self).is_hexagon(),
            old(self).num_types != 3 && old(self).num_types != 6 ==> final(self).is_random_matrix(),
    {
        self.clear_forces();
        if self.num_types == 3 {
            assert(self.force_matrix@.len() == 9) by (nonlinear_arith)
                requires
                    self.force_matrix@.len() == self.num_types * self.num_types,
                    self.num_types == 3,
            ;
            self.set_force(0, 1, TRIANGLE_NEXT);
            self.set_force(1, 2, TRIANGLE_NEXT);
            self.set_force(2, 0, TRIANGLE_NEXT);
            self.set_force(1, 0, TRIANGLE_PREVIOUS);
            self.set_force(2, 1, TRIANGLE_PREVIOUS);
            self.set_force(0, 2, TRIANGLE_PREVIOUS);
            let mut i: u32 = 0;
            while i < 3
                invariant
                    i <= 3,
                    self.wf(),
                    self.same_shape(old(self)),
                    self.num_types == 3,
                    self.force_matrix@[1] == TRIANGLE_NEXT,
                    self.force_matrix@[2] == TRIANGLE_PREVIOUS,
                    self.force_matrix@[3] == TRIANGLE_PREVIOUS,
                    self.force_matrix@[5] == TRIANGLE_NEXT,
                    self.force_matrix@[6] == TRIANGLE_NEXT,
                    self.force_matrix@[7] == TRIANGLE_PREVIOUS,
                    i >= 1 ==> self.force_matrix@[0] == TRIANGLE_SELF,
                    i >= 2 ==> self.force_matrix@[4] == TRIANGLE_SELF,
                    i >= 3 ==> self.force_matrix@[8] == TRIANGLE_SELF,
                decreases 3 - i,
            {
                self.set_force(i, i, TRIANGLE_SELF);
                i += 1;
            }
            assert(self.force_matrix@ =~= triangle_matrix());
        } else if self.num_types == 6 {
            let mut generator = rand::rng();
            let mut i: u32 = 0;
            while i < 6
                invariant
                    i <= 6,
                    self.wf(),
                    self.same_shape(old(self)),
                    self.num_types == 6,
                    forall|a: int, b: int|
                        0 <= a < i && 0 <= b < 6 ==> match hexagon_coefficient(a, b) {
                            Some(c) => #[trigger] self.force(a, b) == c,
                            None => is_jitter_coefficient(#[trigger] self.force(a, b)),
                        },
                decreases 6 - i,
            {
                let next: u32 = (i + 1) % 6;
                let previous: u32 = (i + 5) % 6;
                let mut j: u32 = 0;
                while j < 6
                    invariant
                        i < 6,
                        j <= 6,
                        next == (i + 1) % 6,
                        previous == (i + 5) % 6,
                        self.wf(),
                        self.same_shape(old(self)),
                        self.num_types == 6,
                        forall|a: int, b: int|
                            (0 <= a < i && 0 <= b < 6) || (a == i && 0 <= b < j)
                                ==> match hexagon_coefficient(a, b) {
                                Some(c) => #[trigger] self.force(a, b) == c,
                                None => is_jitter_coefficient(#[trigger] self.force(a, b)),
                            },
                    decreases 6 - j,
                {
                    let force: i64 = if j == next {
                        HEXAGON_NEXT
                    } else if j == previous {
                        HEXAGON_PREVIOUS
                    } else if j == i {
                        HEXAGON_SELF
                    } else {
                        let draw: i64 = random_unit(&mut generator);
                        let small: i64 = jitter_coefficient(draw);
                        assert(small == jitter_coefficient_of(draw as int));
                        small
                    };
                    self.set_force(i, j, force);
                    j += 1;
                }
                i += 1;
            }
        } else {
            self.generate_random_forces();
        }
    }
}

impl Default for ParticleConfig {
    /// Six types, the default number of particles in the default world, and
    /// random coefficients.
    fn default() -> (config: ParticleConfig)
        ensures
            config.wf(),
            config.num_particles == DEFAULT_PARTICLE_COUNT,
            config.world_size == DEFAULT_WORLD_SIZE,
            config.num_types == DEFAULT_PARTICLE_TYPES,
            config.particle_size == DEFAULT_PARTICLE_SIZE,
            config.is_random_matrix(),
    {
        let mut config = ParticleConfig::new(
            DEFAULT_PARTICLE_COUNT as u32,
            DEFAULT_WORLD_SIZE,
            DEFAULT_PARTICLE_TYPES as u32,
            DEFAULT_PARTICLE_SIZE,
        );
        config.generate_random_forces();
        config
    }
}

/// The coefficient of a type on itself for a random draw of `[0, 1)`.
pub fn self_coefficient(draw: i64) -> (force: i64)
    requires
        0 <= draw < UNIT,
    ensures
        force == self_coefficient_of(draw as int),
        -UNIT - UNIT / 2 <= force <= -UNIT / 2,
{
    -draw - UNIT / 2
}

/// The coefficient between two different types for a random draw of `[0, 1)`.
pub fn cross_coefficient(draw: i64) -> (force: i64)
    requires
        0 <= draw < UNIT,
    ensures
        force == cross_coefficient_of(draw as int),
        -2 * UNIT <= force < 2 * UNIT,
{
    4 * draw - 2 * UNIT
}

/// The small coefficient for a random draw of `[0, 1)`.
pub fn jitter_coefficient(draw: i64) -> (force: i64)
    requires
        0 <= draw < UNIT,
    ensures
        force == jitter_coefficient_of(draw as int),
        -3 * (UNIT / 10) <= force <= 3 * (UNIT / 10),
{
    let product: i128 = multiply(draw - UNIT / 2, HEXAGON_JITTER);
    proof {
        lemma_jitter_range(draw as int);
    }
    product as i64
}

} // verus!
