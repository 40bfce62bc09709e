//! The reproduction operators of the search: stable descending sort of
//! (fitness, index) pairs for elitism, roulette-wheel selection, blend
//! crossover and per-gene mutation.

use vstd::prelude::*;
use crate::nums::{round_div_1000_s, round_div_1000, lemma_mul_bounds, lemma_div_bound};
use crate::ship::{Gene, Chromosome, wf_gene, CHROMOSOME_SIZE};
use crate::rng::{rand_range_i64, rand_ratio};

verus! {

/// Insert `x` into a descending-sorted sequence, behind every element of
/// equal fitness, as a stable sort does.
pub open spec fn insert_desc_s(s: Seq<(i64, usize)>, x: (i64, usize)) -> Seq<(i64, usize)>
    decreases s.len(),
{
    if s.len() == 0 {
        seq![x]
    } else if s.last().0 < x.0 {
        insert_desc_s(s.drop_last(), x).push(s.last())
    } else {
        s.push(x)
    }
}

/// Stable descending insertion sort of (fitness, index) pairs.
pub open spec fn sort_desc_s(s: Seq<(i64, usize)>) -> Seq<(i64, usize)>
    decreases s.len(),
{
    if s.len() == 0 {
        Seq::<(i64, usize)>::empty()
    } else {
        insert_desc_s(sort_desc_s(s.drop_last()), s.last())
    }
}

/// Fitness never increases along the sequence.
pub open spec fn sorted_desc(s: Seq<(i64, usize)>) -> bool {
    forall|i: int, j: int| 0 <= i < j < s.len() ==> s[i].0 >= s[j].0
}

/// Inserting keeps the sequence sorted and adds exactly the new pair.
pub proof fn lemma_insert_desc(s: Seq<(i64, usize)>, x: (i64, usize))
    requires
        sorted_desc(s),
    ensures
        insert_desc_s(s, x).len() == s.len() + 1,
        sorted_desc(insert_desc_s(s, x)),
        insert_desc_s(s, x).to_multiset() == s.to_multiset().insert(x),
        forall|k: int|
            0 <= k < insert_desc_s(s, x).len() ==> insert_desc_s(s, x)[k] == x || s.contains(
                #[trigger] insert_desc_s(s, x)[k],
            ),
    decreases s.len(),
{
    broadcast use vstd::seq_lib::group_to_multiset_ensures;

    let r = insert_desc_s(s, x);
    if s.len() == 0 {
        assert(seq![x] =~= Seq::<(i64, usize)>::empty().push(x));
        assert(r.to_multiset() =~= s.to_multiset().insert(x));
    } else if s.last().0 < x.0 {
        let sd = s.drop_last();
        assert(sorted_desc(sd));
        lemma_insert_desc(sd, x);
        let ri = insert_desc_s(sd, x);
        assert(s =~= sd.push(s.last()));
        assert(r.to_multiset() =~= ri.to_multiset().insert(s.last()));
        assert(s.to_multiset() =~= sd.to_multiset().insert(s.last()));
        assert(ri.to_multiset().insert(s.last()) =~= sd.to_multiset().insert(x).insert(s.last()));
        assert(sd.to_multiset().insert(s.last()).insert(x) =~= sd.to_multiset().insert(x).insert(
            s.last(),
        ));
        // every element of ri is x or an element of sd, and all of those have
        // fitness at least x's or at least s.last()'s; x itself beats s.last()
        assert forall|k: int| 0 <= k < r.len() implies r[k] == x || s.contains(#[trigger] r[k]) by {
            if k < ri.len() {
                assert(r[k] == ri[k]);
                if ri[k] != x {
                    assert(sd.contains(ri[k]));
                    let w = choose|w: int| 0 <= w < sd.len() && sd[w] == ri[k];
                    assert(s[w] == ri[k]);
                }
            } else {
                assert(r[k] == s.last());
            }
        }
        assert forall|i: int, j: int| 0 <= i < j < r.len() implies r[i].0 >= r[j].0 by {
            if j < ri.len() {
            } else {
                // r[j] == s.last(); r[i] is x or an element of sd
                assert(r[i] == ri[i]);
                if ri[i] != x {
                    assert(sd.contains(ri[i]));
                    let w = choose|w: int| 0 <= w < sd.len() && sd[w] == ri[i];
                    assert(s[w].0 >= s.last().0);
                }
            }
        }
    } else {
        assert(r =~= s.push(x));
        assert(forall|k: int| 0 <= k < s.len() ==> s.contains(#[trigger] s[k]));
        assert forall|i: int, j: int| 0 <= i < j < r.len() implies r[i].0 >= r[j].0 by {
            if j == s.len() {
                assert(r[j] == x);
                assert(s[i].0 >= s.last().0);
            }
        }
    }
}

/// The sort returns a descending permutation of its input whose elements
/// all come from the input.
pub proof fn lemma_sort_desc(s: Seq<(i64, usize)>)
    ensures
        sort_desc_s(s).len() == s.len(),
        sorted_desc(sort_desc_s(s)),
        sort_desc_s(s).to_multiset() == s.to_multiset(),
        forall|k: int|
            0 <= k < s.len() ==> s.contains(#[trigger] sort_desc_s(s)[k]),
    decreases s.len(),
{
    broadcast use vstd::seq_lib::group_to_multiset_ensures;

    if s.len() > 0 {
        let sd = s.drop_last();
        lemma_sort_desc(sd);
        lemma_insert_desc(sort_desc_s(sd), s.last());
        assert(s =~= sd.push(s.last()));
        assert(s.to_multiset() =~= sd.to_multiset().insert(s.last()));
        assert(sort_desc_s(s).to_multiset() =~= sort_desc_s(sd).to_multiset().insert(s.last()));
        assert forall|k: int| 0 <= k < s.len() implies s.contains(#[trigger] sort_desc_s(s)[k]) by {
            let e = sort_desc_s(s)[k];
            if e == s.last() {
                assert(s[s.len() - 1] == e);
            } else {
                assert(sort_desc_s(sd).contains(e));
                let w = choose|w: int| 0 <= w < sort_desc_s(sd).len() && sort_desc_s(sd)[w] == e;
                assert(sd.contains(e));
                let w2 = choose|w2: int| 0 <= w2 < sd.len() && sd[w2] == e;
                assert(s[w2] == e);
            }
        }
    }
}

/// Sort (fitness, index) pairs by descending fitness, stably.
pub fn sort_pairs(pairs: &Vec<(i64, usize)>) -> (r: Vec<(i64, usize)>)
    ensures
        r@ == sort_desc_s(pairs@),
{
    let mut r: Vec<(i64, usize)> = Vec::new();
    let mut i: usize = 0;
    while i < pairs.len()
        invariant
            0 <= i <= pairs@.len(),
            r@ == sort_desc_s(pairs@.take(i as int)),
        decreases pairs@.len() - i,
    {
        let x = pairs[i];
        // find the stable insertion point from the back
        let ghost prefix = pairs@.take(i as int);
        proof {
            lemma_sort_desc_prefix_sorted(prefix);
        }
        let mut j: usize = r.len();
        while j > 0 && r[j - 1].0 < x.0
            invariant
                0 <= j <= r@.len(),
                forall|k: int| j <= k < r@.len() ==> r@[k].0 < x.0,
            decreases j,
        {
            j = j - 1;
        }
        proof {
            lemma_insert_desc_at(r@, x, j as int);
        }
        r.insert(j, x);
        proof {
            assert(pairs@.take(i + 1 as int) =~= prefix.push(x));
            assert(pairs@.take(i + 1 as int).drop_last() =~= prefix);
        }
        i = i + 1;
    }
    proof {
        assert(pairs@.take(pairs@.len() as int) =~= pairs@);
    }
    r
}

/// The sort of any sequence is sorted (helper to reuse inside loops).
proof fn lemma_sort_desc_prefix_sorted(s: Seq<(i64, usize)>)
    ensures
        sorted_desc(sort_desc_s(s)),
{
    lemma_sort_desc(s);
}

/// Scanning a sorted sequence from the back past every strictly smaller
/// fitness lands exactly on the stable insertion point.
proof fn lemma_insert_desc_at(s: Seq<(i64, usize)>, x: (i64, usize), j: int)
    requires
        sorted_desc(s),
        0 <= j <= s.len(),
        forall|k: int| j <= k < s.len() ==> s[k].0 < x.0,
        j > 0 ==> s[j - 1].0 >= x.0,
    ensures
        insert_desc_s(s, x) == s.insert(j, x),
    decreases s.len(),
{
    if s.len() == 0 {
        assert(insert_desc_s(s, x) =~= s.insert(0, x));
    } else if j == s.len() {
        assert(s.last().0 >= x.0);
        assert(insert_desc_s(s, x) =~= s.insert(j, x));
    } else {
        assert(s.last().0 < x.0);
        let sd = s.drop_last();
        assert(sorted_desc(sd));
        lemma_insert_desc_at(sd, x, j);
        assert(insert_desc_s(s, x) == insert_desc_s(sd, x).push(s.last()));
        assert(sd.insert(j, x).push(s.last()) =~= s.insert(j, x));
    }
}

/// The first index whose cumulative fitness exceeds the drawn threshold:
/// roulette-wheel selection against a cumulative-sum table.
pub fn select_index(cum: &Vec<i64>, t: i64) -> (idx: usize)
    requires
        cum@.len() > 0,
        t < cum@[cum@.len() - 1],
    ensures
        idx < cum@.len(),
        cum@[idx as int] > t,
        forall|j: int| 0 <= j < idx ==> #[trigger] cum@[j] <= t,
{
    let n: usize = cum.len();
    let mut idx: usize = 0;
    while cum[idx] <= t
        invariant
            n == cum@.len(),
            0 <= idx < n,
            t < cum@[n - 1],
            forall|j: int| 0 <= j < idx ==> #[trigger] cum@[j] <= t,
        decreases n - idx,
    {
        proof {
            assert(cum@[idx as int] <= t);
            assert(idx + 1 < n) by {
                if idx + 1 == n {
                    assert(cum@[n - 1] <= t);
                }
            }
        }
        idx = idx + 1;
    }
    idx
}

/// The blend of two gene components with ratio `r` out of 1000, rounded
/// half away from zero.
pub open spec fn blend_val_s(a: int, b: int, r: int) -> int {
    round_div_1000_s(r * a + (1000 - r) * b)
}

/// A blend of two values never leaves the interval both came from.
pub proof fn lemma_blend_val_range(a: int, b: int, r: int, lo: int, hi: int)
    requires
        lo <= a <= hi,
        lo <= b <= hi,
        0 <= r <= 1000,
    ensures
        lo <= blend_val_s(a, b, r) <= hi,
{
    let n = r * a + (1000 - r) * b;
    assert(r * lo <= r * a <= r * hi) by (nonlinear_arith)
        requires
            lo <= a <= hi,
            0 <= r,
    ;
    assert((1000 - r) * lo <= (1000 - r) * b <= (1000 - r) * hi) by (nonlinear_arith)
        requires
            lo <= b <= hi,
            r <= 1000,
    ;
    assert(r * lo + (1000 - r) * lo == 1000 * lo && r * hi + (1000 - r) * hi == 1000 * hi)
        by (nonlinear_arith);
    assert(1000 * lo <= n <= 1000 * hi);
    if n >= 0 {
        lemma_div_bound(n + 500, 1000, hi + 1);
        crate::nums::lemma_div_le(n + 500, 1000);
        if lo > 0 {
            crate::nums::lemma_div_at_least(n + 500, 1000, lo);
        }
    } else {
        lemma_div_bound((-n) + 500, 1000, (-lo) + 1);
        crate::nums::lemma_div_le((-n) + 500, 1000);
        if hi < 0 {
            crate::nums::lemma_div_at_least((-n) + 500, 1000, -hi);
        }
    }
}

/// A blend never leaves the interval spanned by the two parent values.
pub proof fn lemma_blend_val_between(a: int, b: int, r: int)
    requires
        0 <= r <= 1000,
    ensures
        (if a <= b {
            a
        } else {
            b
        }) <= blend_val_s(a, b, r) <= (if a >= b {
            a
        } else {
            b
        }),
{
    let lo = if a <= b {
        a
    } else {
        b
    };
    let hi = if a >= b {
        a
    } else {
        b
    };
    lemma_blend_val_range(a, b, r, lo, hi);
}

/// The two children of one crossover, described exactly: one ratio per gene
/// position, the first child the ratio-weighted blend of its parents, the
/// second the complementary blend.
pub open spec fn blend_children_s(
    pa: Seq<Gene>,
    pb: Seq<Gene>,
    c0: Seq<Gene>,
    c1: Seq<Gene>,
    rs: Seq<int>,
) -> bool {
    &&& rs.len() == pa.len()
    &&& c0.len() == pa.len()
    &&& c1.len() == pa.len()
    &&& forall|i: int|
        0 <= i < pa.len() ==> {
            &&& 0 <= #[trigger] rs[i] <= 1000
            &&& c0[i].angle == blend_val_s(pa[i].angle as int, pb[i].angle as int, rs[i])
            &&& c0[i].power == blend_val_s(pa[i].power as int, pb[i].power as int, rs[i])
            &&& c1[i].angle == blend_val_s(pa[i].angle as int, pb[i].angle as int, 1000 - rs[i])
            &&& c1[i].power == blend_val_s(pa[i].power as int, pb[i].power as int, 1000 - rs[i])
        }
}

/// Blend two gene components.
pub fn blend_val(a: i32, b: i32, r: i64) -> (v: i32)
    requires
        -100 <= a <= 100,
        -100 <= b <= 100,
        0 <= r <= 1000,
    ensures
        v == blend_val_s(a as int, b as int, r as int),
        -100 <= v <= 100,
{
    proof {
        lemma_blend_val_range(a as int, b as int, r as int, -100, 100);
        lemma_mul_bounds(r as int, a as int, 1000, 100);
        lemma_mul_bounds(1000 - r as int, b as int, 1000, 100);
    }
    let n: i64 = r * (a as i64) + (1000 - r) * (b as i64);
    let v: i64 = round_div_1000(n);
    v as i32
}

/// Blend crossover: for each gene position an independent ratio is drawn,
/// the first child gets the ratio-weighted blend of its parents' genes, the
/// second child the complementary blend. Whatever ratios come out, the
/// children really are complementary per-position blends of the two
/// parents - so by `lemma_blend_val_between` every child gene lies
/// componentwise between its parents' genes - their genomes stay within
/// the gene bounds, and their fitness starts at zero.
pub fn crossover(a: &Chromosome, b: &Chromosome, rng: &mut rand::rngs::StdRng) -> (children: (
    Chromosome,
    Chromosome,
))
    requires
        a.wf(),
        b.wf(),
    ensures
        children.0.wf(),
        children.1.wf(),
        children.0.fitness == 0,
        children.1.fitness == 0,
        exists|rs: Seq<int>|
            #[trigger] blend_children_s(
                a.genes@,
                b.genes@,
                children.0.genes@,
                children.1.genes@,
                rs,
            ),
{
    let mut genes0: Vec<Gene> = Vec::new();
    let mut genes1: Vec<Gene> = Vec::new();
    let ghost mut ratios: Seq<int> = Seq::empty();
    let mut i: usize = 0;
    while i < CHROMOSOME_SIZE
        invariant
            a.wf(),
            b.wf(),
            0 <= i <= CHROMOSOME_SIZE,
            genes0@.len() == i,
            genes1@.len() == i,
            ratios.len() == i,
            forall|j: int| 0 <= j < i ==> wf_gene(#[trigger] genes0@[j]),
            forall|j: int| 0 <= j < i ==> wf_gene(#[trigger] genes1@[j]),
            forall|j: int|
                0 <= j < i ==> {
                    &&& 0 <= #[trigger] ratios[j] <= 1000
                    &&& genes0@[j].angle == blend_val_s(
                        a.genes@[j].angle as int,
                        b.genes@[j].angle as int,
                        ratios[j],
                    )
                    &&& genes0@[j].power == blend_val_s(
                        a.genes@[j].power as int,
                        b.genes@[j].power as int,
                        ratios[j],
                    )
                    &&& genes1@[j].angle == blend_val_s(
                        a.genes@[j].angle as int,
                        b.genes@[j].angle as int,
                        1000 - ratios[j],
                    )
                    &&& genes1@[j].power == blend_val_s(
                        a.genes@[j].power as int,
                        b.genes@[j].power as int,
                        1000 - ratios[j],
                    )
                },
        decreases CHROMOSOME_SIZE - i,
    {
        let r: i64 = rand_range_i64(rng, 0, 1001);
        let ga = a.genes[i];
        let gb = b.genes[i];
        let a0 = blend_val(ga.angle, gb.angle, r);
        let p0 = blend_val(ga.power, gb.power, r);
        let a1 = blend_val(ga.angle, gb.angle, 1000 - r);
        let p1 = blend_val(ga.power, gb.power, 1000 - r);
        proof {
            lemma_blend_val_range(ga.angle as int, gb.angle as int, r as int, -15, 15);
            lemma_blend_val_range(ga.power as int, gb.power as int, r as int, -1, 1);
            lemma_blend_val_range(ga.angle as int, gb.angle as int, 1000 - r as int, -15, 15);
            lemma_blend_val_range(ga.power as int, gb.power as int, 1000 - r as int, -1, 1);
            ratios = ratios.push(r as int);
        }
        genes0.push(Gene { angle: a0, power: p0 });
        genes1.push(Gene { angle: a1, power: p1 });
        i = i + 1;
    }
    proof {
        assert(blend_children_s(a.genes@, b.genes@, genes0@, genes1@, ratios));
    }
    (Chromosome { genes: genes0, fitness: 0 }, Chromosome { genes: genes1, fitness: 0 })
}

/// Mutation: each gene is independently replaced, with probability
/// `rate_bp` out of 10_000, by a freshly sampled random gene. A zero rate
/// leaves the genome untouched.
pub fn mutate(c: &mut Chromosome, rate_bp: u32, rng: &mut rand::rngs::StdRng)
    requires
        old(c).wf(),
        rate_bp <= 10_000,
    ensures
        final(c).wf(),
        final(c).fitness == old(c).fitness,
        rate_bp == 0 ==> final(c).genes@ == old(c).genes@,
{
    let mut i: usize = 0;
    while i < CHROMOSOME_SIZE
        invariant
            0 <= i <= CHROMOSOME_SIZE,
            rate_bp <= 10_000,
            c.genes@.len() == CHROMOSOME_SIZE,
            forall|j: int| 0 <= j < CHROMOSOME_SIZE ==> wf_gene(#[trigger] c.genes@[j]),
            c.fitness == old(c).fitness,
            rate_bp == 0 ==> c.genes@ == old(c).genes@,
        decreases CHROMOSOME_SIZE - i,
    {
        if rand_ratio(rng, rate_bp, 10_000) {
            let da: i64 = rand_range_i64(rng, -15, 16);
            let dp: i64 = rand_range_i64(rng, -1, 2);
            c.genes[i] = Gene { angle: da as i32, power: dp as i32 };
        }
        i = i + 1;
    }
}

} // verus!
