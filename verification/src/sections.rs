use vstd::prelude::*;

verus! {

/// One stage of a cascaded Butterworth low-pass design.
#[derive(Debug, Clone, Copy, PartialEq, Eq, Structural)]
pub enum SectionKind {
    /// The single real pole of an odd-order design.
    FirstOrder,
    /// Pole pair number `pair` (from 1). Its complex-conjugate analog poles
    /// lie on the unit circle at the angle `pi * angle_num / angle_den` from
    /// the negative real axis.
    SecondOrder { pair: usize, angle_num: u128, angle_den: u128 },
}

/// Number of sections in a design of the given order: one per pole pair,
/// plus one for the real pole of an odd order.
pub open spec fn section_count(order: nat) -> nat {
    (order + 1) / 2
}

/// Angle of pole pair `pair` of a Butterworth design of the given order, in
/// units of `pi` as the fraction `num / den` from the negative real axis:
/// the poles are spread evenly, `pi / order` apart, and symmetric about the
/// real axis, so the pairs sit at `(2 * pair - 1) / (2 * order)` for an even
/// order and at `pair / order = 2 * pair / (2 * order)` for an odd one.
pub open spec fn pair_angle_num(order: nat, pair: nat) -> nat {
    (2 * pair - 1 + order % 2) as nat
}

/// Denominator of every pole-pair angle of a design of the given order.
pub open spec fn pair_angle_den(order: nat) -> nat {
    2 * order
}

/// The section at position `j` (from 0) of the design of the given order.
pub open spec fn section_at(order: nat, j: int) -> SectionKind {
    if order % 2 == 1 && j == section_count(order) - 1 {
        SectionKind::FirstOrder
    } else {
        SectionKind::SecondOrder {
            pair: (j + 1) as usize,
            angle_num: pair_angle_num(order, (j + 1) as nat) as u128,
            angle_den: pair_angle_den(order) as u128,
        }
    }
}

/// Filter order that a section contributes: one pole or two.
pub open spec fn section_order(s: SectionKind) -> nat {
    match s {
        SectionKind::FirstOrder => 1,
        SectionKind::SecondOrder { .. } => 2,
    }
}

/// Total filter order of a cascade of sections.
pub open spec fn cascade_order(plan: Seq<SectionKind>) -> nat
    decreases plan.len(),
{
    if plan.len() == 0 {
        0
    } else {
        cascade_order(plan.drop_last()) + section_order(plan.last())
    }
}

/// The sections, in the order in which they are applied, of a Butterworth
/// low-pass design of the given order: pole pairs `1, 2, ...` as second-order
/// sections, and for an odd order a first-order section for the real pole
/// last. Every pole pair lies strictly inside the left half-plane and off the
/// real axis (its angle from the negative real axis is strictly between 0 and
/// `pi / 2`), and the orders of the sections add up to `order`.
pub fn butterworth_sections(order: usize) -> (plan: Vec<SectionKind>)
    ensures
        plan@.len() == section_count(order as nat),
        forall|j: int| 0 <= j < plan@.len() ==> #[trigger] plan@[j] == section_at(order as nat, j),
        forall|j: int|
            0 <= j < plan@.len() ==> (#[trigger] plan@[j] == if order % 2 == 1 && j == plan@.len() - 1 {
                SectionKind::FirstOrder
            } else {
                SectionKind::SecondOrder {
                    pair: (j + 1) as usize,
                    angle_num: (2 * j + 1 + order % 2) as u128,
                    angle_den: (2 * order) as u128,
                }
            }),
        forall|j: int|
            0 <= j < plan@.len() && (#[trigger] plan@[j]) is SecondOrder ==> {
                &&& 0 < plan@[j]->angle_num
                &&& 2 * plan@[j]->angle_num < plan@[j]->angle_den
            },
        cascade_order(plan@) == order,
{
    let n_sections = order / 2 + order % 2;
    let den: u128 = (order as u128) * 2;
    let parity: u128 = (order % 2) as u128;
    let mut plan: Vec<SectionKind> = Vec::new();
    let mut k: usize = 1;
    while k <= n_sections
        invariant
            n_sections == section_count(order as nat),
            den == pair_angle_den(order as nat),
            parity == order % 2,
            1 <= k <= n_sections + 1,
            plan@.len() == k - 1,
            forall|j: int| 0 <= j < plan@.len() ==> #[trigger] plan@[j] == section_at(order as nat, j),
        decreases n_sections + 1 - k,
    {
        if order % 2 == 1 && k == n_sections {
            plan.push(SectionKind::FirstOrder);
        } else {
            let num: u128 = (k as u128) * 2 - 1 + parity;
            plan.push(SectionKind::SecondOrder { pair: k, angle_num: num, angle_den: den });
        }
        k = k + 1;
    }
    proof {
        lemma_sections_total_order(order, plan@);
        assert forall|j: int|
            0 <= j < plan@.len() && (#[trigger] plan@[j]) is SecondOrder implies {
                &&& 0 < plan@[j]->angle_num
                &&& 2 * plan@[j]->angle_num < plan@[j]->angle_den
            } by {
            assert(plan@[j] == section_at(order as nat, j));
            assert(j + 1 <= order / 2);
        }
    }
    plan
}

/// The total order of the cascade that `butterworth_sections` plans equals
/// the requested order: each pole pair contributes two, the real pole of an
/// odd order one.
pub proof fn lemma_sections_total_order(order: usize, plan: Seq<SectionKind>)
    requires
        plan.len() == section_count(order as nat),
        forall|j: int| 0 <= j < plan.len() ==> #[trigger] plan[j] == section_at(order as nat, j),
    ensures
        cascade_order(plan) == order,
{
    lemma_prefix_pairs(order as nat, plan, (order / 2) as nat);
    if order % 2 == 1 {
        assert(plan.drop_last() =~= plan.subrange(0, (order / 2) as int));
    } else {
        assert(plan =~= plan.subrange(0, (order / 2) as int));
    }
}

/// The pole pairs of a Butterworth plan are those of a maximally flat
/// response: every pair has the angle denominator `2 * order`, pair `k` sits
/// at position `k - 1`, the first pair is `1 + order % 2` and the last pair
/// `order - 1` steps of `pi / (2 * order)` from the negative real axis (so the
/// outermost pair is `pi / (2 * order)` from the imaginary axis), and
/// consecutive pairs are exactly `pi / order` apart; for an odd order the
/// one first-order section comes last.
pub proof fn lemma_pole_pairs_evenly_spaced(order: usize, plan: Seq<SectionKind>)
    requires
        plan.len() == section_count(order as nat),
        forall|j: int| 0 <= j < plan.len() ==> #[trigger] plan[j] == section_at(order as nat, j),
    ensures
        forall|j: int| 0 <= j < order / 2 ==> {
            &&& (#[trigger] plan[j]) is SecondOrder
            &&& plan[j]->pair == j + 1
            &&& plan[j]->angle_den == 2 * order
        },
        order >= 2 ==> plan[0]->angle_num == 1 + order % 2,
        order >= 2 ==> plan[order / 2 - 1]->angle_num == order - 1,
        forall|j: int, k: int| 0 <= j && k == j + 1 && k < order / 2 ==>
            #[trigger] plan[k]->angle_num == #[trigger] plan[j]->angle_num + 2,
        order % 2 == 1 ==> plan[(order / 2) as int] == SectionKind::FirstOrder,
        forall|j: int| 0 <= j < plan.len() && (#[trigger] plan[j]) == SectionKind::FirstOrder
            ==> order % 2 == 1 && j == plan.len() - 1,
{
    assert forall|j: int, k: int| 0 <= j && k == j + 1 && k < order / 2 implies
        #[trigger] plan[k]->angle_num == #[trigger] plan[j]->angle_num + 2 by {
        assert(plan[j] == section_at(order as nat, j));
        assert(plan[k] == section_at(order as nat, k));
    }
    if order >= 2 {
        assert(plan[0] == section_at(order as nat, 0));
        assert(plan[order / 2 - 1] == section_at(order as nat, order / 2 - 1));
    }
    if order % 2 == 1 {
        assert(plan[(order / 2) as int] == section_at(order as nat, (order / 2) as int));
    }
}

/// The first `m` sections of the plan are pole pairs, contributing `2 * m`.
proof fn lemma_prefix_pairs(order: nat, plan: Seq<SectionKind>, m: nat)
    requires
        m <= order / 2,
        plan.len() == section_count(order),
        forall|j: int| 0 <= j < plan.len() ==> #[trigger] plan[j] == section_at(order, j),
    ensures
        cascade_order(plan.subrange(0, m as int)) == 2 * m,
    decreases m,
{
    if m > 0 {
        lemma_prefix_pairs(order, plan, (m - 1) as nat);
        let p = plan.subrange(0, m as int);
        assert(p.drop_last() =~= plan.subrange(0, m - 1));
        assert(plan[m - 1] == section_at(order, m - 1));
    } else {
        assert(plan.subrange(0, 0) =~= Seq::<SectionKind>::empty());
    }
}

} // verus!
