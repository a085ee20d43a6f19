use vstd::prelude::*;
use crate::geometry::Vector;
use crate::regions::{holds, probes_of, shape_count, under, Region, Step};
use crate::shapes::Shape;

verus! {

/// Answers for two regions side by side split back into each region's own.
proof fn lemma_split<C>(r1: Region<C>, a1: Seq<bool>, a2: Seq<bool>)
    requires
        a1.len() == shape_count(r1),
    ensures
        (a1 + a2).take(shape_count(r1) as int) == a1,
        (a1 + a2).skip(shape_count(r1) as int) == a2,
{
    assert((a1 + a2).take(shape_count(r1) as int) =~= a1);
    assert((a1 + a2).skip(shape_count(r1) as int) =~= a2);
}

/// The region of a shape has that shape as its one probe, with no step: the
/// shape is tested at the query point itself, and the region holds the point
/// exactly when the shape does.
pub proof fn lemma_shape_region<C>(s: Shape<C>, answers: Seq<bool>)
    requires
        answers.len() == 1,
    ensures
        probes_of(Region::Shape { shape: s }) == seq![(Seq::<Step<C>>::empty(), s)],
        holds(Region::Shape { shape: s }, answers) == answers[0],
{
}

/// A translated region tests each of its shapes at the query point shifted
/// back by the translation before the steps of the child, and decides from
/// those answers exactly as the child does.
pub proof fn lemma_translation<C>(v: Vector<C>, r: Region<C>, answers: Seq<bool>)
    ensures
        probes_of(Region::Translation { vector: v, region: Box::new(r) }).len() == probes_of(r).len(),
        forall|i: int|
            0 <= i < probes_of(r).len() ==> #[trigger] probes_of(
                Region::Translation { vector: v, region: Box::new(r) },
            )[i] == (seq![Step::Shift(v)] + probes_of(r)[i].0, probes_of(r)[i].1),
        holds(Region::Translation { vector: v, region: Box::new(r) }, answers) == holds(r, answers),
{
    assert(probes_of(Region::Translation { vector: v, region: Box::new(r) }) == under(
        seq![Step::Shift(v)],
        probes_of(r),
    ));
}

/// The complement of a union holds a point exactly when neither region
/// does, which is also when the intersection of the complements holds it.
pub proof fn lemma_de_morgan<C>(r1: Region<C>, r2: Region<C>, a1: Seq<bool>, a2: Seq<bool>)
    requires
        a1.len() == shape_count(r1),
        a2.len() == shape_count(r2),
    ensures
        holds(
            Region::Inverse {
                region: Box::new(Region::Union { region1: Box::new(r1), region2: Box::new(r2) }),
            },
            a1 + a2,
        ) == (!holds(r1, a1) && !holds(r2, a2)),
        holds(
            Region::Inverse {
                region: Box::new(Region::Union { region1: Box::new(r1), region2: Box::new(r2) }),
            },
            a1 + a2,
        ) == holds(
            Region::Intersection {
                region1: Box::new(Region::Inverse { region: Box::new(r1) }),
                region2: Box::new(Region::Inverse { region: Box::new(r2) }),
            },
            a1 + a2,
        ),
{
    let u = Region::Union { region1: Box::new(r1), region2: Box::new(r2) };
    lemma_split(r1, a1, a2);
    lemma_split(Region::Inverse { region: Box::new(r1) }, a1, a2);
    assert(holds(u, a1 + a2) == (holds(r1, a1) || holds(r2, a2)));
    let i1 = Region::Inverse { region: Box::new(r1) };
    let i2 = Region::Inverse { region: Box::new(r2) };
    assert(shape_count(i1) == shape_count(r1));
    assert(holds(i1, a1) == !holds(r1, a1));
    assert(holds(i2, a2) == !holds(r2, a2));
}

/// The empty region holds no point, whatever is asked of it.
pub proof fn lemma_empty<C>(answers: Seq<bool>)
    ensures
        probes_of(Region::<C>::Empty).len() == 0,
        !holds(Region::<C>::Empty, answers),
{
}

/// The order of the two operands of a union does not change what it holds.
pub proof fn lemma_union_commutes<C>(r1: Region<C>, r2: Region<C>, a1: Seq<bool>, a2: Seq<bool>)
    requires
        a1.len() == shape_count(r1),
        a2.len() == shape_count(r2),
    ensures
        holds(Region::Union { region1: Box::new(r1), region2: Box::new(r2) }, a1 + a2) == holds(
            Region::Union { region1: Box::new(r2), region2: Box::new(r1) },
            a2 + a1,
        ),
{
    lemma_split(r1, a1, a2);
    lemma_split(r2, a2, a1);
}

/// The order of the two operands of an intersection does not change what it
/// holds.
pub proof fn lemma_intersection_commutes<C>(
    r1: Region<C>,
    r2: Region<C>,
    a1: Seq<bool>,
    a2: Seq<bool>,
)
    requires
        a1.len() == shape_count(r1),
        a2.len() == shape_count(r2),
    ensures
        holds(Region::Intersection { region1: Box::new(r1), region2: Box::new(r2) }, a1 + a2)
            == holds(Region::Intersection { region1: Box::new(r2), region2: Box::new(r1) }, a2 + a1),
{
    lemma_split(r1, a1, a2);
    lemma_split(r2, a2, a1);
}

/// Nested unions hold the same points however they are grouped.
pub proof fn lemma_union_associates<C>(
    r1: Region<C>,
    r2: Region<C>,
    r3: Region<C>,
    a1: Seq<bool>,
    a2: Seq<bool>,
    a3: Seq<bool>,
)
    requires
        a1.len() == shape_count(r1),
        a2.len() == shape_count(r2),
        a3.len() == shape_count(r3),
    ensures
        holds(
            Region::Union {
                region1: Box::new(Region::Union { region1: Box::new(r1), region2: Box::new(r2) }),
                region2: Box::new(r3),
            },
            a1 + a2 + a3,
        ) == holds(
            Region::Union {
                region1: Box::new(r1),
                region2: Box::new(Region::Union { region1: Box::new(r2), region2: Box::new(r3) }),
            },
            a1 + (a2 + a3),
        ),
{
    let r12 = Region::Union { region1: Box::new(r1), region2: Box::new(r2) };
    let r23 = Region::Union { region1: Box::new(r2), region2: Box::new(r3) };
    assert(a1 + a2 + a3 =~= a1 + (a2 + a3));
    lemma_split(r12, a1 + a2, a3);
    lemma_split(r1, a1, a2);
    lemma_split(r1, a1, a2 + a3);
    lemma_split(r2, a2, a3);
    assert(holds(r12, a1 + a2) == (holds(r1, a1) || holds(r2, a2)));
    assert(holds(r23, a2 + a3) == (holds(r2, a2) || holds(r3, a3)));
}

/// Nested intersections hold the same points however they are grouped.
pub proof fn lemma_intersection_associates<C>(
    r1: Region<C>,
    r2: Region<C>,
    r3: Region<C>,
    a1: Seq<bool>,
    a2: Seq<bool>,
    a3: Seq<bool>,
)
    requires
        a1.len() == shape_count(r1),
        a2.len() == shape_count(r2),
        a3.len() == shape_count(r3),
    ensures
        holds(
            Region::Intersection {
                region1: Box::new(Region::Intersection { region1: Box::new(r1), region2: Box::new(r2) }),
                region2: Box::new(r3),
            },
            a1 + a2 + a3,
        ) == holds(
            Region::Intersection {
                region1: Box::new(r1),
                region2: Box::new(Region::Intersection { region1: Box::new(r2), region2: Box::new(r3) }),
            },
            a1 + (a2 + a3),
        ),
{
    let r12 = Region::Intersection { region1: Box::new(r1), region2: Box::new(r2) };
    let r23 = Region::Intersection { region1: Box::new(r2), region2: Box::new(r3) };
    assert(a1 + a2 + a3 =~= a1 + (a2 + a3));
    lemma_split(r12, a1 + a2, a3);
    lemma_split(r1, a1, a2);
    lemma_split(r1, a1, a2 + a3);
    lemma_split(r2, a2, a3);
    assert(holds(r12, a1 + a2) == (holds(r1, a1) && holds(r2, a2)));
    assert(holds(r23, a2 + a3) == (holds(r2, a2) && holds(r3, a3)));
}

} // verus!
