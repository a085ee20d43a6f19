use vstd::prelude::*;
use crate::geometry::Vector;
use crate::shapes::Shape;

verus! {

/// A region of the plane, built from shapes by combinators. Each composite
/// owns its children; the tree is never changed once built. Queries recurse
/// as deep as the tree is nested, with no cap: very deep trees may exhaust the
/// stack.
#[derive(Debug, PartialEq)]
pub enum Region<C> {
    /// The points of a shape.
    Shape { shape: Shape<C> },
    /// The child region moved by `vector`.
    Translation { vector: Vector<C>, region: Box<Region<C>> },
    /// The child region stretched by `vector.dx` along x and `vector.dy` along y.
    Scale { vector: Vector<C>, region: Box<Region<C>> },
    /// The complement of the child region.
    Inverse { region: Box<Region<C>> },
    /// The points of either child.
    Union { region1: Box<Region<C>>, region2: Box<Region<C>> },
    /// The points of both children.
    Intersection { region1: Box<Region<C>>, region2: Box<Region<C>> },
    /// No point at all.
    Empty,
}

/// How a query point is carried into a child's frame on the way down the tree.
#[derive(Clone, Copy, Debug, PartialEq)]
pub enum Step<C> {
    /// Subtract the vector: the child sits under a translation by it.
    Shift(Vector<C>),
    /// Divide by the vector, axis by axis: the child sits under a scale by it.
    /// A zero factor divides by zero; what the shape then answers is whatever
    /// the scalar's arithmetic makes of it.
    Shrink(Vector<C>),
}

/// The shapes of a region, left to right, each with the steps that carry a
/// query point from the region's frame into the shape's own frame, outermost
/// first. To decide a point, each shape is tested at its carried point, and
/// `holds` combines those answers in this order.
pub open spec fn probes_of<C>(r: Region<C>) -> Seq<(Seq<Step<C>>, Shape<C>)>
    decreases r,
{
    match r {
        Region::Shape { shape } => seq![(Seq::<Step<C>>::empty(), shape)],
        Region::Translation { vector, region } => under(seq![Step::Shift(vector)], probes_of(*region)),
        Region::Scale { vector, region } => under(seq![Step::Shrink(vector)], probes_of(*region)),
        Region::Inverse { region } => probes_of(*region),
        Region::Union { region1, region2 } => probes_of(*region1) + probes_of(*region2),
        Region::Intersection { region1, region2 } => probes_of(*region1) + probes_of(*region2),
        Region::Empty => Seq::empty(),
    }
}

/// Each probe with the steps `pre` put in front of its own.
pub open spec fn under<C>(
    pre: Seq<Step<C>>,
    ps: Seq<(Seq<Step<C>>, Shape<C>)>,
) -> Seq<(Seq<Step<C>>, Shape<C>)> {
    ps.map_values(|p: (Seq<Step<C>>, Shape<C>)| (pre + p.0, p.1))
}

/// One shape of a region, borrowed from it, with the steps that carry a query
/// point into the shape's frame, outermost first.
pub struct Probe<'a, C> {
    pub steps: Vec<Step<C>>,
    pub shape: &'a Shape<C>,
}

impl<'a, C> View for Probe<'a, C> {
    type V = (Seq<Step<C>>, Shape<C>);

    open spec fn view(&self) -> (Seq<Step<C>>, Shape<C>) {
        (self.steps@, *self.shape)
    }
}

/// The number of shapes in a region, counted with repetition.
pub open spec fn shape_count<C>(r: Region<C>) -> nat
    decreases r,
{
    match r {
        Region::Shape { .. } => 1,
        Region::Translation { region, .. } => shape_count(*region),
        Region::Scale { region, .. } => shape_count(*region),
        Region::Inverse { region } => shape_count(*region),
        Region::Union { region1, region2 } => shape_count(*region1) + shape_count(*region2),
        Region::Intersection { region1, region2 } => shape_count(*region1) + shape_count(*region2),
        Region::Empty => 0,
    }
}

/// Whether the region holds the query point, given in `answers` whether each
/// of its shapes, left to right, holds the point carried into its frame.
pub open spec fn holds<C>(r: Region<C>, answers: Seq<bool>) -> bool
    decreases r,
{
    match r {
        Region::Shape { .. } => answers[0],
        Region::Translation { region, .. } => holds(*region, answers),
        Region::Scale { region, .. } => holds(*region, answers),
        Region::Inverse { region } => !holds(*region, answers),
        Region::Union { region1, region2 } => {
            let n = shape_count(*region1) as int;
            holds(*region1, answers.take(n)) || holds(*region2, answers.skip(n))
        },
        Region::Intersection { region1, region2 } => {
            let n = shape_count(*region1) as int;
            holds(*region1, answers.take(n)) && holds(*region2, answers.skip(n))
        },
        Region::Empty => false,
    }
}

/// There are as many probes as shapes.
pub proof fn lemma_probe_count<C>(r: Region<C>)
    ensures
        probes_of(r).len() == shape_count(r),
    decreases r,
{
    match r {
        Region::Translation { region, .. } => lemma_probe_count(*region),
        Region::Scale { region, .. } => lemma_probe_count(*region),
        Region::Inverse { region } => lemma_probe_count(*region),
        Region::Union { region1, region2 } => {
            lemma_probe_count(*region1);
            lemma_probe_count(*region2);
        },
        Region::Intersection { region1, region2 } => {
            lemma_probe_count(*region1);
            lemma_probe_count(*region2);
        },
        _ => {},
    }
}

impl<C: Copy> Region<C> {
    /// Appends the probes of this region, each under the steps `pre`, to `out`.
    fn collect_probes<'a>(&'a self, pre: &Vec<Step<C>>, out: &mut Vec<Probe<'a, C>>)
        ensures
            final(out)@.len() == old(out)@.len() + probes_of(*self).len(),
            forall|i: int| 0 <= i < old(out)@.len() ==> #[trigger] final(out)@[i] == old(out)@[i],
            forall|i: int|
                0 <= i < probes_of(*self).len() ==> #[trigger] final(out)@[old(out)@.len() + i]@
                    == (pre@ + probes_of(*self)[i].0, probes_of(*self)[i].1),
        decreases self,
    {
        match self {
            Region::Shape { shape } => {
                let steps = copy_steps(pre);
                out.push(Probe { steps, shape });
                assert(pre@ + Seq::<Step<C>>::empty() =~= pre@);
            },
            Region::Translation { vector, region } => {
                let mut inner = copy_steps(pre);
                inner.push(Step::Shift(*vector));
                region.collect_probes(&inner, out);
                proof { lemma_under_step(pre@, Step::Shift(*vector), probes_of(**region)); }
            },
            Region::Scale { vector, region } => {
                let mut inner = copy_steps(pre);
                inner.push(Step::Shrink(*vector));
                region.collect_probes(&inner, out);
                proof { lemma_under_step(pre@, Step::Shrink(*vector), probes_of(**region)); }
            },
            Region::Inverse { region } => {
                region.collect_probes(pre, out);
            },
            Region::Union { region1, region2 } => {
                let ghost start = out@.len();
                region1.collect_probes(pre, out);
                region2.collect_probes(pre, out);
                let ghost n1 = probes_of(**region1).len();
                assert forall|i: int| 0 <= i < probes_of(*self).len() implies #[trigger] out@[start + i]@
                    == (pre@ + probes_of(*self)[i].0, probes_of(*self)[i].1) by {
                    if i >= n1 {
                        assert(out@[start + n1 + (i - n1)] == out@[start + i]);
                    }
                };
            },
            Region::Intersection { region1, region2 } => {
                let ghost start = out@.len();
                region1.collect_probes(pre, out);
                region2.collect_probes(pre, out);
                let ghost n1 = probes_of(**region1).len();
                assert forall|i: int| 0 <= i < probes_of(*self).len() implies #[trigger] out@[start + i]@
                    == (pre@ + probes_of(*self)[i].0, probes_of(*self)[i].1) by {
                    if i >= n1 {
                        assert(out@[start + n1 + (i - n1)] == out@[start + i]);
                    }
                };
            },
            Region::Empty => {},
        }
    }

    /// The probes of this region: each of its shapes, left to right, with the
    /// steps that carry a query point into that shape's frame.
    pub fn probes(&self) -> (ps: Vec<Probe<'_, C>>)
        ensures
            ps@.len() == probes_of(*self).len(),
            ps@.len() == shape_count(*self),
            forall|i: int| 0 <= i < ps@.len() ==> #[trigger] ps@[i]@ == probes_of(*self)[i],
    {
        proof {
            lemma_probe_count(*self);
        }
        let mut ps: Vec<Probe<'_, C>> = Vec::new();
        let pre: Vec<Step<C>> = Vec::new();
        self.collect_probes(&pre, &mut ps);
        assert forall|i: int| 0 <= i < ps@.len() implies #[trigger] ps@[i]@ == probes_of(*self)[i] by {
            assert(pre@ + probes_of(*self)[i].0 =~= probes_of(*self)[i].0);
            assert(ps@[0 + i] == ps@[i]);
        };
        ps
    }
}

impl<C> Region<C> {
    /// Decides the region from the answers of its shapes that start at
    /// `start`; gives back the decision and where the next region's answers
    /// start.
    fn decide_from(&self, answers: &Vec<bool>, start: usize) -> (r: Option<(bool, usize)>)
        requires
            start <= answers@.len(),
        ensures
            r is Some <==> start + shape_count(*self) <= answers@.len(),
            r matches Some((b, end)) ==> end == start + shape_count(*self) && b == holds(
                *self,
                answers@.subrange(start as int, end as int),
            ),
        decreases self,
    {
        match self {
            Region::Shape { .. } => {
                if start < answers.len() {
                    Some((answers[start], start + 1))
                } else {
                    None
                }
            },
            Region::Translation { region, .. } => region.decide_from(answers, start),
            Region::Scale { region, .. } => region.decide_from(answers, start),
            Region::Inverse { region } => match region.decide_from(answers, start) {
                Some((b, end)) => Some((!b, end)),
                None => None,
            },
            Region::Union { region1, region2 } => match region1.decide_from(answers, start) {
                Some((b1, mid)) => match region2.decide_from(answers, mid) {
                    Some((b2, end)) => {
                        let ghost all = answers@.subrange(start as int, end as int);
                        let ghost n1 = shape_count(**region1) as int;
                        assert(all.take(n1) =~= answers@.subrange(start as int, mid as int));
                        assert(all.skip(n1) =~= answers@.subrange(mid as int, end as int));
                        Some((b1 || b2, end))
                    },
                    None => None,
                },
                None => None,
            },
            Region::Intersection { region1, region2 } => match region1.decide_from(answers, start) {
                Some((b1, mid)) => match region2.decide_from(answers, mid) {
                    Some((b2, end)) => {
                        let ghost all = answers@.subrange(start as int, end as int);
                        let ghost n1 = shape_count(**region1) as int;
                        assert(all.take(n1) =~= answers@.subrange(start as int, mid as int));
                        assert(all.skip(n1) =~= answers@.subrange(mid as int, end as int));
                        Some((b1 && b2, end))
                    },
                    None => None,
                },
                None => None,
            },
            Region::Empty => Some((false, start)),
        }
    }

    /// Whether the region holds a point, given in `answers` whether each of
    /// its shapes, in the order of `probes`, holds the point carried into its
    /// frame. `None` when there is not exactly one answer per shape.
    pub fn decide(&self, answers: &Vec<bool>) -> (r: Option<bool>)
        ensures
            r is Some <==> answers@.len() == shape_count(*self),
            r matches Some(b) ==> b == holds(*self, answers@),
    {
        match self.decide_from(answers, 0) {
            Some((b, end)) => {
                if end == answers.len() {
                    assert(answers@.subrange(0, end as int) =~= answers@);
                    Some(b)
                } else {
                    None
                }
            },
            None => None,
        }
    }
}

/// Putting `pre` in front of probes that already start with `s` is putting
/// `pre` followed by `s` in front of the bare probes.
proof fn lemma_under_step<C>(pre: Seq<Step<C>>, s: Step<C>, ps: Seq<(Seq<Step<C>>, Shape<C>)>)
    ensures
        forall|i: int|
            0 <= i < ps.len() ==> #[trigger] under(seq![s], ps)[i] == (seq![s] + ps[i].0, ps[i].1)
                && pre + under(seq![s], ps)[i].0 == pre.push(s) + ps[i].0,
{
    assert forall|i: int| 0 <= i < ps.len() implies #[trigger] under(seq![s], ps)[i] == (seq![s]
        + ps[i].0, ps[i].1) && pre + under(seq![s], ps)[i].0 == pre.push(s) + ps[i].0 by {
        assert(pre + (seq![s] + ps[i].0) =~= pre.push(s) + ps[i].0);
    };
}

/// A copy of a sequence of steps.
fn copy_steps<C: Copy>(steps: &Vec<Step<C>>) -> (r: Vec<Step<C>>)
    ensures
        r@ == steps@,
{
    let mut r: Vec<Step<C>> = Vec::new();
    let mut i: usize = 0;
    while i < steps.len()
        invariant
            i <= steps@.len(),
            r@ == steps@.subrange(0, i as int),
        decreases steps@.len() - i,
    {
        r.push(steps[i]);
        i = i + 1;
        assert(r@ =~= steps@.subrange(0, i as int));
    }
    assert(r@ =~= steps@);
    r
}

/// The region of the points of `s`.
pub fn region<C>(s: Shape<C>) -> (r: Region<C>)
    ensures
        r == (Region::Shape { shape: s }),
{
    Region::Shape { shape: s }
}

/// `r` moved by `v`.
pub fn translate<C>(v: Vector<C>, r: Region<C>) -> (t: Region<C>)
    ensures
        t == (Region::Translation { vector: v, region: Box::new(r) }),
{
    Region::Translation { vector: v, region: Box::new(r) }
}

/// `r` stretched by `v.dx` along x and `v.dy` along y.
pub fn scale<C>(v: Vector<C>, r: Region<C>) -> (t: Region<C>)
    ensures
        t == (Region::Scale { vector: v, region: Box::new(r) }),
{
    Region::Scale { vector: v, region: Box::new(r) }
}

/// The complement of `r`.
pub fn inverse<C>(r: Region<C>) -> (t: Region<C>)
    ensures
        t == (Region::Inverse { region: Box::new(r) }),
{
    Region::Inverse { region: Box::new(r) }
}

/// The points of `r1` or of `r2`.
pub fn union<C>(r1: Region<C>, r2: Region<C>) -> (t: Region<C>)
    ensures
        t == (Region::Union { region1: Box::new(r1), region2: Box::new(r2) }),
{
    Region::Union { region1: Box::new(r1), region2: Box::new(r2) }
}

/// The points of both `r1` and `r2`.
pub fn intersection<C>(r1: Region<C>, r2: Region<C>) -> (t: Region<C>)
    ensures
        t == (Region::Intersection { region1: Box::new(r1), region2: Box::new(r2) }),
{
    Region::Intersection { region1: Box::new(r1), region2: Box::new(r2) }
}

/// The region with no point.
pub fn empty<C>() -> (t: Region<C>)
    ensures
        t == Region::<C>::Empty,
{
    Region::Empty
}

} // verus!
