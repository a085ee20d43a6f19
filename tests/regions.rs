use region_algebra::geometry::vector;
use region_algebra::regions::{
    empty, intersection, inverse, region, scale, translate, union, Region, Step,
};
use region_algebra::shapes::{rect, rt_triangle};

#[test]
fn shape_region_has_one_bare_probe() {
    let s = region(rt_triangle(3.0, 4.0));
    let ps = s.probes();
    assert_eq!(ps.len(), 1);
    assert!(ps[0].steps.is_empty());
    assert_eq!(*ps[0].shape, rt_triangle(3.0, 4.0));
    assert_eq!(s.decide(&vec![true]), Some(true));
    assert_eq!(s.decide(&vec![false]), Some(false));
}

#[test]
fn empty_region_holds_nothing() {
    let e: Region<f64> = empty();
    assert!(e.probes().is_empty());
    assert_eq!(e.decide(&vec![]), Some(false));
}

#[test]
fn translation_shifts_before_the_child() {
    let t = translate(vector(5.0, 5.0), region(rt_triangle(3.0, 4.0)));
    let ps = t.probes();
    assert_eq!(ps.len(), 1);
    assert_eq!(ps[0].steps, vec![Step::Shift(vector(5.0, 5.0))]);
    assert_eq!(*ps[0].shape, rt_triangle(3.0, 4.0));
    assert_eq!(t.decide(&vec![true]), Some(true));
}

#[test]
fn nested_steps_are_outermost_first() {
    let t = translate(vector(1.0, 2.0), scale(vector(5.0, 5.0), region(rect(3.0, 4.0))));
    let ps = t.probes();
    assert_eq!(
        ps[0].steps,
        vec![Step::Shift(vector(1.0, 2.0)), Step::Shrink(vector(5.0, 5.0))]
    );
}

#[test]
fn inverse_negates() {
    let t = inverse(region(rect(3.0, 4.0)));
    assert_eq!(t.decide(&vec![false]), Some(true));
    assert_eq!(t.decide(&vec![true]), Some(false));
}

#[test]
fn union_shapes_left_to_right() {
    let t = union(region(rect(3.0, 4.0)), region(rect(13.0, 14.0)));
    let ps = t.probes();
    assert_eq!(ps.len(), 2);
    assert_eq!(*ps[0].shape, rect(3.0, 4.0));
    assert_eq!(*ps[1].shape, rect(13.0, 14.0));
    // (12, 13) is outside the first rectangle and inside the second.
    assert_eq!(t.decide(&vec![false, true]), Some(true));
    // (12, 16) is outside both.
    assert_eq!(t.decide(&vec![false, false]), Some(false));
}

#[test]
fn intersection_needs_both() {
    let t = intersection(region(rect(3.0, 4.0)), region(rect(13.0, 14.0)));
    assert_eq!(t.decide(&vec![true, true]), Some(true));
    assert_eq!(t.decide(&vec![false, true]), Some(false));
}

#[test]
fn wrong_answer_count_is_refused() {
    let t = union(region(rect(3.0, 4.0)), region(rect(13.0, 14.0)));
    assert_eq!(t.decide(&vec![true]), None);
    assert_eq!(t.decide(&vec![true, false, true]), None);
    let e: Region<f64> = empty();
    assert_eq!(e.decide(&vec![true]), None);
}

#[test]
fn de_morgan_on_all_answers() {
    for a in [false, true] {
        for b in [false, true] {
            let lhs = inverse(union(region(rect(1.0, 1.0)), region(rect(2.0, 2.0))));
            let rhs = intersection(
                inverse(region(rect(1.0, 1.0))),
                inverse(region(rect(2.0, 2.0))),
            );
            assert_eq!(lhs.decide(&vec![a, b]), Some(!a && !b));
            assert_eq!(rhs.decide(&vec![a, b]), Some(!a && !b));
        }
    }
}

#[test]
fn union_and_intersection_commute_and_associate() {
    for a in [false, true] {
        for b in [false, true] {
            for c in [false, true] {
                let r = |w: f64| region(rect(w, w));
                let u1 = union(union(r(1.0), r(2.0)), r(3.0));
                let u2 = union(r(1.0), union(r(2.0), r(3.0)));
                let u3 = union(r(2.0), r(1.0));
                assert_eq!(u1.decide(&vec![a, b, c]), u2.decide(&vec![a, b, c]));
                assert_eq!(
                    union(r(1.0), r(2.0)).decide(&vec![a, b]),
                    u3.decide(&vec![b, a])
                );
                let i1 = intersection(intersection(r(1.0), r(2.0)), r(3.0));
                let i2 = intersection(r(1.0), intersection(r(2.0), r(3.0)));
                let i3 = intersection(r(2.0), r(1.0));
                assert_eq!(i1.decide(&vec![a, b, c]), Some(a && b && c));
                assert_eq!(i2.decide(&vec![a, b, c]), Some(a && b && c));
                assert_eq!(
                    intersection(r(1.0), r(2.0)).decide(&vec![a, b]),
                    i3.decide(&vec![b, a])
                );
            }
        }
    }
}
