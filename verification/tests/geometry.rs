use bwb::geometry::{
    box_side_len_sqr, build_range, calc_projected_range, check_overlap, direction_vector, dotprod,
    edge, is_collision, normal, scale, Direction,
};

#[test]
fn geom_edge_simple() {
    // Arrange
    let v1 = (3, 2);
    let v2 = (7, 7);
    let edge_expected = (4, 5);

    // Act
    let edge_actual = edge(v1, v2);

    // Assert
    assert_eq!(edge_actual, edge_expected);
}

#[test]
fn geom_normal_simple() {
    let vector = (4, 5);
    let normal_expected = (-5, 4);

    let normal_actual = normal(vector);

    assert_eq!(normal_actual, normal_expected);
}

#[test]
fn geom_dotprod_simple() {
    let vector1 = (7, 0);
    let vector2 = (13, 10);
    let dotprod_expected = 91;

    let dotprod_actual = dotprod(vector1, vector2);

    assert_eq!(dotprod_actual, dotprod_expected);
}

#[test]
fn calc_projected_range_simple() {
    let input = [5, 1, 2];
    let expected = (1, 5);

    let actual = input
        .iter()
        .fold((std::i32::MAX, std::i32::MIN), |acc, projected| {
            build_range(acc, *projected)
        });

    assert_eq!(actual, expected);
}

#[test]
fn check_overlap_1() {
    // ---
    //     ---
    let r1 = (1, 3);
    let r2 = (4, 6);
    let overlap_expected = false;

    let overlap_actual = check_overlap(r1, r2);

    assert_eq!(overlap_actual, overlap_expected);
}

#[test]
fn check_overlap_2() {
    //     ---
    // ---
    let r1 = (4, 6);
    let r2 = (1, 3);
    let overlap_expected = false;

    let overlap_actual = check_overlap(r1, r2);

    assert_eq!(overlap_actual, overlap_expected);
}

#[test]
fn check_overlap_3() {
    // ---
    //  -
    let r1 = (1, 3);
    let r2 = (2, 2);
    let overlap_expected = true;

    let overlap_actual = check_overlap(r1, r2);

    assert_eq!(overlap_actual, overlap_expected);
}

#[test]
fn check_overlap_4() {
    // ---
    //    ---
    let r1 = (1, 3);
    let r2 = (3, 5);
    let overlap_expected = true;

    let overlap_actual = check_overlap(r1, r2);

    assert_eq!(overlap_actual, overlap_expected);
}

#[test]
fn colliding_simple1() {
    // Arrange
    let poly1 = [(1, 1), (3, 1), (3, 3), (1, 3), (1, 1)];
    let poly2 = [(2, 2), (4, 2), (4, 4), (2, 4), (2, 2)];
    let expected = true;

    // Act
    let result = is_collision(&poly1, &poly2);

    // Assert
    assert_eq!(result, expected);
}

#[test]
fn colliding_simple2() {
    // Arrange
    let poly1 = [(1, 1), (3, 1), (3, 3), (1, 3), (1, 1)];
    let poly2 = [(4, 4), (6, 4), (6, 6), (4, 6), (4, 4)];
    let expected = false;

    // Act
    let result = is_collision(&poly1, &poly2);

    // Assert
    assert_eq!(result, expected);
}

/// Regression test for bug resulting in false positive
#[test]
fn colliding_nearmiss() {
    // Arrange
    let poly1 = [
        (2260, 2628),
        (3232, 2400),
        (3460, 3372),
        (2488, 3600),
        (2260, 2628),
    ];
    let poly2 = [
        (3098, 3654),
        (4006, 3238),
        (4422, 4146),
        (3514, 4562),
        (3098, 3654),
    ];
    let expected = false;

    // Act
    let result = is_collision(&poly1, &poly2);

    // Assert
    assert_eq!(result, expected);
}

#[test]
fn colliding_is_symmetric() {
    let poly1 = [(1, 1), (3, 1), (3, 3), (1, 3), (1, 1)];
    let poly2 = [(2, 2), (4, 2), (4, 4), (2, 4), (2, 2)];
    let poly3 = [(4, 4), (6, 4), (6, 6), (4, 6), (4, 4)];

    assert_eq!(is_collision(&poly1, &poly2), is_collision(&poly2, &poly1));
    assert_eq!(is_collision(&poly1, &poly3), is_collision(&poly3, &poly1));
}

#[test]
fn colliding_touching_corner() {
    // Squares that share exactly one corner: touching counts as colliding.
    let poly1 = [(1, 1), (3, 1), (3, 3), (1, 3), (1, 1)];
    let poly2 = [(3, 3), (5, 3), (5, 5), (3, 5), (3, 3)];

    assert!(is_collision(&poly1, &poly2));
}

#[test]
fn colliding_empty_polygons() {
    // No edge, no axis: nothing separates.
    let none: [(i32, i32); 0] = [];
    assert!(is_collision(&none, &none));
}

#[test]
fn projected_range_of_square() {
    let poly = [(1, 1), (3, 1), (3, 3), (1, 3), (1, 1)];

    assert_eq!(calc_projected_range(&poly, (1, 0)), (1, 3));
    assert_eq!(calc_projected_range(&poly, (1, 1)), (2, 6));
    assert_eq!(calc_projected_range(&poly, (-1, 0)), (-3, -1));
}

#[test]
fn projected_range_of_nothing() {
    let none: [(i32, i32); 0] = [];
    assert_eq!(
        calc_projected_range(&none, (1, 0)),
        (std::i32::MAX, std::i32::MIN)
    );
}

#[test]
fn check_overlap_is_symmetric_on_disordered_ranges() {
    let ranges = [(0, 10), (5, -5), (-5, -7), (3, 3), (7, 1)];
    for r1 in ranges.iter() {
        for r2 in ranges.iter() {
            assert_eq!(check_overlap(*r1, *r2), check_overlap(*r2, *r1));
        }
    }
}

#[test]
fn scale_simple() {
    assert_eq!(scale((1, 0), 1000), (1000, 0));
    assert_eq!(scale((-3, 4), -2), (6, -8));
    assert_eq!(scale((7, 9), 0), (0, 0));
}

#[test]
fn direction_vector_each() {
    assert_eq!(direction_vector(Direction::Up), (0, -1));
    assert_eq!(direction_vector(Direction::Down), (0, 1));
    assert_eq!(direction_vector(Direction::Left), (-1, 0));
    assert_eq!(direction_vector(Direction::Right), (1, 0));
}

#[test]
fn box_side_len_sqr_simple() {
    let axis_aligned = [(700, 700), (1700, 700), (1700, 1700), (700, 1700), (700, 700)];
    assert_eq!(box_side_len_sqr(&axis_aligned), 1000000);

    let tilted = [(0, 0), (3, 4), (-1, 7), (-4, 3), (0, 0)];
    assert_eq!(box_side_len_sqr(&tilted), 25);
}
