//! Tests for the day-10 asteroid lines of sight.
use intcode::d10::{find_best_los, gcd, los_clockwise, los_vectors, parse_string, part_b};

#[test]
fn test_gcd() {
    assert_eq!(gcd(48, 18), 6);
    assert_eq!(gcd(54, 24), 6);
}

#[test]
fn test_los() {
    let result: Vec<(i32, i32)> = los_vectors((0, 4), 5, 5);
    assert_eq!(
        result,
        vec![
            (1, -4),
            (3, -4),
            (1, -3),
            (2, -3),
            (4, -3),
            (1, -2),
            (3, -2),
            (0, -1),
            (1, -1),
            (2, -1),
            (3, -1),
            (4, -1),
            (1, 0)
        ]
    );
}

#[test]
fn test_los_clockwise() {
    let expected = vec![
        (0, -1),
        (1, -1),
        (1, 0),
        (1, 1),
        (0, 1),
        (-1, 1),
        (-1, 0),
        (-1, -1),
    ];
    let result: Vec<(i32, i32)> = los_clockwise((1, 1), 3, 3);
    assert_eq!(result, expected);
}

#[test]
fn test_los_point_1() {
    let input = "\
#.#.#
.#.#.
#.#.#
.#.#.
#.#.#";
    let map = parse_string(input).unwrap();
    let pos: (usize, usize) = (0, 4);
    assert_eq!(map.count_in_sight(pos), 7);
}

#[test]
fn test_los_1() {
    let input = "\
......#.#.
#..#.#....
..#######.
.#.#.###..
.#..#.....
..#....#.#
#..#....#.
.##.#..###
##...#..#.
.#....####";
    let result = find_best_los(&parse_string(input).unwrap()).unwrap();
    assert_eq!(result.0, (5, 8));
    assert_eq!(result.1, 33);
}

#[test]
fn test_los_2() {
    let input = "\
#.#...#.#.
.###....#.
.#....#...
##.#.#.#.#
....#.#.#.
.##..###.#
..#...##..
..##....##
......#...
.####.###.";
    let result = find_best_los(&parse_string(input).unwrap()).unwrap();
    assert_eq!(result.0, (1, 2));
    assert_eq!(result.1, 35);
}

#[test]
fn test_los_3() {
    let input = "\
.#..#..###
####.###.#
....###.#.
..###.##.#
##.##.#.#.
....###..#
..#.#..#.#
#..#.#.###
.##...##.#
.....#.#..";
    let result = find_best_los(&parse_string(input).unwrap()).unwrap();
    assert_eq!(result.0, (6, 3));
    assert_eq!(result.1, 41);
}

#[test]
fn test_los_4() {
    let input = "\
.#..##.###...#######
##.############..##.
.#.######.########.#
.###.#######.####.#.
#####.##.#.##.###.##
..#####..#.#########
####################
#.####....###.#.#.##
##.#################
#####.##.###..####..
..######..##.#######
####.##.####...##..#
.#####..#.######.###
##...#.##########...
#.##########.#######
.####.#.###.###.#.##
....##.##.###..#####
.#.#.###########.###
#.#.#.#####.####.###
###.##.####.##.#..##";
    let result = find_best_los(&parse_string(input).unwrap()).unwrap();
    assert_eq!(result.0, (11, 13));
    assert_eq!(result.1, 210);
}

#[test]
fn test_vaporise_order() {
    // From (1, 1) on a full 3x3 grid the first blast goes straight up;
    // the eighth and last sweeps around to the upper-left corner.
    let input = "###\n###\n###";
    assert_eq!(part_b(input, (1, 1), 1), Some(100));
    assert_eq!(part_b(input, (1, 1), 8), Some(0));
}
