//! Tests for the later days: passwords, images, painting, moons, the
//! arcade, shuffling and the bug grids.
use intcode::d04::{d04a, d04b, valid_a, valid_b};
use intcode::d08::{d08a, d08b};
use intcode::d11::{d11a, paint_hull};
use intcode::d12::{fold_lcm, gcd, lcm, part_a as moons_a, part_b as moons_b};
use intcode::d13::{d13a, d13b};
use intcode::d15::{d15a, d15b};
use intcode::d17::{scaffold_from_output, stream_chars};
use intcode::d21::{parse_instructions, Instruction as SpringInstruction, R};
use intcode::d22::{compose_instructions, Instruction, ModLinearExpression};
use intcode::d24::{parse_grid, part_a as bugs_a, part_b as bugs_b, RecursiveGrid};

#[test]
fn test_passwords() {
    assert!(valid_a(111111));
    assert!(!valid_a(223450));
    assert!(!valid_a(123789));
    assert!(valid_b(112233));
    assert!(!valid_b(123444));
    assert!(valid_b(111122));
    assert_eq!(d04a(111111, 111112), 2);
    assert_eq!(d04b(123444, 123444), 0);
}

#[test]
fn test_image() {
    let data: Vec<u8> = vec![1, 2, 3, 4, 5, 6, 7, 8, 9, 0, 1, 2];
    // Two 3x2 layers; the first has no zero and one 1 and one 2.
    assert_eq!(d08a(&data, 3, 2), Some(1));
    let data2: Vec<u8> = vec![0, 2, 2, 2, 1, 1, 2, 2, 2, 2, 1, 2, 0, 0, 0, 0];
    assert_eq!(d08b(&data2, 2, 2), Some(vec![0, 1, 1, 0]));
}

#[test]
fn test_paint() {
    // Paint the current square white, turn left, step, then halt.
    let program = "104,1,104,0,99";
    assert_eq!(d11a(program), Ok(1));
    let panel = paint_hull(program, &Vec::new()).unwrap();
    assert!(panel.get((0, 0)));
}

#[test]
fn test_moons() {
    let input = "<x=-1, y=0, z=2>\n<x=2, y=-10, z=-7>\n<x=4, y=-8, z=8>\n<x=3, y=5, z=-1>";
    // Energies here add potential and kinetic parts per moon.
    assert_eq!(moons_a(input, 10), Ok(53));
    assert_eq!(moons_b(input), Ok(2772));
}

#[test]
fn test_lcm() {
    assert_eq!(gcd(48, 18), 6);
    assert_eq!(lcm(4, 6), Some(12));
    assert_eq!(fold_lcm(&vec![18, 28, 44]), Some(2772));
}

#[test]
fn test_arcade_blocks() {
    // Draw one block tile and halt.
    let program = "104,0,104,0,104,2,99";
    assert_eq!(d13a(program), Ok(1));
}

#[test]
fn test_arcade_score() {
    // After the quarters are inserted the program reports a score and
    // leaves no blocks.
    let program = "1,0,0,3,104,-1,104,0,104,123,99";
    assert_eq!(d13b(program), Ok(123));
}

fn expression_parts(e: &ModLinearExpression) -> (i64, i64, i64) {
    (
        e.modulus(),
        e.a().positive().value(),
        e.b().positive().value(),
    )
}

#[test]
fn test_compose() {
    let size = 11;
    let collect = |deck: &[i64]| {
        let mut new_deck = vec![0i64; size as usize];
        for (i, &c) in deck.iter().enumerate() {
            assert!(c >= 0 && c < 11);
            new_deck[c as usize] = i as i64;
        }
        new_deck
    };

    let instructions = vec![
        Instruction::Stack,
        Instruction::Cut(-2),
        Instruction::Deal(7),
        Instruction::Cut(8),
    ];
    let composed = compose_instructions(size, &instructions);
    assert_eq!(
        expression_parts(&composed),
        expression_parts(&ModLinearExpression::new(size, -7, -1))
    );

    let new = (0..size)
        .map(|c| composed.apply(c, false).unwrap())
        .collect::<Vec<i64>>();
    assert_eq!(collect(&new), [3, 6, 9, 1, 4, 7, 10, 2, 5, 8, 0]);
}

#[test]
fn test_self_compose() {
    let size = 11;
    let expression = ModLinearExpression::new(size, -7, -1);
    assert_eq!(
        expression_parts(&expression.compose_self(1).unwrap()),
        expression_parts(&ModLinearExpression::new(size, -7, -1))
    );
    assert_eq!(
        expression_parts(&expression.compose_self(2).unwrap()),
        expression_parts(&ModLinearExpression::new(size, 5, 6))
    );
}

#[test]
fn test_recursive_grid() {
    let input = "....#\n#..#.\n#.?##\n..#..\n#....";
    let mut grid = RecursiveGrid(vec![parse_grid(input).unwrap()]);
    assert_eq!(grid.0[0], 0b0000100100110010100110000);

    for _ in 0..10 {
        grid.update();
    }

    assert_eq!(
        grid.0,
        vec![
            0b0010001010100000101000100,
            0b0100011000000001100001000,
            0b0010100010000000001000101,
            0b0111011000100001000011010,
            0b1111001000000001100011001,
            0b0000000000000101101000010,
            0b1111111011100001100100110,
            0b0010111010000010101100111,
            0b1000100001000010000011100,
            0b0000001011000010100101110,
            0b0000001111010010100101111,
        ]
    );
}

#[test]
fn test_flat_grid() {
    // The worked example: this layout first repeats with rating 2129920.
    let input = "....#\n#..#.\n#..##\n..#..\n#....";
    assert_eq!(bugs_a(input), Some(2129920));
}

#[test]
fn test_recursive_count() {
    let input = "....#\n#..#.\n#..##\n..#..\n#....";
    assert_eq!(bugs_b(input, 10), Some(99));
}

#[test]
fn test_scaffold_intersections() {
    let image = "..#..........\n..#..........\n#######...###\n#.#...#...#.#\n#############\n..#...#...#..\n..#####...^..";
    let scaffold = scaffold_from_output(&stream_chars(image)).unwrap();
    let sum: i64 = scaffold.intersections().iter().map(|&(x, y)| x * y).sum();
    assert_eq!(sum, 76);
}

#[test]
fn test_droid_immediate_oxygen() {
    // Every probe reports the oxygen system: it is found one step away.
    let program = "3,20,104,2,1105,1,0";
    assert_eq!(d15a(program), Ok(1));
    // Every probe reports a wall: there is nothing to find.
    let walled = "3,20,104,0,1105,1,0";
    assert!(d15b(walled).is_err());
}

#[test]
fn test_beam_probe() {
    // The pull covers cells with x greater than y: the less-than
    // instruction compares the two inputs.
    let program = "3,11,3,12,7,12,11,13,4,13,99,0,0,0";
    assert_eq!(intcode::d19::within_beam(
        &intcode::intcode::Intcode::from_text(program).unwrap(), 3, 2), Ok(true));
    assert_eq!(intcode::d19::within_beam(
        &intcode::intcode::Intcode::from_text(program).unwrap(), 1, 2), Ok(false));
    // Of the 2500 corner cells, those with x greater than y.
    assert_eq!(intcode::d19::part_a(program), Ok(1225));
}

#[test]
fn test_springscript_parse() {
    let parsed = parse_instructions("NOT A J\nAND D J\nWALK\n").unwrap();
    assert_eq!(
        parsed,
        vec![
            SpringInstruction::Not(R(b'A'), R(b'J')),
            SpringInstruction::And(R(b'D'), R(b'J')),
            SpringInstruction::Walk,
        ]
    );
    assert!(parse_instructions("NOT A B\n").is_none());
    assert!(parse_instructions("HOP A J\n").is_none());
    assert_eq!(SpringInstruction::Or(R(b'H'), R(b'T')).render(), b"OR H T".to_vec());
}

#[test]
fn test_nanofactory_small() {
    let input = "10 ORE => 10 A\n1 ORE => 1 B\n7 A, 1 B => 1 C\n7 A, 1 C => 1 D\n7 A, 1 D => 1 E\n7 A, 1 E => 1 FUEL";
    assert_eq!(intcode::d14::d14a(input), Some(31));
}

#[test]
fn test_nanofactory_large() {
    let input = "157 ORE => 5 NZVS\n165 ORE => 6 DCFZ\n44 XJWVT, 5 KHKGT, 1 QDVJ, 29 NZVS, 9 GPVTF, 48 HKGWZ => 1 FUEL\n12 HKGWZ, 1 GPVTF, 8 PSHF => 9 QDVJ\n179 ORE => 7 PSHF\n177 ORE => 5 HKGWZ\n7 DCFZ, 7 PSHF => 2 XJWVT\n165 ORE => 2 GPVTF\n3 DCFZ, 7 NZVS, 5 HKGWZ, 10 PSHF => 8 KHKGT";
    assert_eq!(intcode::d14::d14a(input), Some(13312));
    assert_eq!(intcode::d14::d14b(input, 1_000_000_000_000), Some(82892753));
}
