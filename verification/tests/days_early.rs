//! Tests for the early days: fuel counting, the gravity-assist machine and
//! the amplifier chains.
use intcode::d01::{d01a, d01b, fuel_required, parse_input};
use intcode::d02::{d02b, run_program};
use intcode::d03::{d03a, d03b};
use intcode::d07::run_amplifiers;

#[test]
fn test_amplifiers_a1() {
    let data = "3,15,3,16,1002,16,10,16,1,16,15,15,4,15,99,0,0";
    assert_eq!(run_amplifiers(data, &vec![4, 3, 2, 1, 0]), Ok(43210));
}

#[test]
fn test_amplifiers_a2() {
    let data = "3,23,3,24,1002,24,10,24,1002,23,-1,23,101,5,23,23,1,24,23,23,4,23,99,0,0";
    assert_eq!(run_amplifiers(data, &vec![0, 1, 2, 3, 4]), Ok(54321));
}

#[test]
fn test_amplifiers_a3() {
    let data =
        "3,31,3,32,1002,32,10,32,1001,31,-2,31,1007,31,0,33,1002,33,7,33,1,33,31,31,1,32,31,31,\
        4,31,99,0,0,0";
    assert_eq!(run_amplifiers(data, &vec![1, 0, 4, 3, 2]), Ok(65210));
}

#[test]
fn test_amplifiers_b1() {
    let data =
        "3,26,1001,26,-4,26,3,27,1002,27,2,27,1,27,26,27,4,27,1001,28,-1,28,1005,28,6,99,0,0,5";
    assert_eq!(run_amplifiers(data, &vec![9, 8, 7, 6, 5]), Ok(139629729));
}

#[test]
fn test_amplifiers_b2() {
    let data =
        "3,52,1001,52,-5,52,3,53,1,52,56,54,1007,54,5,55,1005,55,26,1001,54,-5,54,1105,1,12,1,\
         53,54,53,1008,54,0,55,1001,55,1,55,2,53,55,53,4,53,1001,56,-1,56,1005,56,6,99,0,0,0,0,\
         10";
    assert_eq!(run_amplifiers(data, &vec![9, 7, 8, 5, 6]), Ok(18216));
}

#[test]
fn test_fuel() {
    assert_eq!(fuel_required(12), 2);
    assert_eq!(fuel_required(14), 2);
    assert_eq!(fuel_required(1969), 654);
    assert_eq!(fuel_required(100756), 33583);
}

#[test]
fn test_fuel_sums() {
    let masses = parse_input("12\n14\n1969\n100756\n").unwrap();
    assert_eq!(d01a(&masses), 2 + 2 + 654 + 33583);
    assert_eq!(d01b(&masses), 2 + 2 + 966 + 50346);
}

#[test]
fn test_fuel_parse_rejects() {
    assert!(parse_input("12\nxy\n").is_err());
    assert!(parse_input("12\n-3\n").is_err());
}

#[test]
fn test_gravity_assist() {
    let initial: Vec<usize> = vec![1, 9, 10, 3, 2, 3, 11, 0, 99, 30, 40, 50];
    let out = run_program(&initial, 9, 10).unwrap();
    assert_eq!(out[0], 3500);
    let bad: Vec<usize> = vec![7, 9, 10, 3, 99];
    assert!(run_program(&bad, 9, 10).is_none());
}

#[test]
fn test_gravity_assist_search() {
    // The program adds the cells the noun and verb point at and stores the
    // sum in cell 0.  With cell i holding i from 5 on, the scan (verb outer,
    // noun inner) first reaches 30 as cell 29 plus cell 0.
    let mut initial: Vec<usize> = vec![1, 0, 0, 0, 99];
    for i in 5..100 {
        initial.push(i);
    }
    assert_eq!(d02b(&initial, 30), Some(2900));
}

#[test]
fn test_crossed_wires() {
    let input = "R8,U5,L5,D3\nU7,R6,D4,L4";
    assert_eq!(d03a(input), Some(6));
    assert_eq!(d03b(input), Some(30));
    let input2 = "R75,D30,R83,U83,L12,D49,R71,U7,L72\nU62,R66,U55,R34,D71,R55,D58,R83";
    assert_eq!(d03a(input2), Some(159));
    assert_eq!(d03b(input2), Some(610));
}
