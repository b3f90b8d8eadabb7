//! Tests for the machine itself: construction, parsing, addressing modes,
//! suspend/resume, halting and memory growth.
use intcode::intcode::{ExecError, Intcode, RunState};

const BUDGET: u64 = 1_000_000_000;

fn parse(string: &str) -> Vec<i64> {
    string
        .split(',')
        .map(|s| s.parse::<i64>().unwrap())
        .collect::<Vec<i64>>()
}

#[test]
fn test_program_1() {
    let data = "109,1,204,-1,1001,100,1,100,1008,100,16,101,1006,101,0,99";
    let mut program = Intcode::from_text(data).unwrap();
    assert_eq!(program.run(&[], BUDGET), Ok(RunState::Finished));
    assert_eq!(program.drain(), parse(data));
}

#[test]
fn test_program_2() {
    let data = "1102,34915192,34915192,7,4,7,99,0";
    let mut program = Intcode::from_text(data).unwrap();
    assert_eq!(program.run(&[], BUDGET), Ok(RunState::Finished));
    let value = program.drain()[0];
    assert!(value >= 10i64.pow(15) && value < 10i64.pow(16));
}

#[test]
fn test_program_3() {
    let data = "104,1125899906842624,99";
    let mut program = Intcode::from_text(data).unwrap();
    assert_eq!(program.run(&[], BUDGET), Ok(RunState::Finished));
    assert_eq!(program.drain(), vec![parse(data)[1]]);
}

#[test]
fn test_suspend_resume() {
    // Reads one value, doubles it, outputs it.
    let data = "3,11,102,2,11,11,4,11,99,0,0,0";
    let mut program = Intcode::from_text(data).unwrap();
    assert_eq!(program.run(&[], BUDGET), Ok(RunState::Suspended));
    assert!(!program.finished());
    assert_eq!(program.drain(), Vec::<i64>::new());
    assert_eq!(program.run(&[21], BUDGET), Ok(RunState::Finished));
    assert!(program.finished());
    assert_eq!(program.drain(), vec![42]);
}

#[test]
fn test_addressing_modes() {
    // One multiply using position, immediate and relative modes at once,
    // with the relative base preset to 7: cell 5 (holding 3) times the
    // immediate 3, stored at relative offset 3, i.e. address 10.
    let data = "109,7,21002,5,3,3,4,10,99";
    let mut program = Intcode::from_text(data).unwrap();
    assert_eq!(program.run(&[], BUDGET), Ok(RunState::Finished));
    assert_eq!(program.drain(), vec![9]);
}

#[test]
fn test_idempotent_halt() {
    let data = "104,7,99";
    let mut program = Intcode::from_text(data).unwrap();
    assert_eq!(program.run(&[], BUDGET), Ok(RunState::Finished));
    assert_eq!(program.drain(), vec![7]);
    // Running again is a no-op that reports finished and queues nothing.
    assert_eq!(program.run(&[], BUDGET), Ok(RunState::Finished));
    assert!(program.finished());
    assert_eq!(program.drain(), Vec::<i64>::new());
}

#[test]
fn test_memory_growth() {
    // Writes 2 + 3 to address 12, past the end of the nine-cell program;
    // the intermediate cell 11 must read back as zero-filled.
    let data = "1101,2,3,12,4,11,4,12,99";
    let mut program = Intcode::from_text(data).unwrap();
    assert_eq!(program.run(&[], BUDGET), Ok(RunState::Finished));
    assert_eq!(program.drain(), vec![0, 5]);
}

#[test]
fn test_out_of_steps() {
    // An endless loop: jump-if-true back to the start.
    let data = "1105,1,0";
    let mut program = Intcode::from_text(data).unwrap();
    assert_eq!(program.run(&[], 1000), Ok(RunState::OutOfSteps));
    assert!(!program.finished());
}

#[test]
fn test_parse_errors() {
    assert!(Intcode::from_text("1,,2").is_err());
    assert!(Intcode::from_text("1,a").is_err());
    assert!(Intcode::from_text("1,2,").is_err());
    assert!(Intcode::from_text("-").is_err());
    assert!(Intcode::from_text("99999999999999999999").is_err());
    assert!(Intcode::from_text("1, 2").is_err());
    assert!(Intcode::from_text("").is_err());
}

#[test]
fn test_parse_signs_and_bounds() {
    let mut program = Intcode::from_text("104,-9223372036854775808,99").unwrap();
    assert_eq!(program.run(&[], BUDGET), Ok(RunState::Finished));
    assert_eq!(program.drain(), vec![i64::MIN]);
    let mut program = Intcode::from_text("104,+9223372036854775807,99").unwrap();
    assert_eq!(program.run(&[], BUDGET), Ok(RunState::Finished));
    assert_eq!(program.drain(), vec![i64::MAX]);
}

#[test]
fn test_invalid_opcode() {
    let mut program = Intcode::from_text("98,0,0,0").unwrap();
    assert_eq!(program.run(&[], BUDGET), Err(ExecError::InvalidOpcode));
}

#[test]
fn test_invalid_mode() {
    // Opcode 1 with mode digit 3 on the third parameter.
    let mut program = Intcode::from_text("30101,1,1,0,99").unwrap();
    assert_eq!(program.run(&[], BUDGET), Err(ExecError::InvalidMode));
}

#[test]
fn test_invalid_address() {
    // A negative position-mode read.
    let mut program = Intcode::from_text("1,-1,0,0,99").unwrap();
    assert_eq!(program.run(&[], BUDGET), Err(ExecError::InvalidAddress));
}

#[test]
fn test_poke() {
    let mut program = Intcode::from_text("104,0,99").unwrap();
    assert!(program.set_value(1, 55).is_ok());
    assert!(program.set_value(3, 1).is_err());
    assert_eq!(program.run(&[], BUDGET), Ok(RunState::Finished));
    assert_eq!(program.drain(), vec![55]);
}

#[test]
fn test_duplicate_independent() {
    // Reads one value, doubles it, outputs it.
    let data = "3,11,102,2,11,11,4,11,99,0,0,0";
    let mut a = Intcode::from_text(data).unwrap();
    assert_eq!(a.run(&[], BUDGET), Ok(RunState::Suspended));
    let mut b = a.duplicate();
    assert_eq!(a.run(&[21], BUDGET), Ok(RunState::Finished));
    assert_eq!(b.run(&[5], BUDGET), Ok(RunState::Finished));
    assert_eq!(a.drain(), vec![42]);
    assert_eq!(b.drain(), vec![10]);
}
