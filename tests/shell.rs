use iridium::hex::{decode_hex, HexDecodeError};
use iridium::repl::{ReplAction, REPL};

#[test]
fn parse_hex_reads_bytes() {
    let repl = REPL::new();
    assert_eq!(repl.parse_hex("01 00 1f F4"), Ok(vec![1u8, 0, 31, 244]));
    assert_eq!(repl.parse_hex("ff"), Ok(vec![255u8]));
    assert_eq!(repl.parse_hex("+a 0000ff"), Ok(vec![10u8, 255]));
}

#[test]
fn parse_hex_splits_at_runs_of_whitespace() {
    let repl = REPL::new();
    assert_eq!(repl.parse_hex("01  f4"), Ok(vec![1u8, 244]));
    assert_eq!(repl.parse_hex("01\tf4"), Ok(vec![1u8, 244]));
    assert_eq!(repl.parse_hex("  0a \r\n 0b  "), Ok(vec![10u8, 11]));
    assert_eq!(repl.parse_hex("01  02"), Ok(vec![1u8, 2]));
}

#[test]
fn parse_hex_of_blank_line_is_empty() {
    let repl = REPL::new();
    assert_eq!(repl.parse_hex(""), Ok(vec![]));
    assert_eq!(repl.parse_hex(" \t "), Ok(vec![]));
}

#[test]
fn parse_hex_reports_first_bad_token() {
    let repl = REPL::new();
    assert_eq!(repl.parse_hex("01 zz 100"), Err(HexDecodeError { token: 1 }));
    assert_eq!(repl.parse_hex("01 02 100"), Err(HexDecodeError { token: 2 }));
    assert_eq!(repl.parse_hex("01  02 +"), Err(HexDecodeError { token: 2 }));
    assert_eq!(repl.parse_hex("+"), Err(HexDecodeError { token: 0 }));
    assert_eq!(repl.parse_hex("-1"), Err(HexDecodeError { token: 0 }));
    assert_eq!(decode_hex("é".as_bytes()), Err(HexDecodeError { token: 0 }));
}

#[test]
fn line_with_bytes_runs_one_instruction() {
    let mut repl = REPL::new();
    let action = repl.handle_line("01 00 01 f4\n");
    assert!(matches!(action, ReplAction::Executed(Ok(false))));
    assert_eq!(repl.vm().registers()[0], 500);
    assert_eq!(repl.vm().pc(), 4);
    assert_eq!(repl.history(), &vec!["01 00 01 f4".to_string()]);
}

#[test]
fn undecodable_line_changes_only_history() {
    let mut repl = REPL::new();
    let action = repl.handle_line("01 xyz");
    assert!(matches!(action, ReplAction::DecodeFailed(HexDecodeError { token: 1 })));
    assert!(repl.vm().program().is_empty());
    assert_eq!(repl.history().len(), 1);
}

#[test]
fn meta_commands_are_recognised_after_trimming() {
    let mut repl = REPL::new();
    assert!(matches!(repl.handle_line("  .history \n"), ReplAction::ShowHistory));
    assert!(matches!(repl.handle_line(".program"), ReplAction::ShowProgram));
    assert!(matches!(repl.handle_line(".register\r\n"), ReplAction::ShowRegisters));
    assert!(matches!(repl.handle_line("\t.quit"), ReplAction::Quit));
    assert_eq!(
        repl.history(),
        &vec![
            ".history".to_string(),
            ".program".to_string(),
            ".register".to_string(),
            ".quit".to_string()
        ]
    );
}

#[test]
fn blank_line_appends_nothing() {
    let mut repl = REPL::new();
    assert!(matches!(repl.handle_line("\n"), ReplAction::Executed(Ok(true))));
    assert!(repl.vm().program().is_empty());
    assert_eq!(repl.history(), &vec!["".to_string()]);
}

#[test]
fn listings_leave_machine_unchanged() {
    let mut repl = REPL::new();
    repl.handle_line("01 02 00 07");
    let registers = repl.vm().registers().clone();
    let program = repl.vm().program().clone();
    let pc = repl.vm().pc();
    assert!(matches!(repl.handle_line(".register"), ReplAction::ShowRegisters));
    assert!(matches!(repl.handle_line(".program"), ReplAction::ShowProgram));
    assert_eq!(repl.vm().registers(), &registers);
    assert_eq!(repl.vm().program(), &program);
    assert_eq!(repl.vm().pc(), pc);
    assert_eq!(registers[2], 7);
}
