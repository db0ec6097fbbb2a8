use gan_robot::command::{parse_moves, parse_raw_code, parse_raw_moves, read_line};
use gan_robot::{Args, Command, ControllerError, FaceRotation, Request};

fn raw(word: &str) -> u8 {
    let chars: Vec<char> = word.chars().collect();
    parse_raw_code(&chars)
}

fn moves_of(request: Request) -> Vec<FaceRotation> {
    match request {
        Request::Moves(moves) => moves,
        _ => panic!("not a request for moves"),
    }
}

fn codes_of(request: Request) -> Vec<u8> {
    match request {
        Request::RawMoves(codes) => codes,
        _ => panic!("not a request for raw moves"),
    }
}

#[test]
fn parse_moves_reads_word_by_word() {
    assert_eq!(
        parse_moves("R Q9 F'"),
        vec![FaceRotation::R, FaceRotation::Invalid, FaceRotation::FPrime]
    );
    assert_eq!(
        parse_moves("  r2  b2'\tL'\n"),
        vec![FaceRotation::R2, FaceRotation::B2Prime, FaceRotation::LPrime]
    );
    assert_eq!(parse_moves(""), vec![]);
    assert_eq!(parse_moves("   "), vec![]);
    assert_eq!(parse_moves("RF"), vec![FaceRotation::Invalid]);
}

#[test]
fn parse_moves_agrees_with_split_whitespace() {
    for text in ["R R2 R2' R'", "d\u{a0}D2\u{3000}x", " F  F2 ", "B'B B'"] {
        let expected: Vec<FaceRotation> =
            text.split_whitespace().map(FaceRotation::from).collect();
        assert_eq!(parse_moves(text), expected);
    }
}

#[test]
fn raw_codes_are_decimal_numbers() {
    assert_eq!(raw("0"), 0);
    assert_eq!(raw("7"), 7);
    assert_eq!(raw("14"), 14);
    assert_eq!(raw("255"), 255);
    assert_eq!(raw("+9"), 9);
    assert_eq!(raw("007"), 7);
    assert_eq!(raw("0000000000000000000255"), 255);
}

#[test]
fn words_that_write_no_code_count_as_zero() {
    for word in ["", "+", "-", "-1", "256", "300", "99999999999999999999", "1a", "a1", "1 ",
        "++1", "1+", "0x10", "1_0", "١", "1.0"]
    {
        assert_eq!(raw(word), 0, "{:?}", word);
        assert_eq!(raw(word), word.parse::<u8>().unwrap_or_default(), "{:?}", word);
    }
}

#[test]
fn raw_codes_agree_with_the_standard_parser() {
    for n in 0..1000u32 {
        let word = n.to_string();
        assert_eq!(raw(&word), word.parse::<u8>().unwrap_or_default());
        let signed = format!("+{}", n);
        assert_eq!(raw(&signed), signed.parse::<u8>().unwrap_or_default());
        let padded = format!("0{}", n);
        assert_eq!(raw(&padded), padded.parse::<u8>().unwrap_or_default());
    }
}

#[test]
fn parse_raw_moves_reads_word_by_word() {
    assert_eq!(parse_raw_moves("0 2 4"), vec![0, 2, 4]);
    assert_eq!(parse_raw_moves(" 14\t+3  x 256 255 "), vec![14, 3, 0, 0, 255]);
    assert_eq!(parse_raw_moves(""), Vec::<u8>::new());
}

#[test]
fn exit_stops_the_prompt() {
    for line in ["exit", " exit", "exit\n", "\t exit \r\n"] {
        assert!(matches!(read_line(line, false), Request::Exit));
        assert!(matches!(read_line(line, true), Request::Exit));
    }
}

#[test]
fn lines_that_only_look_like_exit_are_moves() {
    for line in ["Exit", "exit now", "exit exit", "exi t", "", "quit"] {
        let expected: Vec<FaceRotation> =
            line.split_whitespace().map(FaceRotation::from).collect();
        assert_eq!(moves_of(read_line(line, false)), expected);
        assert_eq!(line.trim() == "exit", false);
    }
}

#[test]
fn a_line_names_moves_or_writes_codes() {
    assert_eq!(
        moves_of(read_line("R F2 x\n", false)),
        vec![FaceRotation::R, FaceRotation::F2, FaceRotation::Invalid]
    );
    assert_eq!(codes_of(read_line("0 2 4\n", true)), vec![0, 2, 4]);
    assert_eq!(codes_of(read_line("R 12\n", true)), vec![0, 12]);
    assert_eq!(codes_of(read_line("\n", true)), Vec::<u8>::new());
}

#[test]
fn requests_can_be_compared() {
    assert_eq!(read_line("exit\n", false), Request::Exit);
    assert_eq!(read_line("R\n", false), Request::Moves(vec![FaceRotation::R]));
    assert_eq!(read_line("3\n", true), Request::RawMoves(vec![3]));
    assert_eq!(Command::Repl { debug: true }.request(), Ok(Request::Prompt { debug: true }));
    assert_eq!(Command::Scramble { num: 8 }.request(), Ok(Request::Scramble(8)));
    assert_eq!(Command::Scramble { num: 37 }.request(), Err(ControllerError::TooManyMoves));
}

#[test]
fn a_scramble_of_up_to_thirty_six_moves_is_taken() {
    for num in [0usize, 8, 36] {
        let request = Command::Scramble { num }.request();
        assert!(matches!(request, Ok(Request::Scramble(n)) if n == num));
    }
}

#[test]
fn a_scramble_of_more_than_thirty_six_moves_is_refused() {
    for num in [37usize, 100, usize::MAX] {
        let request = Command::Scramble { num }.request();
        assert!(matches!(request, Err(ControllerError::TooManyMoves)));
    }
}

#[test]
fn a_move_command_names_its_moves() {
    let request = Command::Move { moves: "R Q9 F'".to_string() }.request().ok().unwrap();
    assert_eq!(
        moves_of(request),
        vec![FaceRotation::R, FaceRotation::Invalid, FaceRotation::FPrime]
    );
}

#[test]
fn a_repl_command_asks_for_the_prompt() {
    for debug in [false, true] {
        let request = Command::Repl { debug }.request();
        assert!(matches!(request, Ok(Request::Prompt { debug: d }) if d == debug));
    }
}

#[test]
fn args_describe_a_session() {
    let args = Args {
        name: "GAN-a7f13".to_string(),
        move_characteristic: "0000fff3-0000-1000-8000-00805f9b34fb".to_string(),
        status_characteristic: "0000fff2-0000-1000-8000-00805f9b34fb".to_string(),
        scan_timeout_ms: None,
        command: Command::Scramble { num: 8 },
    };
    let controller = args.controller().unwrap();
    assert_eq!(controller.name(), "GAN-a7f13");
    assert_eq!(controller.move_characteristic(), 0x0000fff3_0000_1000_8000_00805f9b34fb);
    assert_eq!(controller.status_characteristic(), 0x0000fff2_0000_1000_8000_00805f9b34fb);
    assert_eq!(controller.scan_timeout_ms(), None);
}

#[test]
fn args_may_limit_the_scan() {
    let args = Args {
        name: "GAN-a7f13".to_string(),
        move_characteristic: "0000fff3-0000-1000-8000-00805f9b34fb".to_string(),
        status_characteristic: "0000fff2-0000-1000-8000-00805f9b34fb".to_string(),
        scan_timeout_ms: Some(30_000),
        command: Command::Scramble { num: 8 },
    };
    let controller = args.controller().unwrap();
    assert_eq!(controller.name(), "GAN-a7f13");
    assert_eq!(controller.move_characteristic(), 0x0000fff3_0000_1000_8000_00805f9b34fb);
    assert_eq!(controller.status_characteristic(), 0x0000fff2_0000_1000_8000_00805f9b34fb);
    assert_eq!(controller.scan_timeout_ms(), Some(30_000));
}

#[test]
fn args_with_a_bad_identifier_describe_no_session() {
    let args = Args {
        name: "GAN-a7f13".to_string(),
        move_characteristic: "fff3".to_string(),
        status_characteristic: "0000fff2-0000-1000-8000-00805f9b34fb".to_string(),
        scan_timeout_ms: Some(5),
        command: Command::Repl { debug: false },
    };
    assert_eq!(args.controller().err(), Some(ControllerError::InvalidUuid));
}
