use minuette::uci::{get_clock_field, get_fen, get_moves, parse_u32, Clock};

fn toks(line: &str) -> Vec<String> {
    line.split_ascii_whitespace().map(|t| t.to_string()).collect()
}

#[test]
fn fen_is_joined_from_six_tokens() {
    let tokens = toks("position fen r3k2r/8/8/8/8/8/8/R3K2R w KQkq - 0 1 moves e1g1");
    assert_eq!(get_fen(&tokens).as_deref(), Some("r3k2r/8/8/8/8/8/8/R3K2R w KQkq - 0 1"));
}

#[test]
fn missing_fen_keyword_gives_none() {
    assert_eq!(get_fen(&toks("position startpos moves e2e4")), None);
    assert_eq!(get_fen(&Vec::new()), None);
}

#[test]
fn moves_are_the_trailing_tokens() {
    let tokens = toks("position startpos moves e2e4 e7e5 g1f3");
    let moves = get_moves(&tokens).unwrap();
    assert_eq!(moves, vec!["e2e4".to_string(), "e7e5".to_string(), "g1f3".to_string()]);
}

#[test]
fn empty_move_list_is_some_and_empty() {
    let tokens = toks("position startpos moves");
    assert_eq!(get_moves(&tokens).unwrap().len(), 0);
    assert_eq!(get_moves(&toks("position startpos")), None);
}

#[test]
fn clock_fields_are_read_by_name() {
    let tokens = toks("go wtime 300000 btime 2999 winc 0 binc 15");
    let wtime = get_clock_field(&tokens, &"wtime".to_string());
    let btime = get_clock_field(&tokens, &"btime".to_string());
    let winc = get_clock_field(&tokens, &"winc".to_string());
    let binc = get_clock_field(&tokens, &"binc".to_string());
    assert_eq!(wtime, Some(300000));
    assert_eq!(btime, Some(2999));
    assert_eq!(winc, Some(0));
    assert_eq!(binc, Some(15));
    assert_eq!(get_clock_field(&tokens, &"movetime".to_string()), None);
    let clock = Clock {
        wtime: wtime.unwrap(),
        btime: btime.unwrap(),
        winc: winc.unwrap(),
        binc: binc.unwrap(),
    };
    assert_eq!(clock.wtime, 300000);
    assert_eq!(clock.binc, 15);
}

#[test]
fn numbers_parse_exactly_or_not_at_all() {
    assert_eq!(parse_u32(&"0".to_string()), Some(0));
    assert_eq!(parse_u32(&"300000".to_string()), Some(300000));
    assert_eq!(parse_u32(&"4294967295".to_string()), Some(u32::MAX));
    assert_eq!(parse_u32(&"4294967296".to_string()), None);
    assert_eq!(parse_u32(&"12a".to_string()), None);
    assert_eq!(parse_u32(&"-5".to_string()), None);
    assert_eq!(parse_u32(&"".to_string()), None);
}
