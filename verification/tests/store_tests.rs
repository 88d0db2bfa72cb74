use loknext::cipher::Cipher;
use loknext::command::{parse_instruction, Instruction};
use loknext::record::{
    check_record, find_record, make_record, parse_store, render_record, service_names,
    LookupOutcome, Record,
};

fn cipher() -> Cipher {
    Cipher::new("s3cr3t".to_string())
}

fn email_record(c: &Cipher) -> Record {
    make_record(c, "Email".to_string(), "me@example.com".to_string(), "hunter2")
}

#[test]
fn rendered_block_has_the_four_line_layout() {
    let c = cipher();
    let r = email_record(&c);
    let block = render_record(&r);
    let lines: Vec<&str> = block.lines().collect();
    assert_eq!(lines.len(), 4);
    assert_eq!(lines[0], "Email");
    assert_eq!(lines[1], "me@example.com");
    assert_eq!(lines[3], "---end---");
    assert!(block.ends_with("---end---\n"));
}

#[test]
fn stored_record_never_holds_the_plain_secret() {
    let c = cipher();
    let r = email_record(&c);
    let block = render_record(&r);
    assert!(!block.contains("hunter2"));
}

#[test]
fn add_then_check_finds_the_record() {
    let c = cipher();
    let r = email_record(&c);
    let content = render_record(&r);
    let records = parse_store(&content);
    assert_eq!(records.len(), 1);
    let service = match parse_instruction("CR Email") {
        Instruction::CheckRecord { service } => service,
        _ => panic!("CR Email must parse as a check-record instruction"),
    };
    match check_record(&c, &records, &service) {
        LookupOutcome::Found { identifier, secret } => {
            assert_eq!(identifier, "me@example.com");
            assert_eq!(secret, "hunter2");
        },
        _ => panic!("the stored record must be found and decrypted"),
    }
}

#[test]
fn append_keeps_listing_order() {
    let c = cipher();
    let r1 = make_record(&c, "GitHub".to_string(), "me".to_string(), "first secret");
    let r2 = email_record(&c);
    let mut content = String::new();
    content.push_str(&render_record(&r1));
    content.push_str(&render_record(&r2));
    let records = parse_store(&content);
    assert_eq!(records.len(), 2);
    assert_eq!(records[0].service, "GitHub");
    assert_eq!(records[1].service, "Email");
    let names = service_names(&records);
    assert_eq!(names, vec!["GitHub".to_string(), "Email".to_string()]);
    let listed_again = service_names(&records);
    assert_eq!(names, listed_again);
}

#[test]
fn lookup_is_case_insensitive() {
    let c = cipher();
    let r = make_record(&c, "GitHub".to_string(), "me".to_string(), "first secret");
    let content = render_record(&r);
    let records = parse_store(&content);
    let service = match parse_instruction("cr github") {
        Instruction::CheckRecord { service } => service,
        _ => panic!("cr github must parse as a check-record instruction"),
    };
    assert_eq!(service, "GITHUB");
    assert_eq!(find_record(&records, &service), Some(0));
    match check_record(&c, &records, &service) {
        LookupOutcome::Found { identifier, secret } => {
            assert_eq!(identifier, "me");
            assert_eq!(secret, "first secret");
        },
        _ => panic!("a differently-cased query must still find the service"),
    }
}

#[test]
fn first_match_wins_among_duplicates() {
    let c = cipher();
    let r1 = make_record(&c, "Email".to_string(), "old@example.com".to_string(), "old");
    let r2 = make_record(&c, "email".to_string(), "new@example.com".to_string(), "new");
    let content = format!("{}{}", render_record(&r1), render_record(&r2));
    let records = parse_store(&content);
    match check_record(&c, &records, "EMAIL") {
        LookupOutcome::Found { identifier, secret } => {
            assert_eq!(identifier, "old@example.com");
            assert_eq!(secret, "old");
        },
        _ => panic!("the first matching record must win"),
    }
}

#[test]
fn empty_store_reports_nothing_without_error() {
    let c = cipher();
    let records = parse_store("");
    assert_eq!(records.len(), 0);
    assert_eq!(service_names(&records).len(), 0);
    assert!(matches!(check_record(&c, &records, "ANY"), LookupOutcome::NotFound));
}

#[test]
fn missing_service_is_not_found() {
    let c = cipher();
    let r = email_record(&c);
    let content = render_record(&r);
    let records = parse_store(&content);
    assert!(matches!(
        check_record(&c, &records, "NONEXISTENT"),
        LookupOutcome::NotFound
    ));
    assert_eq!(find_record(&records, "NONEXISTENT"), None);
}

#[test]
fn corrupted_ciphertext_line_reports_a_decryption_error() {
    let c = cipher();
    let r = email_record(&c);
    let content = render_record(&r);
    let mut lines: Vec<String> = content.lines().map(|l| l.to_string()).collect();
    let mut chars: Vec<char> = lines[2].chars().collect();
    chars[0] = if chars[0] == 'A' { 'B' } else { 'A' };
    lines[2] = chars.iter().collect();
    let corrupted = format!("{}\n{}\n{}\n{}\n", lines[0], lines[1], lines[2], lines[3]);
    let records = parse_store(&corrupted);
    assert_eq!(records.len(), 1);
    assert!(matches!(
        check_record(&c, &records, "EMAIL"),
        LookupOutcome::DecryptFailed
    ));
}

#[test]
fn wrong_token_store_reports_a_decryption_error() {
    let c = cipher();
    let r = email_record(&c);
    let content = render_record(&r);
    let records = parse_store(&content);
    let other = Cipher::new("another token".to_string());
    assert!(matches!(
        check_record(&other, &records, "EMAIL"),
        LookupOutcome::DecryptFailed
    ));
}

#[test]
fn incomplete_trailing_group_holds_no_record() {
    let records = parse_store("Email\nme@example.com\n");
    assert_eq!(records.len(), 0);
}
