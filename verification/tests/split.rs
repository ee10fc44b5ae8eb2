use reattach::scan::position_from;
use reattach::split::{
    command_start, forward, program_end, split, terminated, SplitError, SplitPoint,
};
use reattach::units::{UnitClass, NULL, QUOTE, SPACE, TAB};

/// The raw command line for `text`: its UTF-16 units and the terminating null.
fn wide(text: &str) -> Vec<u16> {
    let mut units: Vec<u16> = text.encode_utf16().collect();
    units.push(0);
    units
}

#[test]
fn units_have_their_code_points() {
    assert_eq!(NULL, 0);
    assert_eq!(TAB, '\t' as u16);
    assert_eq!(SPACE, ' ' as u16);
    assert_eq!(QUOTE, '"' as u16);
}

#[test]
fn classes_admit_their_units() {
    assert!(UnitClass::Quote.admits(QUOTE));
    assert!(!UnitClass::Quote.admits(SPACE));
    assert!(UnitClass::Separator.admits(SPACE));
    assert!(UnitClass::Separator.admits(TAB));
    assert!(!UnitClass::Separator.admits(NULL));
    assert!(!UnitClass::Separator.admits('\n' as u16));
    assert!(UnitClass::Text.admits(NULL));
    assert!(UnitClass::Text.admits('a' as u16));
    assert!(!UnitClass::Text.admits(TAB));
    assert!(!UnitClass::Text.admits(SPACE));
}

#[test]
fn position_from_finds_the_first_match() {
    let line = wide("ab cd ef");
    assert_eq!(position_from(&line, 0, UnitClass::Separator), Some(2));
    assert_eq!(position_from(&line, 2, UnitClass::Separator), Some(2));
    assert_eq!(position_from(&line, 3, UnitClass::Separator), Some(5));
    assert_eq!(position_from(&line, 6, UnitClass::Separator), None);
    assert_eq!(position_from(&line, 0, UnitClass::Quote), None);
    assert_eq!(position_from(&line, 2, UnitClass::Text), Some(3));
}

#[test]
fn position_from_beyond_the_end_finds_nothing() {
    let line = wide("a b");
    assert_eq!(position_from(&line, 4, UnitClass::Text), None);
    assert_eq!(position_from(&line, 99, UnitClass::Text), None);
    assert_eq!(position_from(&[], 0, UnitClass::Text), None);
}

#[test]
fn quoted_program_with_two_separators() {
    let line = wide(r#""C:\\tools\\app.exe"  build --release"#);
    assert_eq!(line[19], QUOTE);
    assert_eq!(program_end(&line), Some(20));
    assert_eq!(split(&line), Ok(SplitPoint { space: 20, command: 22 }));
    assert_eq!(forward(&line), Ok(wide("build --release")));
}

#[test]
fn program_name_alone_is_malformed() {
    let line = wide("launcher.exe");
    assert_eq!(program_end(&line), None);
    assert_eq!(split(&line), Err(SplitError::NoSeparator));
    assert_eq!(forward(&line), Err(SplitError::NoSeparator));
}

#[test]
fn trailing_separators_forward_nothing() {
    let line = wide("launcher.exe   ");
    assert_eq!(split(&line), Ok(SplitPoint { space: 12, command: 15 }));
    assert_eq!(forward(&line), Ok(vec![0u16]));
}

#[test]
fn plain_program_with_one_argument() {
    let line = wide("launcher.exe status");
    assert_eq!(split(&line), Ok(SplitPoint { space: 12, command: 13 }));
    assert_eq!(forward(&line), Ok(wide("status")));
}

#[test]
fn quoted_boundary_ignores_separators_inside() {
    let plain = wide(r#""C:\ProgramFiles\run.exe" go"#);
    let spaced = wide(r#""C:\Program Files\run.exe" go"#);
    let tabbed = wide("\"C:\\Program\tFiles\\run.exe\" go");
    assert_eq!(program_end(&plain), Some(25));
    assert_eq!(program_end(&spaced), Some(26));
    assert_eq!(program_end(&tabbed), Some(26));
    assert_eq!(forward(&spaced), Ok(wide("go")));
    assert_eq!(forward(&tabbed), Ok(wide("go")));
}

#[test]
fn quoted_boundary_is_behind_the_second_quote() {
    let line = wide(r#""a b" "c d" e"#);
    assert_eq!(split(&line), Ok(SplitPoint { space: 5, command: 6 }));
    assert_eq!(forward(&line), Ok(wide(r#""c d" e"#)));
}

#[test]
fn quoted_program_needs_no_separator() {
    let line = wide(r#""run"now"#);
    assert_eq!(split(&line), Ok(SplitPoint { space: 5, command: 5 }));
    assert_eq!(forward(&line), Ok(wide("now")));
}

#[test]
fn quoted_program_alone_forwards_nothing() {
    let line = wide(r#""launcher.exe""#);
    assert_eq!(split(&line), Ok(SplitPoint { space: 14, command: 14 }));
    assert_eq!(forward(&line), Ok(vec![0u16]));
}

#[test]
fn empty_quotes_are_a_program_name() {
    let line = wide(r#""" x"#);
    assert_eq!(split(&line), Ok(SplitPoint { space: 2, command: 3 }));
    assert_eq!(forward(&line), Ok(wide("x")));
}

#[test]
fn unquoted_boundary_is_the_first_space_or_tab() {
    assert_eq!(program_end(&wide("a\tb c")), Some(1));
    assert_eq!(program_end(&wide("ab c\td")), Some(2));
    assert_eq!(program_end(&wide(" a")), Some(0));
}

#[test]
fn a_quote_inside_a_plain_name_is_no_quote() {
    let line = wide(r#"la"un cher" x"#);
    assert_eq!(split(&line), Ok(SplitPoint { space: 5, command: 6 }));
    assert_eq!(forward(&line), Ok(wide(r#"cher" x"#)));
}

#[test]
fn mixed_separators_are_one_run() {
    let line = wide("launcher \t \t  dir /w");
    assert_eq!(split(&line), Ok(SplitPoint { space: 8, command: 14 }));
    assert_eq!(forward(&line), Ok(wide("dir /w")));
}

#[test]
fn command_start_skips_separators_only() {
    let line = wide("x  \t y");
    assert_eq!(command_start(&line, 1), 5);
    assert_eq!(command_start(&line, 5), 5);
    assert_eq!(command_start(&line, 0), 0);
    assert_eq!(command_start(&line, 6), 6);
}

#[test]
fn command_start_without_a_command_is_the_length() {
    let open: Vec<u16> = "x \t ".encode_utf16().collect();
    assert_eq!(open.len(), 4);
    assert_eq!(command_start(&open, 1), 4);
    assert_eq!(command_start(&open, 4), 4);
    assert_eq!(command_start(&open, 9), 4);
    assert_eq!(command_start(&[], 0), 0);
}

#[test]
fn forwarded_text_is_passed_unit_for_unit() {
    let line = wide("run  \"a  b\"\t'c'  \\\" ");
    assert_eq!(forward(&line), Ok(wide("\"a  b\"\t'c'  \\\" ")));
}

#[test]
fn forwarded_text_keeps_units_beyond_ascii() {
    let line = wide("run caf\u{e9} \u{1F600}");
    let forwarded = forward(&line).unwrap();
    assert_eq!(forwarded, wide("caf\u{e9} \u{1F600}"));
    assert_eq!(forwarded.len(), 8);
}

#[test]
fn unterminated_quote_is_malformed() {
    assert_eq!(split(&wide(r#""C:\tools\app.exe build"#)), Err(SplitError::UnterminatedQuote));
    assert_eq!(split(&wide(r#"""#)), Err(SplitError::UnterminatedQuote));
    assert_eq!(forward(&wide(r#""a b c"#)), Err(SplitError::UnterminatedQuote));
}

#[test]
fn empty_line_is_malformed() {
    assert_eq!(split(&wide("")), Err(SplitError::NoSeparator));
    assert_eq!(forward(&wide("")), Err(SplitError::NoSeparator));
}

#[test]
fn buffer_without_null_is_no_line() {
    let open: Vec<u16> = "run it".encode_utf16().collect();
    assert!(!terminated(&open));
    assert_eq!(split(&open), Err(SplitError::NotTerminated));
    assert_eq!(forward(&open), Err(SplitError::NotTerminated));
    assert_eq!(split(&[]), Err(SplitError::NotTerminated));
    assert_eq!(forward(&[]), Err(SplitError::NotTerminated));
    assert_eq!(program_end(&[]), None);
}

#[test]
fn buffer_with_inner_null_is_no_line() {
    let mut twice = wide("run it");
    twice.extend(wide("now"));
    assert!(!terminated(&twice));
    assert_eq!(split(&twice), Err(SplitError::NotTerminated));
    let mut early = wide("run");
    early.extend(wide(" it"));
    assert_eq!(forward(&early), Err(SplitError::NotTerminated));
    assert_eq!(split(&[0, 0]), Err(SplitError::NotTerminated));
}

#[test]
fn line_ends_in_its_one_null() {
    assert!(terminated(&wide("")));
    assert!(terminated(&wide("run it")));
    assert!(terminated(&[0]));
    assert!(!terminated(&[]));
    assert!(!terminated(&[0, 32]));
    assert!(!terminated(&[32]));
}

#[test]
fn termination_comes_before_the_other_failures() {
    let quoted: Vec<u16> = r#""run"#.encode_utf16().collect();
    assert_eq!(split(&quoted), Err(SplitError::NotTerminated));
    let plain: Vec<u16> = "run".encode_utf16().collect();
    assert_eq!(split(&plain), Err(SplitError::NotTerminated));
}

#[test]
fn terminated_line_never_lacks_a_command() {
    for text in ["a ", "a\t", "\"a\"", "\"\"", " ", "a b", "\"a\" \t "] {
        let line = wide(text);
        let forwarded = forward(&line).unwrap();
        assert_eq!(forwarded.last(), Some(&0u16));
        assert_eq!(forwarded.iter().filter(|&&unit| unit == 0).count(), 1);
    }
}

#[test]
fn forwarded_text_is_already_trimmed() {
    for text in ["run  a b", "\"r u n\"\t\tx", "run \t ", "p q  r"] {
        let forwarded = forward(&wide(text)).unwrap();
        assert_eq!(command_start(&forwarded, 0), 0);
        assert!(!UnitClass::Separator.admits(forwarded[0]));
    }
}

#[test]
fn splitting_undoes_joining() {
    let names = ["launcher.exe", r#""C:\Program Files\l.exe""#, r#""""#, "l"];
    let runs = [" ", "\t", "  \t ", "\t\t"];
    let commands = ["status", "build --release", r#""a b" c"#, "x "];
    for name in names {
        for run in runs {
            for command in commands {
                let line = wide(&format!("{name}{run}{command}"));
                let name_len = name.encode_utf16().count();
                let run_len = run.encode_utf16().count();
                assert_eq!(
                    split(&line),
                    Ok(SplitPoint { space: name_len, command: name_len + run_len })
                );
                assert_eq!(forward(&line), Ok(wide(command)));
            }
        }
    }
}
