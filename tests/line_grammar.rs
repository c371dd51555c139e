use desktop_file::parser::{file_lines, line_any, line_blank, line_comment, line_entry, line_group_header, Line};
use desktop_file::ParseError;

#[test]
fn parser_line_blank() {
    // An empty line is a blank line
    assert_eq!(line_blank("\n"), Ok(()));
    // ... and so is one that holds only spaces and tabs
    assert_eq!(line_blank(" \n"), Ok(()));
    assert_eq!(line_blank("\t\n"), Ok(()));
    // Any line must end with a linefeed
    assert!(line_blank("").is_err());
}

#[test]
fn parser_line_comment() {
    // A comment can be empty
    assert_eq!(line_comment("#\n"), Ok("".to_string()));
    // Comments can contain any character, except for a linefeed
    assert_eq!(
        line_comment("# this is a \x07 comment!!\r\t🥺🥺\n"),
        Ok(" this is a \x07 comment!!\r\t🥺🥺".to_string())
    );
    // Any line must end with a linefeed
    assert!(line_comment("#").is_err());
}

#[test]
fn parser_line_group_header() {
    // Group names are strings
    assert_eq!(line_group_header("[groupname]\n"), Ok("groupname".to_string()));
    // ... but they cannot contain '[' or ']'
    assert!(line_group_header("[group[name]\n").is_err());
    assert!(line_group_header("[group]name]\n").is_err());
    // Any line must end with a linefeed
    assert!(line_group_header("[groupname]").is_err());
}

#[test]
fn parser_line_entry() {
    // Keys must be A-Za-z0-9- strings, values are strings
    assert_eq!(line_entry("key=value\n"), Ok(("key".to_string(), "value".to_string())));
    // ... so values can be non-ASCII
    assert_eq!(
        line_entry("key=val🥺🥺ue\n"),
        Ok(("key".to_string(), "val🥺🥺ue".to_string()))
    );
    // ... but keys must still be A-Za-z0-9- strings
    assert!(line_entry("key!=value\n").is_err());
    assert!(line_entry("k_ey=value\n").is_err());
    assert!(line_entry("ke🥺y=value\n").is_err());
    // An '=' must be present
    assert!(line_entry("key\n").is_err());
    // Keys must be non-empty
    assert!(line_entry("=value\n").is_err());
    // .. but values can be empty
    assert_eq!(line_entry("key=\n"), Ok(("key".to_string(), "".to_string())));
    // Any line must end with a linefeed
    assert!(line_entry("key=value").is_err());
}

#[test]
fn parse_line_blank() {
    assert_eq!(line_blank("\n"), Ok(()));
    // Spaces and tabs before the linefeed still make a blank line
    assert_eq!(line_blank(" \n"), Ok(()));
    assert_eq!(line_blank("\t\n"), Ok(()));
    // Any line must end with a linefeed
    assert!(line_blank("").is_err());
}

#[test]
fn parse_line_comment() {
    assert_eq!(line_comment("#\n"), Ok("".to_string()));
    assert_eq!(
        line_comment("# this is a \x07 comment!!\r\tğŸ¥ºğŸ¥º\n"),
        Ok(" this is a \x07 comment!!\r\tğŸ¥ºğŸ¥º".to_string())
    );
    assert!(line_comment("#").is_err());
}

#[test]
fn parse_line_group_header() {
    assert_eq!(line_group_header("[groupname]\n"), Ok("groupname".to_string()));
    assert!(line_group_header("[group[name]\n").is_err());
    assert!(line_group_header("[group]name]\n").is_err());
    assert!(line_group_header("[groupname]").is_err());
}

#[test]
fn parse_line_entry() {
    assert_eq!(line_entry("key=value\n"), Ok(("key".to_string(), "value".to_string())));
    assert_eq!(
        line_entry("key=valğŸ¥ºğŸ¥ºue\n"),
        Ok(("key".to_string(), "valğŸ¥ºğŸ¥ºue".to_string()))
    );
    assert!(line_entry("key!=value\n").is_err());
    assert!(line_entry("k_ey=value\n").is_err());
    assert!(line_entry("keğŸ¥ºy=value\n").is_err());
    // Keys can also include a locale
    assert_eq!(
        line_entry("key[en_AU@Latn]=value\n"),
        Ok(("key[en_AU@Latn]".to_string(), "value".to_string()))
    );
    // ... which must be at the end of the key
    assert!(line_entry("ke[locale]y=value\n").is_err());
    // ... and cannot contain '[' or ']'
    assert!(line_entry("key[loc[ale]=value\n").is_err());
    assert!(line_entry("key[loc]ale]=value\n").is_err());
    assert!(line_entry("key\n").is_err());
    assert!(line_entry("=value\n").is_err());
    assert_eq!(line_entry("key=\n"), Ok(("key".to_string(), "".to_string())));
    assert!(line_entry("key=value").is_err());
}

#[test]
fn entry_whitespace_around_equals_is_dropped() {
    assert_eq!(
        line_entry("Name[hi] =\t  XMPP  x \n"),
        Ok(("Name[hi]".to_string(), "XMPP  x ".to_string()))
    );
    // an empty locale suffix is no suffix
    assert!(line_entry("key[]=value\n").is_err());
}

#[test]
fn single_line_errors_give_positions() {
    assert_eq!(line_blank("abc"), Err(ParseError { line: 1, column: 3 }));
    assert_eq!(line_blank(""), Err(ParseError { line: 1, column: 1 }));
    assert_eq!(line_blank("\n\n"), Err(ParseError { line: 2, column: 1 }));
    assert_eq!(line_blank("x\n"), Err(ParseError { line: 1, column: 1 }));
    assert_eq!(line_any("# c\n"), Ok(Line::Comment(" c".to_string())));
    assert_eq!(line_any("[g]\n"), Ok(Line::GroupHeader("g".to_string())));
    assert_eq!(line_any(" \t\n"), Ok(Line::Blank));
}

#[test]
fn file_one_line_per_source_line() {
    let lines = file_lines("[g]\n# hi\n\nk = v\n").unwrap();
    assert_eq!(
        lines,
        vec![
            Line::GroupHeader("g".to_string()),
            Line::Comment(" hi".to_string()),
            Line::Blank,
            Line::Entry("k".to_string(), "v".to_string()),
        ]
    );
}

#[test]
fn file_needs_final_line_feed() {
    assert_eq!(file_lines(""), Ok(vec![]));
    assert_eq!(file_lines("\n"), Ok(vec![Line::Blank]));
    assert_eq!(file_lines("[g]"), Err(ParseError { line: 1, column: 3 }));
    assert_eq!(file_lines("[g]\nk=v"), Err(ParseError { line: 2, column: 3 }));
    assert_eq!(file_lines("[g]\n!bad\n"), Err(ParseError { line: 2, column: 1 }));
}
