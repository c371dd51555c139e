use desktop_file::desktop_entry::{Exec, ExecArgument};
use desktop_file::ParseError;

#[test]
fn desktop_entry_sdrpp() {
    assert_eq!(
        Exec::from_value("/usr/bin/sdrpp").unwrap(),
        Exec {
            program: "/usr/bin/sdrpp".to_string(),
            arguments: vec![],
        }
    );
}

#[test]
fn desktop_entry_ipython() {
    assert_eq!(
        Exec::from_value("kitty python -m IPython").unwrap(),
        Exec {
            program: "kitty".to_string(),
            arguments: vec![
                ExecArgument::String("python".to_string()),
                ExecArgument::String("-m".to_string()),
                ExecArgument::String("IPython".to_string()),
            ],
        }
    );
}

#[test]
fn desktop_entry_audacity() {
    assert_eq!(
        Exec::from_value("env UBUNTU_MENUPROXY=0 audacity %F").unwrap(),
        Exec {
            program: "env".to_string(),
            arguments: vec![
                ExecArgument::String("UBUNTU_MENUPROXY=0".to_string()),
                ExecArgument::String("audacity".to_string()),
                ExecArgument::FieldCode('F'),
            ],
        }
    );
}

#[test]
fn desktop_entry_kate() {
    assert_eq!(
        Exec::from_value("kate -b %U").unwrap(),
        Exec {
            program: "kate".to_string(),
            arguments: vec![
                ExecArgument::String("-b".to_string()),
                ExecArgument::FieldCode('U'),
            ],
        }
    );
}

#[test]
fn desktop_entry_love() {
    assert_eq!(
        Exec::from_value("/usr/bin/love %f").unwrap(),
        Exec {
            program: "/usr/bin/love".to_string(),
            arguments: vec![ExecArgument::FieldCode('f')],
        }
    );
}

#[test]
fn desktop_entry_openstreetmap_geo_handler() {
    assert_eq!(
        Exec::from_value(
            r#"kde-geo-uri-handler --coordinate-template "https://www.openstreetmap.org/#map=<Z>/<LAT>/<LON>" --query-template "https://www.openstreetmap.org/search?query=<Q>" --fallback "https://www.openstreetmap.org" %u"#
        ).unwrap(),
        Exec {
            program: "kde-geo-uri-handler".to_string(),
            arguments: vec![
                ExecArgument::String("--coordinate-template".to_string()),
                ExecArgument::String(
                    "https://www.openstreetmap.org/#map=<Z>/<LAT>/<LON>".to_string()
                ),
                ExecArgument::String("--query-template".to_string()),
                ExecArgument::String(
                    "https://www.openstreetmap.org/search?query=<Q>".to_string()
                ),
                ExecArgument::String("--fallback".to_string()),
                ExecArgument::String("https://www.openstreetmap.org".to_string()),
                ExecArgument::FieldCode('u'),
            ],
        }
    );
}

#[test]
fn desktop_entry_emacsclient_mail() {
    // The command line is decoded as it stands in the file: `\\` inside the quoted argument is
    // one backslash, and the quote after it closes the argument before its end.
    assert_eq!(
        Exec::from_value(
            r#"sh -c "u=\\$(echo \\"\\$1\\" | sed 's/[\\\\\\"]/\\\\\\\\&/g'); exec /usr/bin/emacsclient --alternate-editor= --display=\\"\\$DISPLAY\\" --eval \\"(message-mailto \\\\\\"\\$u\\\\\\")\\"" sh %u"#
        ),
        Err(ParseError { line: 1, column: 1 })
    );
    // With the escapes of the plain string already decoded, the same command reads as intended.
    assert_eq!(
        Exec::from_value(
            r#"sh -c "u=\$(echo \"\$1\" | sed 's/[\\\"]/\\\\&/g'); exec /usr/bin/emacsclient --alternate-editor= --display=\"\$DISPLAY\" --eval \"(message-mailto \\\"\$u\\\")\"" sh %u"#
        )
        .unwrap(),
        Exec {
            program: "sh".to_string(),
            arguments: vec![
                ExecArgument::String("-c".to_string()),
                ExecArgument::String(
                    r#"u=$(echo "$1" | sed 's/[\"]/\\&/g'); exec /usr/bin/emacsclient --alternate-editor= --display="$DISPLAY" --eval "(message-mailto \"$u\")""#.to_string()
                ),
                ExecArgument::String("sh".to_string()),
                ExecArgument::FieldCode('u'),
            ],
        }
    );
}

#[test]
fn desktop_entry_lone_percent() {
    assert_eq!(
        Exec::from_value("program x %% y").unwrap(),
        Exec {
            program: "program".to_string(),
            arguments: vec![
                ExecArgument::String("x".to_string()),
                ExecArgument::String("%".to_string()),
                ExecArgument::String("y".to_string()),
            ],
        }
    );
}

#[test]
fn exec_malformed_quoting_and_empty_parts() {
    let err = Err(ParseError { line: 1, column: 1 });
    assert_eq!(Exec::from_value(r#"prog "unterminated"#), err);
    assert_eq!(Exec::from_value(r#"prog "ab"c"#), err);
    assert_eq!(Exec::from_value(""), err);
    assert_eq!(Exec::from_value(" prog"), err);
    assert_eq!(Exec::from_value("prog  x"), err);
    assert_eq!(Exec::from_value("prog x "), err);
}

#[test]
fn exec_program_and_placeholders() {
    // the program is taken as it stands
    assert_eq!(
        Exec::from_value("%f \"x\"").unwrap(),
        Exec {
            program: "%f".to_string(),
            arguments: vec![ExecArgument::String("x".to_string())],
        }
    );
    // a placeholder is exactly two characters; anything longer is a literal
    assert_eq!(
        Exec::from_value("p %fx % %\" \"a b\\\"c\"").unwrap(),
        Exec {
            program: "p".to_string(),
            arguments: vec![
                ExecArgument::String("%fx".to_string()),
                ExecArgument::String("%".to_string()),
                ExecArgument::FieldCode('"'),
                ExecArgument::String("a b\"c".to_string()),
            ],
        }
    );
}
