use desktop_file::define_group::{GroupValue, Required, RequiredKeyMissing};
use desktop_file::{DesktopFile, Group, ParseError};

#[derive(Debug, PartialEq)]
enum MyError {
    Parse(ParseError),
    RequiredKeyMissing(&'static str),
}

impl From<ParseError> for MyError {
    fn from(value: ParseError) -> Self {
        Self::Parse(value)
    }
}

impl From<RequiredKeyMissing> for MyError {
    fn from(value: RequiredKeyMissing) -> Self {
        Self::RequiredKeyMissing(value.0)
    }
}

#[derive(Debug, PartialEq)]
struct MyGroup {
    first_key: String,
    second_key: Option<Vec<String>>,
    fancy: Option<bool>,
}

fn my_group(group: &Group) -> Result<MyGroup, MyError> {
    Ok(MyGroup {
        first_key: <Required<String> as GroupValue<MyError>>::get_from(group, "FirstKey")?,
        second_key: <Option<Vec<String>> as GroupValue<MyError>>::get_from(group, "SecondKey")?,
        fancy: <Option<bool> as GroupValue<MyError>>::get_from(group, "Is-Fancy")?,
    })
}

#[test]
fn schema_binding_reads_required_and_optional_fields() {
    let file = DesktopFile::parse("[g]\nFirstKey=one\nIs-Fancy=true\n").unwrap();
    assert_eq!(
        my_group(file.group("g").unwrap()),
        Ok(MyGroup { first_key: "one".to_string(), second_key: None, fancy: Some(true) })
    );
}

#[test]
fn schema_binding_reports_first_error() {
    let file = DesktopFile::parse("[g]\nIs-Fancy=true\n").unwrap();
    assert_eq!(
        my_group(file.group("g").unwrap()),
        Err(MyError::RequiredKeyMissing("FirstKey"))
    );
    let file = DesktopFile::parse("[g]\nFirstKey=one\nIs-Fancy=very\n").unwrap();
    assert_eq!(
        my_group(file.group("g").unwrap()),
        Err(MyError::Parse(ParseError { line: 1, column: 1 }))
    );
}
