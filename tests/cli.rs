use std::str::FromStr;

use gman::cli::Target;

#[test]
fn parse_target_identifier() {
    let ver = Some("develop");
    let target: Target = match ver {
        Some(x) => Target::from_str(x.as_ref()).unwrap(),
        None => Target::Identifier("master".to_owned()),
    };

    assert_eq!(target, Target::Identifier("develop".to_owned()))
}

#[test]
fn parse_target_version() {
    let ver = Some("5.2.1-7322");
    let target: Target = match ver {
        Some(x) => Target::from_str(x.as_ref()).unwrap(),
        None => Target::Identifier("master".to_owned()),
    };

    assert_eq!(target, Target::Version("5.2.1-7322".to_owned()))
}

#[test]
fn target_to_string() {
    let target = Target::Identifier("master".to_owned());

    assert_eq!(target.to_string(), "master")
}

#[test]
fn target_grammar_edges() {
    assert_eq!(Target::parse("5."), Target::Version("5.".to_owned()));
    assert_eq!(Target::parse("5..2"), Target::Identifier("5..2".to_owned()));
    assert_eq!(Target::parse(".5"), Target::Identifier(".5".to_owned()));
    assert_eq!(Target::parse(""), Target::Identifier("".to_owned()));
    assert_eq!(Target::parse("1.0.1656.0"), Target::Version("1.0.1656.0".to_owned()));
}
