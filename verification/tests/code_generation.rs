use revng_fugue::codegen::{terminated, without_terminator, Stage};
use revng_fugue::{CodeFormat, Error};

#[test]
fn the_terminator_goes_on_and_comes_off() {
    assert_eq!(terminated(&[]), vec![0]);
    assert_eq!(terminated(&[66, 67]), vec![66, 67, 0]);
    assert_eq!(without_terminator(&[66, 67, 0]), vec![66, 67]);
    assert_eq!(without_terminator(&[0]), Vec::<u8>::new());
    assert_eq!(without_terminator(&[]), Vec::<u8>::new());
    for bitcode in [vec![], vec![0], vec![1, 0, 2], vec![0, 0]] {
        assert_eq!(without_terminator(&terminated(&bitcode)), bitcode);
    }
}

#[test]
fn refusals_say_where_they_come_from() {
    for (stage, expected) in [
        (Stage::Target, "unknown target triple: no"),
        (Stage::Parse, "the module does not parse: no"),
        (Stage::Passes, "the pass pipeline failed: no"),
        (Stage::Emit, "writing the machine code failed: no"),
    ] {
        match stage.refusal("no") {
            Error::Codegen(message) => assert_eq!(message, expected),
            other => panic!("{other:?}"),
        }
    }
}

#[test]
fn code_formats_differ() {
    assert_ne!(CodeFormat::Assembly, CodeFormat::Object);
    assert_eq!(format!("{:?}", CodeFormat::Object), "Object");
}
