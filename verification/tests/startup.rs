use revng_fugue::startup::{initialised, program_name};
use revng_fugue::{initialise, Error, Startup};

#[test]
fn revng_is_started_under_the_name_of_the_program() {
    assert_eq!(program_name(Some("tool".to_string())), "tool");
    assert_eq!(program_name(Some(String::new())), "");
    assert_eq!(program_name(Some("to\0ol".to_string())), "revng");
    assert_eq!(program_name(None), "revng");
}

#[test]
fn a_start_is_asked_for_once_in_a_process() {
    let mut startup = Startup::new();
    let request = initialise(&mut startup, false, Some("tool".to_string()), &[2, 15])
        .expect("revng is to be started");
    assert_eq!(request.program, "tool");
    assert_eq!(request.signals, vec![2, 15]);
    assert!(initialise(&mut startup, false, Some("tool".to_string()), &[2]).is_none());
    assert!(initialise(&mut startup, true, None, &[]).is_none());
}

#[test]
fn revng_that_is_up_is_never_started() {
    let mut startup = Startup::new();
    assert!(initialise(&mut startup, true, None, &[]).is_none());
    assert!(initialise(&mut startup, false, None, &[]).is_none());
}

#[test]
fn starting_fails_in_two_ways() {
    assert!(initialised(Some(true), true).is_ok());
    assert!(initialised(None, true).is_ok());
    match initialised(Some(false), false) {
        Err(Error::Pipeline(message)) => assert_eq!(message, "rp_initialise failed"),
        other => panic!("{other:?}"),
    }
    match initialised(Some(false), true) {
        Err(Error::Pipeline(message)) => assert_eq!(message, "rp_initialise failed"),
        other => panic!("{other:?}"),
    }
    match initialised(Some(true), false) {
        Err(Error::Pipeline(message)) => assert_eq!(message, "revng is not initialised"),
        other => panic!("{other:?}"),
    }
    match initialised(None, false) {
        Err(Error::Pipeline(message)) => assert_eq!(message, "revng is not initialised"),
        other => panic!("{other:?}"),
    }
}
