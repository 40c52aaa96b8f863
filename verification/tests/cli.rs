use adios::cli::Mode;
use adios::common::{Command, Input, Landmark};

#[test]
fn modes_are_known_by_their_names() {
    assert_eq!(Mode::CmsisDapWsPdml.name(), "cmsis-dap-ws-pdml");
    assert_eq!(Mode::SigrokSwd.name(), "sigrok-swd");
    for mode in [Mode::CmsisDapWsPdml, Mode::SigrokSwd] {
        assert_eq!(Mode::from_name(mode.name()), Some(mode));
    }
    assert_eq!(Mode::from_name("sigrok_swd"), None);
    assert_eq!(Mode::from_name(""), None);
}

#[test]
fn inputs_are_made_of_commands_and_landmarks() {
    let command = Command { ts: None, apndp: true, rnw: false, a: 1, data: 2 };
    assert_eq!(Input::from(command), Input::Command(command));
    assert_eq!(
        Input::simple_landmark("here"),
        Input::Landmark { metadata: Landmark::Text(String::from("here")) }
    );
    let landmark = Input::simple_landmark("there");
    assert_eq!(landmark.clone(), landmark);
}
