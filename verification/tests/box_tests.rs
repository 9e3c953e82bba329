use smart_pointers::smart_pointer_box::run;
use smart_pointers::smart_pointer_box::start_console;
use smart_pointers::smart_pointer_box::test_box;
use smart_pointers::smart_pointer_box::ConsoleType;
use smart_pointers::smart_pointer_box::Controller;
use smart_pointers::smart_pointer_box::Ps5;
use smart_pointers::smart_pointer_box::Xbox;

#[test]
fn ps5_reports_its_press() {
    let m = Ps5.press("UP");
    assert_eq!(m, "button 'UP' was pressed at the Ps5");
}

#[test]
fn xbox_reports_its_press() {
    let m = Xbox.press("DOW");
    assert_eq!(m, "button 'DOW' was pressed at the Xbox");
}

#[test]
fn run_picks_the_requested_console() {
    let ps5 = run(&ConsoleType::Ps5);
    let xbox = run(&ConsoleType::Xbox);
    assert_eq!(ps5.press("A"), "button 'A' was pressed at the Ps5");
    assert_eq!(xbox.press("B"), "button 'B' was pressed at the Xbox");
}

#[test]
fn box_demo_runs() {
    test_box();
}

#[test]
fn console_demo_runs() {
    start_console();
}
