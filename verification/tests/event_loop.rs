use crust::compat::event_loop::event_loop_name;

#[test]
fn event_loop_is_named_after_its_identifier() {
    assert_eq!(event_loop_name(None), "CRUST-Event-Loop");
    assert_eq!(event_loop_name(Some("EL0")), "CRUST-Event-Loop: EL0");
    assert_eq!(event_loop_name(Some("")), "CRUST-Event-Loop: ");
}
