use alsacoin::protocol::common;
use alsacoin::protocol::error::Error;
use alsacoin::protocol::result::handle_result;

#[test]
fn handle_result_passes_values_and_reports_errors() {
    let (res, line) = handle_result::<u32>(Ok(7), "step");
    assert!(matches!(res, Ok(7)));
    assert!(line.is_none());
    let (res, line) = handle_result::<u32>(Err(Error::InvalidNode), "Network send_message error");
    assert!(matches!(res, Err(Error::InvalidNode)));
    assert_eq!(line.unwrap(), "Network send_message error: Invalid node");
    let (_, line) = common::handle_result::<()>(Err(Error::Thread { msg: "boom".to_string() }), "ctx");
    assert_eq!(line.unwrap(), "ctx: Thread: boom");
}
