use qtm2::unwrap_trace::UnwrapTrace;

#[test]
fn a_value_is_handed_out_as_it_is() {
    let result: Result<u32, String> = Ok(7);
    assert_eq!(result.unwrap_or_warn("no number", |_| 0), 7);
}

#[test]
fn an_error_is_handed_to_the_fallback() {
    let result: Result<usize, String> = Err("four".to_owned());
    assert_eq!(result.unwrap_or_warn("no number", |error| error.len()), 4);
}

#[test]
fn the_fallback_is_not_called_for_a_value() {
    let result: Result<u32, ()> = Ok(1);
    let value = result.unwrap_or_warn("unused", |_| panic!("the fallback was called"));
    assert_eq!(value, 1);
}
