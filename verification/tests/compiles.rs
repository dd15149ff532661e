use looper_processor::looper_state::LooperOptions;

#[test]
fn test_compiles() {}

#[test]
fn test_default_options_allow_ten_seconds() {
    assert_eq!(LooperOptions::default().max_loop_length_millis, 10_000);
}
