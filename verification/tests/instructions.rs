use interpreter::Instruction;

#[test]
fn instruction_with_default_state_has_size_two() {
    assert_eq!(std::mem::size_of::<Instruction>(), 2);
}
