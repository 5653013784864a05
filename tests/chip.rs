use chip8::{Chip8, LOAD_ADDRESS, MEMORY_CAPACITY, TOTAL_STACK_DEPTH};

#[test]
fn test_set_memory_addr_within_bounds() {
    let mut chip8 = Chip8::new();
    let index = 0;
    let value = 0x90;
    let result = chip8.set_memory_addr(index, value);
    assert_eq!(result, Ok(()));
}

#[test]
fn test_set_memory_addr_out_of_bounds() {
    let mut chip8 = Chip8::new();
    let index = MEMORY_CAPACITY + 1;
    let value = 0x90;
    let result = chip8.set_memory_addr(index, value);
    assert_eq!(result, Err("memory out of bounds!"));
}

#[test]
fn test_get_memory_addr_within_bounds() {
    let mut chip8 = Chip8::new();
    let index = 0;
    chip8.set_memory_addr(index, 0x90).unwrap();
    let result = chip8.get_memory_addr(index);
    assert_eq!(result, Ok(0x90));
}

#[test]
fn test_get_memory_addr_out_of_bounds() {
    let chip8 = Chip8::new();
    let index = MEMORY_CAPACITY + 1;
    let result = chip8.get_memory_addr(index);
    assert_eq!(result, Err("memory out of bounds!"));
}

#[test]
fn test_push_to_stack_within_bounds() {
    let mut chip8 = Chip8::new();
    chip8.stack_pointer = 0;
    let value = 0x200;
    let result = chip8.push_to_stack(0, value);
    assert_eq!(result, Ok(()));
    assert_eq!(chip8.stack[0], 0x200);
    assert_eq!(chip8.stack_pointer, 1);
}

#[test]
fn test_push_to_stack_out_of_bounds() {
    let mut chip8 = Chip8::new();
    chip8.stack_pointer = TOTAL_STACK_DEPTH;
    let value = 0x200;
    let result = chip8.push_to_stack(TOTAL_STACK_DEPTH as usize, value);
    assert_eq!(result, Err("memory out of bounds!"));
}

#[test]
fn test_pop_from_stack_within_bounds() {
    let mut chip8 = Chip8::new();
    chip8.stack_pointer = 1;
    chip8.stack[0] = 0x200;
    let result = chip8.pop_from_stack();
    assert_eq!(result, Ok(0x200));
    assert_eq!(chip8.stack_pointer, 0);
}

#[test]
fn test_pop_from_stack_out_of_bounds() {
    let mut chip8 = Chip8::new();
    chip8.stack_pointer = 0;
    let result = chip8.pop_from_stack();
    assert_eq!(result, Err("memory out of bounds!"));
}

#[test]
fn test_load_valid_program() {
    let mut chip8 = Chip8::new();
    let program: [u8; 4] = [0x12, 0x34, 0x56, 0x78];
    let result = chip8.load(&program);
    assert_eq!(result, Ok(()));
    assert_eq!(chip8.program_counter, LOAD_ADDRESS);
}

#[test]
fn test_load_program_too_large() {
    let mut chip8 = Chip8::new();
    let program: [u8; MEMORY_CAPACITY + 1] = [0; MEMORY_CAPACITY + 1];
    let result = chip8.load(&program);
    assert_eq!(result, Err("program too large for memory"));
}
