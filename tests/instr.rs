use sart::instr::{parse_instrution, INTRUCTION_AWAIT, INTRUCTION_MOV, INTRUCTION_XOR_MUT};

#[test]
fn known_mnemonics_give_their_opcode() {
    assert_eq!(parse_instrution("mov"), Some(0x01));
    assert_eq!(parse_instrution("clrs"), Some(0x03));
    assert_eq!(parse_instrution("add_mut"), Some(0x0E));
    assert_eq!(parse_instrution("xor_mut"), Some(INTRUCTION_XOR_MUT));
    assert_eq!(parse_instrution("jnz"), Some(0x20));
    assert_eq!(parse_instrution("await"), Some(INTRUCTION_AWAIT));
    assert_eq!(INTRUCTION_MOV, 0x01);
}

#[test]
fn unknown_text_gives_none() {
    assert_eq!(parse_instrution(""), None);
    assert_eq!(parse_instrution("MOV"), None);
    assert_eq!(parse_instrution("mov "), None);
    assert_eq!(parse_instrution("mo"), None);
    assert_eq!(parse_instrution("await_mut"), None);
}
