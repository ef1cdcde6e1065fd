use vcpu_tasks::instruction::{decode, StringIo, Width};

fn inst(is_out: bool, has_rep: bool, width: Width, inst_len: u64) -> Option<StringIo> {
    Some(StringIo { is_out, has_rep, width, inst_len })
}

#[test]
fn plain_opcodes() {
    assert_eq!(decode(&[0x6C]), inst(false, false, Width::Byte, 1));
    assert_eq!(decode(&[0x6D]), inst(false, false, Width::Dword, 1));
    assert_eq!(decode(&[0x6E]), inst(true, false, Width::Byte, 1));
    assert_eq!(decode(&[0x6F]), inst(true, false, Width::Dword, 1));
}

#[test]
fn operand_size_narrows_wide_forms_only() {
    assert_eq!(decode(&[0x66, 0x6C]), inst(false, false, Width::Byte, 2));
    assert_eq!(decode(&[0x66, 0x6D]), inst(false, false, Width::Word, 2));
    assert_eq!(decode(&[0x66, 0x6E]), inst(true, false, Width::Byte, 2));
    assert_eq!(decode(&[0x66, 0x6F]), inst(true, false, Width::Word, 2));
}

#[test]
fn rep_prefix() {
    assert_eq!(decode(&[0xF3, 0x6C]), inst(false, true, Width::Byte, 2));
    assert_eq!(decode(&[0xF3, 0x6F]), inst(true, true, Width::Dword, 2));
}

#[test]
fn prefixes_in_any_order() {
    let expected = inst(true, true, Width::Word, 3);
    assert_eq!(decode(&[0xF3, 0x66, 0x6F]), expected);
    assert_eq!(decode(&[0x66, 0xF3, 0x6F]), expected);
}

#[test]
fn prefixes_may_repeat() {
    assert_eq!(
        decode(&[0x66, 0x66, 0xF3, 0xF3, 0x66, 0x6D]),
        inst(false, true, Width::Word, 6)
    );
}

#[test]
fn bytes_after_the_opcode_do_not_matter() {
    assert_eq!(decode(&[0xF3, 0x6E, 0x66, 0x90]), inst(true, true, Width::Byte, 2));
}

#[test]
fn bytes_that_end_before_the_opcode() {
    assert_eq!(decode(&[]), None);
    assert_eq!(decode(&[0xF3]), None);
    assert_eq!(decode(&[0x66, 0xF3, 0x66]), None);
}

#[test]
fn other_instructions() {
    // The opcodes on either side, REPNE, a REX prefix, IN and OUT.
    for byte in [0x6B, 0x70, 0xF2, 0x48, 0xEC, 0xEE, 0x00, 0xFF] {
        assert_eq!(decode(&[byte, 0x6C]), None);
        assert_eq!(decode(&[0xF3, byte, 0x6C]), None);
    }
}

#[test]
fn length_is_prefixes_and_opcode() {
    let mut bytes = vec![0x66u8; 14];
    bytes.push(0x6F);
    assert_eq!(decode(&bytes), inst(true, false, Width::Word, 15));
}

#[test]
fn width_in_bytes() {
    assert_eq!(Width::Byte.bytes(), 1);
    assert_eq!(Width::Word.bytes(), 2);
    assert_eq!(Width::Dword.bytes(), 4);
}
