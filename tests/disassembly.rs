use sim8086::decode::disassemble;
use sim8086::error::Error;
use sim8086::memory::Address;

#[test]
fn header_and_plain_instructions() {
    assert_eq!(disassemble(&[]).unwrap(), "bits 16\n\n");
    assert_eq!(disassemble(&[0x89, 0xD9]).unwrap(), "bits 16\n\nmov cx, bx\n");
    assert_eq!(
        disassemble(&[0x88, 0x46, 0xFD, 0xB1, 0x0C]).unwrap(),
        "bits 16\n\nmov [bp - 3], al\nmov cl, byte 12\n"
    );
}

#[test]
fn branches_name_labels_in_first_seen_order() {
    // 0: jne 4; 2: je 0; 4: loop 0
    let bytes = [0x75, 0x02, 0x74, 0xFC, 0xE2, 0xFA];
    assert_eq!(
        disassemble(&bytes).unwrap(),
        "bits 16\n\nlabel1:\njne label0\nje label1\nlabel0:\nloop label1\n"
    );
}

#[test]
fn branch_to_itself() {
    assert_eq!(disassemble(&[0x75, 0xFE]).unwrap(), "bits 16\n\nlabel0:\njne label0\n");
}

#[test]
fn branch_to_end_of_image_declares_its_label() {
    assert_eq!(disassemble(&[0x75, 0x00]).unwrap(), "bits 16\n\njne label0\nlabel0:\n");
    // 0: je 4; 2: jne 0; 4: end of image
    assert_eq!(
        disassemble(&[0x74, 0x02, 0x75, 0xFC]).unwrap(),
        "bits 16\n\nlabel1:\nje label0\njne label1\nlabel0:\n"
    );
}

#[test]
fn accumulator_and_direct_address_lines() {
    assert_eq!(
        disassemble(&[0xA0, 0x34, 0x12, 0xA3, 0xFF, 0xFF]).unwrap(),
        "bits 16\n\nmov al, [4660]\nmov [65535], ax\n"
    );
}

#[test]
fn disassembly_stops_at_first_error() {
    assert_eq!(disassemble(&[0xB0, 0x00, 0x0F, 0x89]), Err(Error::UnknownInstruction(0x0F, Address(2))));
    assert_eq!(disassemble(&[0x89, 0xD9, 0x89]), Err(Error::EndOfInstructionStream()));
}
