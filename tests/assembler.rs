use gencfg_asm::{Assembler, Error, Op};

fn stops(n: usize) -> Vec<Op> {
    let mut v = Vec::new();
    for _ in 0..n {
        v.push(Op::Stop);
    }
    v
}

#[test]
fn assemble_jumpdest_no_label() -> Result<(), Error> {
    let mut assembler = Assembler::new();
    let sz = assembler.push_all(vec![Op::JumpDest(None)])?;
    assert_eq!(1, sz);
    assert_eq!(assembler.label_count(), 0);
    assert_eq!(assembler.take(), vec![0x5b]);
    Ok(())
}

#[test]
fn assemble_jumpdest_with_label() -> Result<(), Error> {
    let mut assembler = Assembler::new();
    let op = Op::JumpDest(Some("lbl".into()));

    let sz = assembler.push_all(vec![op])?;
    assert_eq!(1, sz);
    assert_eq!(assembler.label_count(), 1);
    assert_eq!(assembler.label_address("lbl"), Some(0));
    assert_eq!(assembler.take(), vec![0x5b]);
    Ok(())
}

#[test]
fn assemble_jumpdest_jump_with_label() -> Result<(), Error> {
    let ops = vec![Op::JumpDest(Some("lbl".into())), Op::Push1("lbl".into())];

    let mut assembler = Assembler::new();
    let sz = assembler.push_all(ops)?;
    assert_eq!(sz, 3);
    assert_eq!(assembler.take(), vec![0x5b, 0x60, 0x00]);

    Ok(())
}

#[test]
fn assemble_jump_jumpdest_with_label() -> Result<(), Error> {
    let ops = vec![Op::Push1("lbl".into()), Op::JumpDest(Some("lbl".into()))];

    let mut assembler = Assembler::new();
    let sz = assembler.push_all(ops)?;
    assert_eq!(sz, 3);
    assert_eq!(assembler.take(), vec![0x60, 0x02, 0x5b]);

    Ok(())
}

#[test]
fn empty_program_assembles_to_nothing() {
    let mut assembler = Assembler::new();
    assert_eq!(assembler.push_all(vec![]), Ok(0));
    assert_eq!(assembler.take(), Vec::<u8>::new());
    assert_eq!(assembler.code_len(), 0);
    assert_eq!(assembler.unresolved(), 0);
}

#[test]
fn distinct_labels_never_duplicate() {
    let ops = vec![
        Op::JumpDest(Some("a".into())),
        Op::Push1("c".into()),
        Op::JumpDest(Some("b".into())),
        Op::Push2("a".into()),
        Op::JumpDest(Some("c".into())),
        Op::JumpDest(None),
        Op::JumpDest(None),
    ];
    let mut assembler = Assembler::new();
    assert_eq!(assembler.push_all(ops), Ok(10));
    assert_eq!(assembler.label_count(), 3);
}

#[test]
fn output_length_is_sum_of_sizes() {
    let ops = vec![
        Op::Push2("end".into()),
        Op::Add,
        Op::Push1("end".into()),
        Op::Pop,
        Op::JumpI,
        Op::Jump,
        Op::JumpDest(Some("end".into())),
        Op::Stop,
    ];
    let mut assembler = Assembler::new();
    let sz = assembler.push_all(ops).unwrap();
    assert_eq!(sz, 3 + 1 + 2 + 1 + 1 + 1 + 1 + 1);
    assert_eq!(assembler.unresolved(), 0);
    assert_eq!(assembler.code_len(), 11);
    assert_eq!(
        assembler.take(),
        vec![0x61, 0x00, 0x09, 0x01, 0x60, 0x09, 0x50, 0x57, 0x56, 0x5b, 0x00]
    );
}

#[test]
fn label_address_is_length_before_declaration() {
    let ops = vec![
        Op::Push1("x".into()),
        Op::JumpDest(Some("a".into())),
        Op::Push2("a".into()),
        Op::Add,
        Op::JumpDest(Some("b".into())),
        Op::JumpDest(Some("x".into())),
    ];
    let mut assembler = Assembler::new();
    assembler.push_all(ops).unwrap();
    assert_eq!(assembler.label_address("a"), Some(2));
    assert_eq!(assembler.label_address("b"), Some(7));
    assert_eq!(assembler.label_address("x"), Some(8));
    assert_eq!(assembler.label_address("missing"), None);
}

#[test]
fn forward_reference_resolves_to_declaration() {
    let mut assembler = Assembler::new();
    assert_eq!(assembler.push(Op::JumpDest(Some("L".into()))), Ok(1));
    assert_eq!(assembler.push(Op::Push1("L".into())), Ok(3));
    assert_eq!(assembler.unresolved(), 0);
    assert_eq!(assembler.take(), vec![0x5b, 0x60, 0x00]);
}

#[test]
fn backward_reference_waits_for_declaration() {
    let mut assembler = Assembler::new();
    assert_eq!(assembler.push(Op::Push1("L".into())), Ok(0));
    assert_eq!(assembler.unresolved(), 1);
    assert_eq!(assembler.push(Op::JumpDest(Some("L".into()))), Ok(3));
    assert_eq!(assembler.unresolved(), 0);
    assert_eq!(assembler.label_address("L"), Some(2));
    assert_eq!(assembler.take(), vec![0x60, 0x02, 0x5b]);
}

#[test]
fn duplicate_label_is_rejected() {
    let mut assembler = Assembler::new();
    assert_eq!(assembler.push(Op::JumpDest(Some("L".into()))), Ok(1));
    assert_eq!(
        assembler.push(Op::JumpDest(Some("L".into()))),
        Err(Error::DuplicateLabel)
    );
    assert_eq!(assembler.code_len(), 1);
    assert_eq!(assembler.label_address("L"), Some(0));
    assert_eq!(assembler.take(), vec![0x5b]);
}

#[test]
fn duplicate_label_stops_push_all() {
    let ops = vec![
        Op::JumpDest(Some("L".into())),
        Op::Add,
        Op::JumpDest(Some("L".into())),
        Op::Stop,
    ];
    let mut assembler = Assembler::new();
    assert_eq!(assembler.push_all(ops), Err(Error::DuplicateLabel));
    assert_eq!(assembler.code_len(), 2);
    assert_eq!(assembler.take(), vec![0x5b, 0x01]);
}

#[test]
fn front_of_queue_blocks_later_instructions() {
    let mut assembler = Assembler::new();
    assert_eq!(assembler.push(Op::Push1("X".into())), Ok(0));
    assert_eq!(assembler.push(Op::Push1("Y".into())), Ok(0));
    assert_eq!(assembler.push(Op::JumpDest(Some("Y".into()))), Ok(0));
    assert_eq!(assembler.unresolved(), 3);
    assert_eq!(assembler.take(), Vec::<u8>::new());
    assert_eq!(assembler.push(Op::JumpDest(Some("X".into()))), Ok(6));
    assert_eq!(assembler.unresolved(), 0);
    assert_eq!(assembler.take(), vec![0x60, 0x05, 0x60, 0x04, 0x5b, 0x5b]);
}

#[test]
fn take_twice_gives_empty() {
    let mut assembler = Assembler::new();
    assembler.push_all(vec![Op::Add, Op::Stop]).unwrap();
    assert_eq!(assembler.take(), vec![0x01, 0x00]);
    assert_eq!(assembler.take(), Vec::<u8>::new());
    assert_eq!(assembler.code_len(), 2);
    assert_eq!(assembler.push(Op::Pop), Ok(1));
    assert_eq!(assembler.take(), vec![0x50]);
}

#[test]
fn forward_label_too_large_stays_pending() {
    let mut ops = vec![Op::Push1("far".into())];
    ops.extend(stops(300));
    ops.push(Op::JumpDest(Some("far".into())));
    let mut assembler = Assembler::new();
    assert_eq!(assembler.push_all(ops), Err(Error::LabelTooLarge));
    assert_eq!(assembler.label_address("far"), Some(302));
    assert_eq!(assembler.unresolved(), 302);
    assert_eq!(assembler.take(), Vec::<u8>::new());
}

#[test]
fn backward_label_too_large_is_not_emitted() {
    let mut ops = stops(300);
    ops.push(Op::JumpDest(Some("far".into())));
    let mut assembler = Assembler::new();
    assert_eq!(assembler.push_all(ops), Ok(301));
    assert_eq!(assembler.push(Op::Push1("far".into())), Err(Error::LabelTooLarge));
    assert_eq!(assembler.unresolved(), 1);
    assert_eq!(assembler.take().len(), 301);
    assert_eq!(assembler.push(Op::Add), Err(Error::LabelTooLarge));
    assert_eq!(assembler.unresolved(), 2);
}

#[test]
fn wide_operand_holds_large_address() {
    let mut ops = vec![Op::Push2("far".into())];
    ops.extend(stops(300));
    ops.push(Op::JumpDest(Some("far".into())));
    let mut assembler = Assembler::new();
    assert_eq!(assembler.push_all(ops), Ok(304));
    let out = assembler.take();
    assert_eq!(&out[0..3], &[0x61, 0x01, 0x2f]);
    assert_eq!(out[303], 0x5b);
}

#[test]
fn undeclared_label_is_left_unresolved() {
    let mut assembler = Assembler::new();
    assert_eq!(
        assembler.push_all(vec![Op::Add, Op::Push1("nowhere".into()), Op::Stop]),
        Ok(1)
    );
    assert_eq!(assembler.unresolved(), 2);
    assert_eq!(assembler.code_len(), 4);
}

#[test]
fn default_assembler_is_empty() {
    let mut assembler = Assembler::default();
    assert_eq!(assembler.code_len(), 0);
    assert_eq!(assembler.label_count(), 0);
    assert_eq!(assembler.push(Op::Jump), Ok(1));
    assert_eq!(assembler.take(), vec![0x56]);
}
