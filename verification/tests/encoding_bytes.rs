use multisig_blockchain::digest::hash_hex;
use multisig_blockchain::encoding::{
    encode_block_preimage, encode_id_preimage, put_count, put_text, put_texts, put_time, put_u64,
};
use multisig_blockchain::{Block, Timestamp, Transaction, TransactionType};

#[test]
fn sha256_hex_of_known_inputs() {
    assert_eq!(
        hash_hex(&b"abc".to_vec()),
        "ba7816bf8f01cfea414140de5dae2223b00361a396177a9cb410ff61f20015ad"
    );
    assert_eq!(
        hash_hex(&Vec::new()),
        "e3b0c44298fc1c149afbf4c8996fb92427ae41e4649b934ca495991b7852b855"
    );
}

#[test]
fn integers_are_eight_bytes_least_significant_first() {
    let mut out = vec![9u8];
    put_u64(&mut out, 0x0102_0304_0506_0708);
    assert_eq!(out, vec![9, 8, 7, 6, 5, 4, 3, 2, 1]);
    let mut count = Vec::new();
    put_count(&mut count, 258);
    assert_eq!(count, vec![2, 1, 0, 0, 0, 0, 0, 0]);
}

#[test]
fn text_is_its_utf8_length_then_its_utf8_bytes() {
    let mut out = Vec::new();
    put_text(&mut out, &"hé".to_string());
    assert_eq!(out, vec![3, 0, 0, 0, 0, 0, 0, 0, b'h', 0xc3, 0xa9]);
    let mut empty = Vec::new();
    put_text(&mut empty, &String::new());
    assert_eq!(empty, vec![0u8; 8]);
}

#[test]
fn texts_follow_one_another_in_order() {
    let mut out = Vec::new();
    put_texts(&mut out, &vec!["a".to_string(), "bc".to_string()]);
    assert_eq!(
        out,
        vec![1, 0, 0, 0, 0, 0, 0, 0, b'a', 2, 0, 0, 0, 0, 0, 0, 0, b'b', b'c']
    );
    let mut none = vec![7u8];
    put_texts(&mut none, &Vec::new());
    assert_eq!(none, vec![7u8]);
}

#[test]
fn timestamp_is_shifted_seconds_then_nanoseconds() {
    let mut out = Vec::new();
    put_time(&mut out, Timestamp::new(1, 2));
    assert_eq!(out, vec![1, 0, 0, 0, 0, 0, 0, 0x80, 2, 0, 0, 0]);
    let mut lowest = Vec::new();
    put_time(&mut lowest, Timestamp::new(i64::MIN, 0));
    assert_eq!(lowest, vec![0u8; 12]);
    let mut highest = Vec::new();
    put_time(&mut highest, Timestamp::new(i64::MAX, u32::MAX));
    assert_eq!(highest, vec![0xffu8; 12]);
    let mut before_epoch = Vec::new();
    put_time(&mut before_epoch, Timestamp::new(-1, 0));
    assert_eq!(before_epoch, vec![0xff, 0xff, 0xff, 0xff, 0xff, 0xff, 0xff, 0x7f, 0, 0, 0, 0]);
}

#[test]
fn id_preimage_of_a_standard_transfer() {
    let transfer =
        TransactionType::Standard { from: "a".to_string(), to: "b".to_string(), amount: 258 };
    let bytes = encode_id_preimage(&transfer, Timestamp::new(1, 2), 3);
    let mut expected = vec![1u8, 0];
    expected.extend([1, 0, 0, 0, 0, 0, 0, 0, b'a']);
    expected.extend([1, 0, 0, 0, 0, 0, 0, 0, b'b']);
    expected.extend([2, 1, 0, 0, 0, 0, 0, 0]);
    expected.extend([1, 0, 0, 0, 0, 0, 0, 0x80, 2, 0, 0, 0]);
    expected.extend([3, 0, 0, 0, 0, 0, 0, 0]);
    assert_eq!(bytes, expected);
}

#[test]
fn id_preimage_of_a_multisig_transfer() {
    let transfer = TransactionType::MultiSig {
        from: "v".to_string(),
        to: "d".to_string(),
        amount: 5,
        required_signatures: 2,
        signatures: vec!["x".to_string(), "yz".to_string()],
    };
    let bytes = encode_id_preimage(&transfer, Timestamp::new(0, 0), 0);
    let mut expected = vec![1u8, 1];
    expected.extend([1, 0, 0, 0, 0, 0, 0, 0, b'v']);
    expected.extend([1, 0, 0, 0, 0, 0, 0, 0, b'd']);
    expected.extend([5, 0, 0, 0, 0, 0, 0, 0]);
    expected.extend([2, 0, 0, 0, 0, 0, 0, 0]);
    expected.extend([2, 0, 0, 0, 0, 0, 0, 0]);
    expected.extend([1, 0, 0, 0, 0, 0, 0, 0, b'x']);
    expected.extend([2, 0, 0, 0, 0, 0, 0, 0, b'y', b'z']);
    expected.extend([0, 0, 0, 0, 0, 0, 0, 0x80, 0, 0, 0, 0]);
    expected.extend([0, 0, 0, 0, 0, 0, 0, 0]);
    assert_eq!(bytes, expected);
}

#[test]
fn id_preimage_of_a_time_locked_transfer() {
    let transfer = TransactionType::TimeLocked {
        from: "a".to_string(),
        to: "b".to_string(),
        amount: 1,
        unlock_time: Timestamp::new(2, 3),
    };
    let bytes = encode_id_preimage(&transfer, Timestamp::new(0, 0), 9);
    let mut expected = vec![1u8, 2];
    expected.extend([1, 0, 0, 0, 0, 0, 0, 0, b'a']);
    expected.extend([1, 0, 0, 0, 0, 0, 0, 0, b'b']);
    expected.extend([1, 0, 0, 0, 0, 0, 0, 0]);
    expected.extend([2, 0, 0, 0, 0, 0, 0, 0x80, 3, 0, 0, 0]);
    expected.extend([0, 0, 0, 0, 0, 0, 0, 0x80, 0, 0, 0, 0]);
    expected.extend([9, 0, 0, 0, 0, 0, 0, 0]);
    assert_eq!(bytes, expected);
}

#[test]
fn block_preimage_covers_every_field_but_the_hash() {
    let at = Timestamp::new(0, 0);
    let transfer =
        TransactionType::Standard { from: "a".to_string(), to: "b".to_string(), amount: 1 };
    let mut tx = Transaction::new_at(transfer, at, 4);
    tx.id = "id".to_string();
    let mut block = Block::new_at(7, Timestamp::new(1, 2), vec![tx], "p".to_string());
    block.nonce = 6;
    let bytes = encode_block_preimage(&block);
    let mut expected = vec![1u8];
    expected.extend([7, 0, 0, 0, 0, 0, 0, 0]);
    expected.extend([1, 0, 0, 0, 0, 0, 0, 0x80, 2, 0, 0, 0]);
    expected.extend([1, 0, 0, 0, 0, 0, 0, 0]);
    expected.extend([2, 0, 0, 0, 0, 0, 0, 0, b'i', b'd']);
    expected.push(0);
    expected.extend([1, 0, 0, 0, 0, 0, 0, 0, b'a']);
    expected.extend([1, 0, 0, 0, 0, 0, 0, 0, b'b']);
    expected.extend([1, 0, 0, 0, 0, 0, 0, 0]);
    expected.extend([0, 0, 0, 0, 0, 0, 0, 0x80, 0, 0, 0, 0]);
    expected.extend([4, 0, 0, 0, 0, 0, 0, 0]);
    expected.extend([1, 0, 0, 0, 0, 0, 0, 0, b'p']);
    expected.extend([6, 0, 0, 0, 0, 0, 0, 0]);
    assert_eq!(bytes, expected);

    block.hash = "anything".to_string();
    assert_eq!(encode_block_preimage(&block), expected);
}
