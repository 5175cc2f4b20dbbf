use journaled::error::JournalError;
use journaled::field::Field;
use journaled::priority::Priority;
use journaled::wire::encode_entries;
use journaled::wire::encoded_len;
use journaled::wire::required_capacity;

#[test]
fn test_required_capacity() {
    assert_eq!(required_capacity(""), 10);
    assert_eq!(required_capacity("t\nest"), 15);
}

#[test]
fn test_encoded_len() {
    assert_eq!(encoded_len(""), vec![0, 0, 0, 0, 0, 0, 0, 0]);
    assert_eq!(encoded_len("abc"), vec![3, 0, 0, 0, 0, 0, 0, 0]);
    let long = "x".repeat(300);
    assert_eq!(encoded_len(long.as_str()), vec![44, 1, 0, 0, 0, 0, 0, 0]);
}

#[test]
fn test_encode_empty_entry() {
    let entries: [(Field, &str); 0] = [];
    assert_eq!(encode_entries(&entries), Vec::<u8>::new());
}

#[test]
fn test_encode_single_pair_exact_bytes() {
    let field = Field::validate("A").unwrap();
    let data = encode_entries(&[(field, "x")]);
    let expected = [
        b'A', b'\n', 1, 0, 0, 0, 0, 0, 0, 0, b'x', b'\n',
    ];
    assert_eq!(data, expected.to_vec());
    assert_eq!(data.len(), 1 + 1 + 10);
}

#[test]
fn test_encode_overhead_independent_of_content() {
    let field = Field::validate("F").unwrap();
    let empty = encode_entries(&[(field, "")]);
    let newlined = encode_entries(&[(field, "t\nest")]);
    assert_eq!(empty.len(), 1 + 10);
    assert_eq!(newlined.len(), 1 + 5 + 10);
}

fn decode(bytes: &[u8]) -> Option<Vec<(Vec<u8>, Vec<u8>)>> {
    let mut rest = bytes;
    let mut out = Vec::new();
    while !rest.is_empty() {
        let nl = rest.iter().position(|b| *b == b'\n')?;
        if nl == 0 {
            return None;
        }
        let name = rest[..nl].to_vec();
        rest = &rest[nl + 1..];
        if rest.len() < 8 {
            return None;
        }
        let mut len_bytes = [0u8; 8];
        len_bytes.copy_from_slice(&rest[..8]);
        let vlen = u64::from_le_bytes(len_bytes) as usize;
        rest = &rest[8..];
        if rest.len() < vlen + 1 || rest[vlen] != b'\n' {
            return None;
        }
        let value = rest[..vlen].to_vec();
        rest = &rest[vlen + 1..];
        out.push((name, value));
    }
    Some(out)
}

#[test]
fn test_encode_decode_round_trip() {
    let message = Field::validate("MESSAGE").unwrap();
    let other = Field::validate("X_2").unwrap();
    let entries = [
        (message, "first"),
        (other, "line\nbreak and \u{7f} bytes"),
        (message, "first"),
        (other, ""),
    ];
    let data = encode_entries(&entries);
    let decoded = decode(&data).expect("wire image must parse");
    assert_eq!(decoded.len(), entries.len());
    for (got, want) in decoded.iter().zip(entries.iter()) {
        assert_eq!(got.0, want.0.as_str().as_bytes().to_vec());
        assert_eq!(got.1, want.1.as_bytes().to_vec());
    }
}

#[test]
fn test_priority_digits() {
    let levels = [
        Priority::Emergency,
        Priority::Alert,
        Priority::Critical,
        Priority::Error,
        Priority::Warning,
        Priority::Notice,
        Priority::Info,
        Priority::Debug,
    ];
    let digits = ["0", "1", "2", "3", "4", "5", "6", "7"];
    for (level, digit) in levels.iter().zip(digits.iter()) {
        assert_eq!(level.as_str(), *digit);
        let (field, value) = level.as_value();
        assert_eq!(field.as_str(), "PRIORITY");
        assert_eq!(value, *digit);
    }
    for i in 0..levels.len() {
        for j in 0..levels.len() {
            if i != j {
                assert_ne!(levels[i].as_str(), levels[j].as_str());
            }
        }
    }
}

#[test]
fn test_error_kinds() {
    assert_eq!(JournalError::Os(5).errno(), Some(5));
    assert_eq!(JournalError::WriteStalled.errno(), None);
}
