use shielded_sync::amount::{is_amount_required, AssetType, Component, I128Sum};
use shielded_sync::ibc::{memo_from_bytes, memo_to_bytes};

fn sum(parts: &[(u8, i128)]) -> I128Sum {
    I128Sum {
        components: parts
            .iter()
            .map(|(a, v)| Component { asset_type: AssetType([*a; 32]), value: *v })
            .collect(),
    }
}

#[test]
fn a_note_is_required_when_it_closes_a_gap() {
    // the target holds more of asset 1 than the source, and the note is of asset 1
    assert!(is_amount_required(&sum(&[(1, 5)]), &sum(&[(1, 9)]), &sum(&[(1, 2)])));
    assert!(is_amount_required(&sum(&[]), &sum(&[(1, 1)]), &sum(&[(2, 7), (1, 1)])));
    assert!(is_amount_required(&sum(&[(1, -3)]), &sum(&[]), &sum(&[(1, 1)])));
    assert!(is_amount_required(
        &sum(&[(1, i128::MIN)]),
        &sum(&[(1, i128::MAX)]),
        &sum(&[(1, i128::MAX)])
    ));
}

#[test]
fn a_note_is_not_required_when_it_closes_no_gap() {
    assert!(!is_amount_required(&sum(&[]), &sum(&[]), &sum(&[])));
    assert!(!is_amount_required(&sum(&[(1, 5)]), &sum(&[(1, 9)]), &sum(&[])));
    // the note is of another asset
    assert!(!is_amount_required(&sum(&[(1, 5)]), &sum(&[(1, 9)]), &sum(&[(2, 2)])));
    // the gap is closed, or the other way round
    assert!(!is_amount_required(&sum(&[(1, 9)]), &sum(&[(1, 9)]), &sum(&[(1, 2)])));
    assert!(!is_amount_required(&sum(&[(1, 10)]), &sum(&[(1, 9)]), &sum(&[(1, 2)])));
    // the note takes away
    assert!(!is_amount_required(&sum(&[(1, 5)]), &sum(&[(1, 9)]), &sum(&[(1, -2)])));
    assert!(!is_amount_required(&sum(&[(1, 5)]), &sum(&[(1, 9)]), &sum(&[(1, 0)])));
    assert!(!is_amount_required(
        &sum(&[(1, i128::MAX)]),
        &sum(&[(1, i128::MIN)]),
        &sum(&[(1, i128::MAX)])
    ));
}

#[test]
fn the_first_value_of_an_asset_counts() {
    let s = sum(&[(1, 4), (2, 0), (1, 100), (3, -6)]);
    assert_eq!(s.value(AssetType([1; 32])), 4);
    assert_eq!(s.value(AssetType([2; 32])), 0);
    assert_eq!(s.value(AssetType([3; 32])), -6);
    assert_eq!(s.value(AssetType([4; 32])), 0);
    assert_eq!(I128Sum::zero().value(AssetType([1; 32])), 0);
    assert!(!is_amount_required(&sum(&[]), &sum(&[(1, 1)]), &sum(&[(1, 0), (1, 5)])));
    assert!(is_amount_required(&sum(&[]), &sum(&[(1, 1)]), &sum(&[(1, 5), (1, 0)])));
}

#[test]
fn memos_are_written_in_upper_case_hexadecimal() {
    assert_eq!(memo_from_bytes(&vec![]), "");
    assert_eq!(memo_from_bytes(&vec![0xde, 0xad, 0xbe, 0xef]), "DEADBEEF");
    assert_eq!(memo_from_bytes(&vec![0x00, 0x0f, 0xf0, 0x9a]), "000FF09A");
    assert_eq!(memo_to_bytes("DEADBEEF"), Ok(vec![0xde, 0xad, 0xbe, 0xef]));
    assert_eq!(memo_to_bytes(""), Ok(vec![]));
    assert_eq!(memo_to_bytes("000FF09A"), Ok(vec![0x00, 0x0f, 0xf0, 0x9a]));
    for bad in ["deadbeef", "DEADBEE", "DEADBEEG", "DE AD", "0x00", "DEADBEEF\n", "Ä0"] {
        assert_eq!(memo_to_bytes(bad), Err(shielded_sync::ibc::Error::DecodingHex));
    }
    let all: Vec<u8> = (0..=255).collect();
    assert_eq!(memo_to_bytes(&memo_from_bytes(&all)), Ok(all));
}
