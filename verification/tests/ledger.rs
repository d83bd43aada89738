use std::cell::RefCell;

use manta_wallet::{
    EmptyHeader, HybridCiphertext, LedgerError, LightIncomingNote, PolkadotJsLedger,
    RawEncryptedNote, RawPullResponse, ReadResponse, SyncData,
};
use parity_scale_codec::{Decode, Encode, Error};

/// Decodes 32 bytes in the SCALE encoding.
fn decode<T: Decode>(bytes: [u8; 32]) -> Result<T, Error> {
    T::decode(&mut bytes.as_slice())
}

/// The SCALE encoding of `value`, filled up with zeros.
fn encode<T: Encode>(value: T) -> [u8; 32] {
    let mut bytes = [0u8; 32];
    let encoded = value.encode();
    bytes[..encoded.len()].copy_from_slice(&encoded);
    bytes
}

fn response() -> RawPullResponse<&'static str> {
    RawPullResponse {
        should_continue: true,
        utxo_note_data: vec![(encode(7u64), "first"), (encode(9u64), "second")],
        nullifier_data: vec![encode(true), encode(false), encode(true)],
    }
}

#[test]
fn ledger_holds_its_interface() {
    assert_eq!(PolkadotJsLedger::new(5).0, 5);
    assert_eq!(LedgerError, LedgerError);
}

#[test]
fn note_is_decoded() {
    let raw = RawEncryptedNote {
        ephemeral_public_key: encode((1u64, 2u32)),
        ciphertext: [9u8; 96],
    };
    assert_eq!(
        LightIncomingNote::try_from(raw, decode::<(u64, u32)>),
        Ok(LightIncomingNote {
            header: EmptyHeader,
            ciphertext: HybridCiphertext {
                ephemeral_public_key: (1, 2),
                ciphertext: [9u8; 96],
            },
        })
    );
}

#[test]
fn note_with_a_bad_key_gives_the_error_of_the_decoder() {
    let raw = RawEncryptedNote {
        ephemeral_public_key: [2u8; 32],
        ciphertext: [9u8; 96],
    };
    let error = decode::<bool>([2u8; 32]).unwrap_err();
    assert_eq!(LightIncomingNote::try_from(raw, decode::<bool>), Err(error));
}

#[test]
fn response_is_decoded_in_order() {
    assert_eq!(
        ReadResponse::try_from(response(), decode::<u64>, decode::<bool>),
        Ok(ReadResponse {
            should_continue: true,
            data: SyncData {
                utxo_note_data: vec![(7, "first"), (9, "second")],
                nullifier_data: vec![true, false, true],
            },
        })
    );
    let empty = RawPullResponse::<()> {
        should_continue: false,
        utxo_note_data: vec![],
        nullifier_data: vec![],
    };
    assert_eq!(
        ReadResponse::try_from(empty, decode::<u64>, decode::<bool>),
        Ok(ReadResponse {
            should_continue: false,
            data: SyncData { utxo_note_data: vec![], nullifier_data: vec![] },
        })
    );
}

#[test]
fn one_bad_output_fails_the_response() {
    let mut raw = response();
    raw.utxo_note_data = vec![(encode(true), "first"), ([3u8; 32], "second")];
    assert_eq!(ReadResponse::try_from(raw, decode::<bool>, decode::<bool>), Err(()));
}

#[test]
fn one_bad_nullifier_fails_the_response() {
    let mut raw = response();
    raw.nullifier_data[2] = [3u8; 32];
    assert_eq!(ReadResponse::try_from(raw, decode::<u64>, decode::<bool>), Err(()));
}

#[test]
fn decoding_stops_at_the_first_error() {
    let seen = RefCell::new(Vec::new());
    let decode_utxo = |bytes: [u8; 32]| {
        seen.borrow_mut().push(("utxo", bytes[0]));
        if bytes[0] == 9 {
            Err(())
        } else {
            Ok(bytes[0])
        }
    };
    let decode_nullifier = |bytes: [u8; 32]| -> Result<u8, ()> {
        seen.borrow_mut().push(("nullifier", bytes[0]));
        Ok(bytes[0])
    };
    let mut raw = response();
    raw.utxo_note_data.push((encode(8u64), "third"));
    assert_eq!(ReadResponse::try_from(raw, &decode_utxo, &decode_nullifier), Err(()));
    assert_eq!(*seen.borrow(), vec![("utxo", 7), ("utxo", 9)]);
}
