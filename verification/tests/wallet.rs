use manta_wallet::{
    Asset, AssetId, BalanceState, Call, PolkadotJsLedger, Request, RequestKind, Signer,
    TransferPost, TransferPostBody, Wallet,
};

type TestWallet = Wallet<(&'static str, u8), &'static str, u32>;
type TestCall = Call<&'static str, u8, &'static str>;

fn balances(entries: &[(u32, u128)]) -> BalanceState {
    let mut balances = BalanceState::new();
    for (id, value) in entries {
        balances.set(AssetId::from_u32(*id), *value);
    }
    balances
}

fn wallet(entries: &[(u32, u128)]) -> TestWallet {
    let signer = Signer::new(String::from("http://localhost"), |_| Ok::<u8, ()>(3)).unwrap();
    Wallet::new(PolkadotJsLedger::new("ledger"), signer, |ledger, client| {
        ((ledger.0, client), balances(entries), 100)
    })
}

fn asset(id: u32, value: &str) -> Asset {
    Asset {
        id: AssetId::from_u32(id),
        value: String::from(value),
    }
}

#[test]
fn signer_is_there_where_the_connection_is() {
    let connect = |url: String| {
        if url.starts_with("http") {
            Ok(url.len())
        } else {
            Err("no url")
        }
    };
    assert_eq!(Signer::new(String::from("http://a"), connect).unwrap().0, 8);
    assert!(Signer::new(String::from("a"), connect).is_none());
}

#[test]
fn wallet_starts_with_what_it_is_connected_to() {
    let wallet = wallet(&[(1, 50)]);
    assert_eq!(wallet.backend, ("ledger", 3));
    assert_eq!(*wallet.network(), None);
    assert!(!wallet.is_running());
    assert_eq!(*wallet.checkpoint(), 100);
    assert_eq!(wallet.assets().get(&AssetId::from_u32(1)), Some(50));
}

#[test]
fn balance_is_a_numeral() {
    let wallet = wallet(&[(1, 50), (0x0001_0000, u128::MAX)]);
    assert_eq!(wallet.balance(1), "50");
    assert_eq!(wallet.balance(0x0001_0000), "340282366920938463463374607431768211455");
    assert_eq!(wallet.balance(2), "0");
}

#[test]
fn wallet_contains_up_to_its_balance() {
    let wallet = wallet(&[(1, 50), (2, u128::MAX)]);
    assert!(wallet.contains(asset(1, "0")));
    assert!(wallet.contains(asset(1, "49")));
    assert!(wallet.contains(asset(1, "50")));
    assert!(!wallet.contains(asset(1, "51")));
    assert!(wallet.contains(asset(2, "340282366920938463463374607431768211455")));
    assert!(!wallet.contains(asset(2, "340282366920938463463374607431768211456")));
    assert!(wallet.contains(asset(3, "0")));
    assert!(!wallet.contains(asset(3, "1")));
    assert!(!wallet.contains(asset(1, "")));
    assert!(!wallet.contains(asset(1, "ten")));
    assert!(wallet.contains(asset(1, &wallet.balance(1))));
}

#[test]
fn scheduling_a_call_tells_what_is_asked_and_where() {
    let mut wallet = wallet(&[]);
    let call: TestCall = wallet.restart("dolphin");
    assert_eq!(call, Call { request: Request::Restart, network: "dolphin" });
    let call: TestCall = wallet.sync("dolphin");
    assert_eq!(call, Call { request: Request::Sync, network: "dolphin" });
    let call: TestCall = wallet.sync_partial("calamari");
    assert_eq!(call, Call { request: Request::SyncPartial, network: "calamari" });
    let call: TestCall = wallet.sign("pay", Some(1), "calamari");
    assert_eq!(call, Call { request: Request::Sign("pay", Some(1)), network: "calamari" });
    let call: TestCall = wallet.post("pay", None, "manta");
    assert_eq!(call, Call { request: Request::Post("pay", None), network: "manta" });
    let call: TestCall = wallet.receiving_keys("manta");
    assert_eq!(call, Call { request: Request::Address, network: "manta" });
    assert_eq!(*wallet.network(), None);
    assert!(!wallet.is_running());
}

#[test]
fn call_runs_on_its_network_and_leaves_none() {
    let mut wallet = wallet(&[(1, 50)]);
    let call: TestCall = wallet.sync("dolphin");
    let other: TestCall = wallet.sync("calamari");
    assert_eq!(wallet.begin(call), Request::Sync);
    assert_eq!(*wallet.network(), Some("dolphin"));
    assert!(wallet.is_running());
    assert_eq!(wallet.complete(Ok("done"), balances(&[(1, 60), (2, 1)]), 101), Ok("done"));
    assert_eq!(*wallet.network(), None);
    assert!(!wallet.is_running());
    assert_eq!(wallet.balance(1), "60");
    assert_eq!(wallet.balance(2), "1");
    assert_eq!(*wallet.checkpoint(), 101);
    wallet.begin(other);
    assert_eq!(*wallet.network(), Some("calamari"));
}

#[test]
fn call_that_fails_leaves_no_network_either() {
    let mut wallet = wallet(&[(1, 50)]);
    let call: TestCall = wallet.post("pay", None, "dolphin");
    wallet.begin(call);
    assert_eq!(
        wallet.complete::<()>(Err(String::from("Timeout(3)")), balances(&[(1, 50)]), 100),
        Err(String::from("Error during asynchronous call: Timeout(3)"))
    );
    assert_eq!(*wallet.network(), None);
    assert!(!wallet.is_running());
    assert_eq!(wallet.balance(1), "50");
}

#[test]
fn signing_gives_the_posts() {
    let body = TransferPostBody {
        asset_id: Some(9u8),
        sources: vec![5],
        sender_posts: vec![1u8],
        receiver_posts: vec![2u8],
        sinks: vec![],
        validity_proof: (),
    };
    let mut wallet = wallet(&[(1, 50)]);
    let call: TestCall = wallet.sign("pay", None, "dolphin");
    assert_eq!(wallet.begin(call), Request::Sign("pay", None));
    assert_eq!(*wallet.network(), Some("dolphin"));
    assert_eq!(
        wallet.complete_sign(Ok(vec![body.clone()])),
        Ok(vec![TransferPost::from(body)])
    );
    assert_eq!(*wallet.network(), None);
    let call: TestCall = wallet.sign("pay", None, "dolphin");
    wallet.begin(call);
    assert_eq!(
        wallet.complete_sign::<u8, u8, u8, u8>(Err(String::from("Refused"))),
        Err(String::from("Error during asynchronous call: Refused"))
    );
    assert_eq!(*wallet.network(), None);
    assert_eq!(wallet.balance(1), "50");
    assert_eq!(*wallet.checkpoint(), 100);
}

#[test]
fn call_may_be_scheduled_while_another_runs() {
    let mut wallet = wallet(&[(1, 50)]);
    let first: TestCall = wallet.sync("dolphin");
    wallet.begin(first);
    let second: TestCall = wallet.post("pay", None, "calamari");
    assert_eq!(*wallet.network(), Some("dolphin"));
    assert_eq!(wallet.running(), Some(RequestKind::Sync));
    assert_eq!(wallet.complete(Ok(1), balances(&[(1, 70)]), 102), Ok(1));
    assert_eq!(wallet.balance(1), "70");
    assert_eq!(wallet.begin(second), Request::Post("pay", None));
    assert_eq!(*wallet.network(), Some("calamari"));
    assert_eq!(wallet.running(), Some(RequestKind::Post));
    assert_eq!(wallet.complete(Ok(2), balances(&[(1, 60)]), 103), Ok(2));
    assert_eq!(wallet.running(), None);
    assert_eq!(wallet.balance(1), "60");
}

#[test]
fn address_leaves_balances_and_checkpoint() {
    let mut wallet = wallet(&[(1, 50)]);
    let call: TestCall = wallet.receiving_keys("dolphin");
    wallet.begin(call);
    assert_eq!(wallet.complete(Ok("keys"), balances(&[(1, 60)]), 101), Ok("keys"));
    assert_eq!(wallet.balance(1), "50");
    assert_eq!(*wallet.checkpoint(), 100);
    assert_eq!(*wallet.network(), None);
}

#[test]
fn requests_have_their_kinds() {
    let kinds = [
        (Request::Restart, RequestKind::Restart),
        (Request::Sync, RequestKind::Sync),
        (Request::SyncPartial, RequestKind::SyncPartial),
        (Request::Sign(1u8, Some(2u8)), RequestKind::Sign),
        (Request::Post(1, None), RequestKind::Post),
        (Request::Address, RequestKind::Address),
    ];
    for (request, kind) in kinds {
        assert_eq!(request.kind(), kind);
    }
}

#[test]
fn check_tells_the_kind_or_the_missing_asset() {
    let wallet = wallet(&[]);
    let execute = |backend: &(&str, u8), transaction: &u128| {
        if *transaction <= backend.1 as u128 {
            Ok(("withdraw", *transaction))
        } else {
            Err((AssetId::from_u32(4), *transaction))
        }
    };
    assert_eq!(wallet.check(&3, execute), Ok(("withdraw", 3)));
    assert_eq!(wallet.check(&1200, execute), Err(asset(4, "1200")));
}
