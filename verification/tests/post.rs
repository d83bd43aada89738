use manta_wallet::{
    id_string_from_field, parse_amount, transfer_posts, AssetId, TransferPost, TransferPostBody,
};

/// Decodes an identifier below 2^255.
fn decode(field: [u8; 32]) -> Result<AssetId, &'static str> {
    if field[31] < 0x80 {
        Ok(AssetId(field))
    } else {
        Err("not below")
    }
}

fn body(asset_id: Option<AssetId>) -> TransferPostBody<AssetId, u8, char, &'static str> {
    TransferPostBody {
        asset_id,
        sources: vec![0, u128::MAX],
        sender_posts: vec![1, 2],
        receiver_posts: vec!['a'],
        sinks: vec![42],
        validity_proof: "proof",
    }
}

#[test]
fn post_of_a_body_writes_its_amounts() {
    let id = AssetId::from_u32(8);
    let post = TransferPost::from(body(Some(id)));
    assert_eq!(
        post,
        TransferPost {
            asset_id: Some(id),
            sources: vec![
                String::from("0"),
                String::from("340282366920938463463374607431768211455"),
            ],
            sender_posts: vec![1, 2],
            receiver_posts: vec!['a'],
            sinks: vec![String::from("42")],
            validity_proof: "proof",
        }
    );
    assert_eq!(TransferPost::from(body(None)).asset_id, None);
}

#[test]
fn post_keeps_every_amount() {
    let body = body(None);
    let post = TransferPost::from(body.clone());
    let read = |values: &Vec<String>| -> Vec<u128> {
        values.iter().map(|value| parse_amount(value).unwrap()).collect()
    };
    assert_eq!(read(&post.sources), body.sources);
    assert_eq!(read(&post.sinks), body.sinks);
}

#[test]
fn post_is_built_from_its_parts() {
    let name = format!("USDC{}", "\0".repeat(28));
    let post = TransferPost::new(
        Some(name),
        decode,
        vec![String::from("10")],
        vec![3u8],
        vec!['b', 'c'],
        vec![],
        "proof",
    )
    .unwrap();
    let mut field = [0u8; 32];
    field[..4].copy_from_slice(b"USDC");
    assert_eq!(post.asset_id, Some(AssetId(field)));
    assert_eq!(post.sources, vec![String::from("10")]);
    assert_eq!(post.sender_posts, vec![3]);
    assert_eq!(post.receiver_posts, vec!['b', 'c']);
    assert_eq!(post.sinks, Vec::<String>::new());
    assert_eq!(post.validity_proof, "proof");
    let bare = TransferPost::new(None, decode, vec![], vec![3u8], vec!['b'], vec![], ());
    assert_eq!(bare.unwrap().asset_id, None);
}

#[test]
fn post_is_not_built_where_its_identifier_does_not_decode() {
    // A name of 32 bytes whose last byte is 0xa9.
    let name = format!("{}\u{e9}", "a".repeat(30));
    assert_eq!(name.len(), 32);
    let post = TransferPost::new(Some(name), decode, vec![], vec![3u8], vec!['b'], vec![], ());
    assert_eq!(post, Err("not below"));
    let never = |_: [u8; 32]| Err::<AssetId, u8>(1);
    let bare = TransferPost::new(None, never, vec![], vec![3u8], vec!['b'], vec![], ());
    assert!(bare.is_ok());
}

#[test]
fn post_of_a_body_is_rebuilt_from_its_parts() {
    let id = AssetId::from_u32(77);
    let post = TransferPost::from(body(Some(id)));
    let rebuilt = TransferPost::new(
        id_string_from_field(id.0),
        decode,
        post.sources.clone(),
        post.sender_posts.clone(),
        post.receiver_posts.clone(),
        post.sinks.clone(),
        post.validity_proof,
    );
    assert_eq!(rebuilt, Ok(post));
}

#[test]
fn posts_keep_the_order_of_their_bodies() {
    let mut second = body(Some(AssetId::from_u32(1)));
    second.sinks = vec![1, 2, 3];
    let posts = transfer_posts(vec![body(None), second.clone()]);
    assert_eq!(posts, vec![TransferPost::from(body(None)), TransferPost::from(second)]);
    assert_eq!(transfer_posts::<u8, u8, u8, u8>(vec![]), vec![]);
}
