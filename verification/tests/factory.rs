use liquidity_pool::identity::Identity;
use liquidity_pool::factory::{FactoryError, PoolFactory, PoolRecord, TokenFactory, TokenRecord};
use liquidity_pool::pool::LiquidityPool;

fn address(text: &str) -> Identity {
    Identity::from_str(text)
}

#[test]
fn only_the_administrator_sets_the_pool_code() {
    let mut factory = PoolFactory::new(address("admin"));
    assert_eq!(factory.admin(), address("admin"));
    assert_eq!(factory.get_pool_wasm_hash(), Err(FactoryError::HashNotSet));
    assert_eq!(
        factory.update_pool_wasm_hash(&address("mallory"), true, [1u8; 32]),
        Err(FactoryError::Unauthorized)
    );
    assert_eq!(
        factory.update_pool_wasm_hash(&address("admin"), false, [1u8; 32]),
        Err(FactoryError::Unauthorized)
    );
    assert_eq!(factory.get_pool_wasm_hash(), Err(FactoryError::HashNotSet));
    assert_eq!(factory.update_pool_wasm_hash(&address("admin"), true, [1u8; 32]), Ok(()));
    assert_eq!(factory.get_pool_wasm_hash(), Ok([1u8; 32]));
    assert_eq!(factory.update_pool_wasm_hash(&address("admin"), true, [2u8; 32]), Ok(()));
    assert_eq!(factory.get_pool_wasm_hash(), Ok([2u8; 32]));
}

#[test]
fn a_pair_gets_one_pool() {
    let mut factory = PoolFactory::new(address("admin"));
    let a = address("token-a");
    let b = address("token-b");
    assert_eq!(
        factory.create_pool(&a, &b, address("pool-1")),
        Err(FactoryError::HashNotSet)
    );
    factory.update_pool_wasm_hash(&address("admin"), true, [7u8; 32]).unwrap();

    assert_eq!(factory.get_pool(&a, &b), None);
    assert_eq!(factory.get_pool_count(), 0);
    assert_eq!(factory.create_pool(&a, &b, address("pool-1")), Ok([7u8; 32]));
    assert_eq!(factory.get_pool(&a, &b), Some(address("pool-1")));
    assert_eq!(factory.get_pool(&b, &a), None);
    assert_eq!(factory.get_pool_count(), 1);

    assert_eq!(
        factory.create_pool(&a, &b, address("pool-2")),
        Err(FactoryError::PoolExists)
    );
    assert_eq!(
        factory.create_pool(&a, &a, address("pool-2")),
        Err(FactoryError::IdenticalTokens)
    );
    assert_eq!(factory.get_pool(&a, &b), Some(address("pool-1")));
    assert_eq!(factory.get_pool_count(), 1);

    assert_eq!(factory.create_pool(&b, &a, address("pool-2")), Ok([7u8; 32]));
    assert_eq!(
        factory.create_pool(&a, &address("token-c"), address("pool-3")),
        Ok([7u8; 32])
    );
    assert_eq!(
        factory.get_all_pools(),
        vec![address("pool-1"), address("pool-2"), address("pool-3")]
    );
    assert_eq!(factory.get_pool_count(), 3);
    assert_eq!(factory.get_pool(&b, &a), Some(address("pool-2")));
    assert_eq!(factory.get_pool(&a, &address("token-c")), Some(address("pool-3")));
    assert_eq!(factory.records().len(), 3);
}

#[test]
fn a_pool_directory_comes_back_from_its_records() {
    let record = |a: &str, b: &str, pool: &str| PoolRecord {
        token_a: address(a),
        token_b: address(b),
        pool: address(pool),
    };
    let factory = PoolFactory::restore(
        address("admin"),
        Some([3u8; 32]),
        vec![record("a", "b", "pool-1"), record("b", "a", "pool-2"), record("a", "c", "pool-3")],
    )
    .unwrap();
    assert_eq!(factory.get_pool(&address("b"), &address("a")), Some(address("pool-2")));
    assert_eq!(factory.get_pool_count(), 3);
    assert_eq!(factory.get_pool_wasm_hash(), Ok([3u8; 32]));

    assert!(PoolFactory::restore(
        address("admin"),
        None,
        vec![record("a", "b", "pool-1"), record("c", "d", "pool-2"), record("a", "b", "pool-3")],
    )
    .is_none());
    assert!(
        PoolFactory::restore(address("admin"), None, vec![record("a", "a", "pool-1")]).is_none()
    );
    assert!(PoolFactory::restore(address("admin"), None, Vec::new()).is_some());
}

#[test]
fn only_the_administrator_sets_the_token_code() {
    let mut factory = TokenFactory::new(address("admin"));
    assert_eq!(factory.admin(), address("admin"));
    assert_eq!(factory.get_pool_wasm_hash(), Err(FactoryError::HashNotSet));
    assert_eq!(
        factory.update_pool_wasm_hash(&address("mallory"), true, [1u8; 32]),
        Err(FactoryError::Unauthorized)
    );
    assert_eq!(
        factory.update_pool_wasm_hash(&address("admin"), false, [1u8; 32]),
        Err(FactoryError::Unauthorized)
    );
    assert_eq!(factory.update_pool_wasm_hash(&address("admin"), true, [1u8; 32]), Ok(()));
    assert_eq!(factory.get_pool_wasm_hash(), Ok([1u8; 32]));
}

#[test]
fn tokens_are_recorded_with_their_metadata() {
    let mut factory = TokenFactory::new(address("admin"));
    assert_eq!(
        factory.create_token(address("token-1"), String::from("first")),
        Err(FactoryError::HashNotSet)
    );
    assert!(factory.get_all_deployed_tokens().is_empty());
    factory.update_pool_wasm_hash(&address("admin"), true, [5u8; 32]).unwrap();

    assert_eq!(
        factory.create_token(address("token-1"), String::from("TTKLKDJFDFJKJKJFDFDF")),
        Ok([5u8; 32])
    );
    assert_eq!(
        factory.create_token(address("token-2"), String::from("second")),
        Ok([5u8; 32])
    );
    assert_eq!(
        factory.get_all_deployed_tokens(),
        vec![address("token-1"), address("token-2")]
    );
    assert_eq!(
        factory.get_token_metadata(&address("token-1")),
        Ok(String::from("TTKLKDJFDFJKJKJFDFDF"))
    );
    assert_eq!(factory.get_token_metadata(&address("token-2")), Ok(String::from("second")));
    assert_eq!(
        factory.get_token_metadata(&address("token-3")),
        Err(FactoryError::MetadataNotSet)
    );

    factory.create_token(address("token-1"), String::from("again")).unwrap();
    assert_eq!(factory.get_token_metadata(&address("token-1")), Ok(String::from("again")));
    assert_eq!(factory.get_all_deployed_tokens().len(), 3);
    assert_eq!(factory.records().len(), 3);
}

#[test]
fn a_token_directory_comes_back_from_its_records() {
    let factory = TokenFactory::restore(
        address("admin"),
        Some([9u8; 32]),
        vec![
            TokenRecord { token: address("t1"), metadata: String::from("m1") },
            TokenRecord { token: address("t2"), metadata: String::from("m2") },
        ],
    );
    assert_eq!(factory.get_all_deployed_tokens(), vec![address("t1"), address("t2")]);
    assert_eq!(factory.get_token_metadata(&address("t2")), Ok(String::from("m2")));
    assert_eq!(factory.get_pool_wasm_hash(), Ok([9u8; 32]));
}

#[test]
fn factory_errors_describe_themselves() {
    assert_eq!(FactoryError::Unauthorized.message(), "Unauthorized");
    assert_eq!(FactoryError::HashNotSet.message(), "Wasm hash not set");
    assert_eq!(FactoryError::IdenticalTokens.message(), "Tokens must be different");
    assert_eq!(FactoryError::PoolExists.message(), "Pool already exists for pair");
    assert_eq!(FactoryError::MetadataNotSet.message(), "Token metadata not set");
    assert_eq!(FactoryError::Full.message(), "Directory is full");
}

#[test]
fn test_pool_factory() {
    let user = address("user");
    let mut poolfactory = PoolFactory::new(user.clone());

    let token_a = address("token-a");
    let token_b = address("token-b");
    let wasm_hash = [0; 32];
    poolfactory.update_pool_wasm_hash(&user, true, wasm_hash).unwrap();

    let deployed = address("pool");
    poolfactory.create_pool(&token_a, &token_b, deployed.clone()).unwrap();
    let pool_addr = poolfactory.get_pool(&token_a, &token_b);
    assert!(pool_addr.is_some());
    assert_eq!(pool_addr.unwrap(), deployed);

    let client = LiquidityPool::new(
        token_a.clone(),
        token_b.clone(),
        String::from("LPToken"),
        String::from("LP"),
    )
    .unwrap();
    assert_eq!(client.get_token_a(), token_a);
    assert_eq!(client.get_token_b(), token_b);
}

#[test]
fn test_token_factory() {
    let admin = address("admin");
    let user = address("user");
    let mut factory = TokenFactory::new(admin.clone());
    factory.update_pool_wasm_hash(&admin, true, [0; 32]).unwrap();

    let token_addr = address("token");
    factory
        .create_token(token_addr.clone(), String::from("TTKLKDJFDFJKJKJFDFDF"))
        .unwrap();

    assert!(token_addr != user);
    let deployed_tokens = factory.get_all_deployed_tokens();
    assert_eq!(deployed_tokens.len(), 1);
    assert_eq!(deployed_tokens.get(0).unwrap(), &token_addr);

    assert!(factory.records().iter().any(|record| record.token == token_addr));
}

#[test]
fn test_get_all_deployed_tokens() {
    let admin = address("admin");
    let mut factory = TokenFactory::new(admin.clone());
    factory.update_pool_wasm_hash(&admin, true, [0; 32]).unwrap();

    let deployed_tokens = factory.get_all_deployed_tokens();
    assert_eq!(deployed_tokens.len(), 0);

    let token_addr1 = address("token-1");
    factory
        .create_token(token_addr1.clone(), String::from("TTKLKDJFDFJKJKJFDFDF"))
        .unwrap();
    assert!(factory.records().iter().any(|record| record.token == token_addr1));

    let deployed_tokens = factory.get_all_deployed_tokens();
    assert_eq!(deployed_tokens.len(), 1);
    assert_eq!(deployed_tokens.get(0).unwrap(), &token_addr1);

    let token_addr2 = address("token-2");
    factory
        .create_token(token_addr2.clone(), String::from("TTKLKDJFDFJKJKJFDFDF"))
        .unwrap();
    assert!(factory.records().iter().any(|record| record.token == token_addr2));

    let deployed_tokens = factory.get_all_deployed_tokens();
    assert_eq!(deployed_tokens.len(), 2);
    assert_eq!(deployed_tokens.get(0).unwrap(), &token_addr1);
    assert_eq!(deployed_tokens.get(1).unwrap(), &token_addr2);
}
