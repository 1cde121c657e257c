use http_tunnel::dns::{ResolveError, SimpleDnsResolver};

#[test]
fn select_address_takes_the_first_result() {
    let r = SimpleDnsResolver::new();
    assert_eq!(r.select_address(vec![10u32, 20u32, 30u32]), Ok(10u32));
    assert_eq!(r.select_address(vec![5u32]), Ok(5u32));
}

#[test]
fn select_address_of_nothing_is_no_address() {
    let r = SimpleDnsResolver::new();
    let empty: Vec<u32> = Vec::new();
    assert_eq!(r.select_address(empty), Err(ResolveError::NoAddress));
}

#[test]
fn resolver_capability_is_cloneable_per_connection() {
    let r = SimpleDnsResolver::new();
    let r2 = r.clone();
    assert_eq!(r2.select_address(vec![1u32, 2u32]), Ok(1u32));
    assert_eq!(r.select_address(vec![3u32]), Ok(3u32));
}
