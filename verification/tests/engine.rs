use mll::engine::next_available_port;

#[test]
fn test_next_available_port() {
    assert_eq!(3000, next_available_port(3000, &mut vec![]), "return base port, if no allocations");
    assert_eq!(3000, next_available_port(3000, &mut vec![3001]), "return base port, if available");
    assert_eq!(3003, next_available_port(3000, &mut vec![3000, 3001, 3002]), "return new port, if all previous ones allocated");
    assert_eq!(3001, next_available_port(3000, &mut vec![3000, 3002, 3003]), "return first available port");
    assert_eq!(3002, next_available_port(3000, &mut vec![3000, 3001, 3005]), "return first available port in the presence of large port allocation gaps");
    assert_eq!(3002, next_available_port(3000, &mut vec![3000, 3001, 3001, 3005]), "ignore duplicate port allocations");
}

#[test]
fn next_available_port_sorts_the_allocations() {
    let mut ports = vec![3005, 3000, 3002, 3001];
    assert_eq!(3003, next_available_port(3000, &mut ports));
    assert_eq!(vec![3000, 3001, 3002, 3005], ports);
}

#[test]
fn next_available_port_ignores_ports_below_base() {
    assert_eq!(3000, next_available_port(3000, &mut vec![10, 2999, 3001]));
}

#[test]
fn next_available_port_reaches_the_last_port() {
    assert_eq!(65535, next_available_port(65533, &mut vec![65533, 65534]));
}
