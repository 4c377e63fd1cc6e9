use chronik_http::address::{HostAddr, HostIp};
use chronik_http::server::{
    BindProgress, ChronikServer, ChronikServerError, ChronikServerParams, ServerBinder,
};

fn addr_a() -> HostAddr {
    HostAddr::v4([127, 0, 0, 1], 8331)
}

fn addr_b() -> HostAddr {
    HostAddr::v6([0, 0, 0, 0, 0, 0, 0, 1], 8332)
}

fn start(hosts: Vec<HostAddr>) -> ServerBinder<u32> {
    match ChronikServer::<u32>::setup(ChronikServerParams { hosts }) {
        Ok(binder) => binder,
        Err(err) => panic!("setup refused the hosts: {:?}", err),
    }
}

fn pending(progress: BindProgress<u32>) -> ServerBinder<u32> {
    match progress {
        BindProgress::Pending(binder) => binder,
        BindProgress::Ready(_) => panic!("setup ready too early"),
        BindProgress::Failed(err) => panic!("setup failed: {:?}", err),
    }
}

fn ready(progress: BindProgress<u32>) -> ChronikServer<u32> {
    match progress {
        BindProgress::Ready(server) => server,
        BindProgress::Pending(_) => panic!("setup not complete"),
        BindProgress::Failed(err) => panic!("setup failed: {:?}", err),
    }
}

fn failed(progress: BindProgress<u32>) -> ChronikServerError {
    match progress {
        BindProgress::Failed(err) => err,
        BindProgress::Pending(_) => panic!("setup still pending"),
        BindProgress::Ready(_) => panic!("setup succeeded"),
    }
}

#[test]
fn host_constructors() {
    let a = addr_a();
    assert_eq!(a.ip, HostIp::V4([127, 0, 0, 1]));
    assert_eq!(a.port, 8331);
    let b = addr_b();
    assert_eq!(b.ip, HostIp::V6([0, 0, 0, 0, 0, 0, 0, 1]));
    assert_eq!(b.port, 8332);
}

#[test]
fn two_free_hosts_then_listener_a_resets() {
    let binder = start(vec![addr_a(), addr_b()]);
    assert_eq!(binder.next_host(), addr_a());
    let binder = pending(binder.record_bind(Ok(1)));
    assert_eq!(binder.next_host(), addr_b());
    let server = ready(binder.record_bind(Ok(2)));
    let (group, listeners) = server.serve();
    assert_eq!(group.len(), 2);
    assert_eq!(listeners.len(), 2);
    assert_eq!(listeners[0].host, addr_a());
    assert_eq!(listeners[0].listener, 1);
    assert_eq!(listeners[1].host, addr_b());
    assert_eq!(listeners[1].listener, 2);
    assert_eq!(group.host(0), addr_a());
    assert_eq!(group.host(1), addr_b());
    let result = group.first_completed(0, Err("connection reset".to_string()));
    assert_eq!(result, Err(ChronikServerError::ServingFailed("connection reset".to_string())));
}

#[test]
fn second_host_in_use() {
    let binder = start(vec![addr_a(), addr_b()]);
    let binder = pending(binder.record_bind(Ok(1)));
    let err = failed(binder.record_bind(Err("address in use".to_string())));
    assert_eq!(
        err,
        ChronikServerError::FailedBindingAddress(addr_b(), "address in use".to_string())
    );
}

#[test]
fn first_host_in_use_stops_setup() {
    let binder = start(vec![addr_a(), addr_b(), addr_a()]);
    let err = failed(binder.record_bind(Err("address in use".to_string())));
    assert_eq!(
        err,
        ChronikServerError::FailedBindingAddress(addr_a(), "address in use".to_string())
    );
}

#[test]
fn empty_hosts_rejected() {
    let result = ChronikServer::<u32>::setup(ChronikServerParams { hosts: vec![] });
    assert!(matches!(result, Err(ChronikServerError::NoHostsConfigured)));
}

#[test]
fn single_host_ready_at_once() {
    let binder = start(vec![addr_b()]);
    assert_eq!(binder.next_host(), addr_b());
    let server = ready(binder.record_bind(Ok(7)));
    let (group, listeners) = server.serve();
    assert_eq!(group.len(), 1);
    assert_eq!(listeners.len(), 1);
    assert_eq!(listeners[0].host, addr_b());
    assert_eq!(listeners[0].listener, 7);
}

#[test]
fn duplicate_hosts_bound_independently() {
    let binder = start(vec![addr_a(), addr_a()]);
    let binder = pending(binder.record_bind(Ok(3)));
    assert_eq!(binder.next_host(), addr_a());
    let server = ready(binder.record_bind(Ok(4)));
    let (_, listeners) = server.serve();
    assert_eq!(listeners.len(), 2);
    assert_eq!(listeners[0].listener, 3);
    assert_eq!(listeners[1].listener, 4);
}

#[test]
fn every_host_gets_one_listener() {
    let hosts: Vec<HostAddr> = (0..5u16).map(|i| HostAddr::v4([10, 0, 0, 1], 9000 + i)).collect();
    let mut binder = start(hosts.clone());
    let mut bound = 0u32;
    let server = loop {
        assert_eq!(binder.next_host(), hosts[bound as usize]);
        bound += 1;
        match binder.record_bind(Ok(bound)) {
            BindProgress::Pending(next) => binder = next,
            BindProgress::Ready(server) => break server,
            BindProgress::Failed(err) => panic!("setup failed: {:?}", err),
        }
    };
    let (group, listeners) = server.serve();
    assert_eq!(group.len(), 5);
    for (i, l) in listeners.iter().enumerate() {
        assert_eq!(l.host, hosts[i]);
        assert_eq!(l.listener, i as u32 + 1);
    }
}

#[test]
fn later_listener_failure_reported() {
    let binder = start(vec![addr_a(), addr_b()]);
    let binder = pending(binder.record_bind(Ok(1)));
    let (group, _) = ready(binder.record_bind(Ok(2))).serve();
    let result = group.first_completed(1, Err("broken pipe".to_string()));
    assert_eq!(result, Err(ChronikServerError::ServingFailed("broken pipe".to_string())));
}

#[test]
fn listener_finishing_cleanly_ends_with_success() {
    let binder = start(vec![addr_a()]);
    let (group, _) = ready(binder.record_bind(Ok(1))).serve();
    assert_eq!(group.first_completed(0, Ok(())), Ok(()));
}
