use aginxbrowser::lifecycle::{LifecycleState, WaitUntil};

#[test]
fn lifecycle_predicates() {
    let all = [
        LifecycleState::Idle,
        LifecycleState::Loading,
        LifecycleState::DomContentLoaded,
        LifecycleState::Loaded,
        LifecycleState::NetworkIdle,
        LifecycleState::Failed,
    ];
    for s in all.iter() {
        assert_eq!(s.is_loading(), *s == LifecycleState::Loading);
        assert_eq!(
            s.is_loaded(),
            *s == LifecycleState::Loaded || *s == LifecycleState::NetworkIdle
        );
        assert_eq!(s.is_network_idle(), *s == LifecycleState::NetworkIdle);
        if s.is_network_idle() {
            assert!(s.is_loaded());
        }
    }
}

#[test]
fn wait_until_names() {
    assert_eq!(WaitUntil::from_str("domcontentloaded"), WaitUntil::DomContentLoaded);
    assert_eq!(WaitUntil::from_str("networkidle0"), WaitUntil::NetworkIdle0);
    assert_eq!(WaitUntil::from_str("networkIdle"), WaitUntil::NetworkIdle0);
    assert_eq!(WaitUntil::from_str("networkidle"), WaitUntil::NetworkIdle0);
    assert_eq!(WaitUntil::from_str("networkidle2"), WaitUntil::NetworkIdle2);
    assert_eq!(WaitUntil::from_str("load"), WaitUntil::Load);
    assert_eq!(WaitUntil::from_str(""), WaitUntil::Load);
    assert_eq!(WaitUntil::from_str("DOMContentLoaded"), WaitUntil::Load);
    assert_eq!(WaitUntil::from_str("networkidle3"), WaitUntil::Load);
}
