use nitric_component::util::{DebugInstanceId, InstanceId};

#[test]
fn basic() {
    let a = InstanceId::new();
    let b = InstanceId::new();

    let a1 = a.reference();
    let a2 = a.reference();
    let a3 = a.reference();

    a.assert_eq(&a1);
    a.assert_eq(&a2);
    a.assert_eq(&a3);

    a2.assert_eq(&a3);

    let b1 = b.reference();

    assert_ne!(a1, b1);
    assert_ne!(a3, b1);

    b.assert_eq(&b1);
}

#[test]
fn debug() {
    let a = DebugInstanceId::new();
    let b = DebugInstanceId::new();

    let a1 = a.reference();
    let a2 = a.reference();
    let a3 = a.reference();

    a.debug_assert_eq(&a1);
    a.debug_assert_eq(&a2);
    a.debug_assert_eq(&a3);

    a2.debug_assert_eq(&a3);

    let b1 = b.reference();

    assert_ne!(a1.inner(), b1.inner());
    assert_ne!(a3.inner(), b1.inner());

    b.debug_assert_eq(&b1);
}
