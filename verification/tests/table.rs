use secret_guard::guard::Probe;
use secret_guard::table::{entry_action, Action, Primitive, Sentinel};

#[test]
fn open_fails_with_minus_one() {
    let s = Primitive::Open.sentinel();
    assert_eq!(s, Sentinel::NegativeOne);
    assert_eq!(s.int_value(), Some(-1));
}

#[test]
fn fopen_fails_with_null_handle() {
    let s = Primitive::Fopen.sentinel();
    assert_eq!(s, Sentinel::NullHandle);
    assert_eq!(s.int_value(), None);
}

#[test]
fn stream_primitives_are_the_handle_returning_ones() {
    let handle_returning = [
        Primitive::Fopen,
        Primitive::Fopen64,
        Primitive::Freopen,
        Primitive::Freopen64,
    ];
    for p in Primitive::all() {
        let expected = if handle_returning.contains(&p) {
            Sentinel::NullHandle
        } else {
            Sentinel::NegativeOne
        };
        assert_eq!(p.sentinel(), expected);
    }
}

#[test]
fn pathname_position_per_primitive() {
    assert_eq!(Primitive::Open.path_arg(), 1);
    assert_eq!(Primitive::Creat.path_arg(), 1);
    assert_eq!(Primitive::Fopen.path_arg(), 1);
    assert_eq!(Primitive::Freopen.path_arg(), 1);
    assert_eq!(Primitive::Openat.path_arg(), 2);
    assert_eq!(Primitive::Openat64.path_arg(), 2);
    assert_eq!(Primitive::NameToHandleAt.path_arg(), 2);
}

#[test]
fn table_lists_every_guarded_primitive_once() {
    let all = Primitive::all();
    assert_eq!(all.len(), 11);
    for (i, p) in all.iter().enumerate() {
        for (j, q) in all.iter().enumerate() {
            if i != j {
                assert_ne!(p, q);
            }
        }
    }
}

#[test]
fn denied_open_acts_with_minus_one_and_eacces() {
    let guard = secret_guard::guard::guard_dir();
    let probe = Probe::Canonical { path: b"/var/run/secrets/kubernetes.io/token".to_vec() };
    let a = entry_action(&guard, &Primitive::Open, &probe);
    assert_eq!(a, Action::Deny { sentinel: Sentinel::NegativeOne, errno: 13 });
}

#[test]
fn denied_fopen_acts_with_null_handle_and_eacces() {
    let guard = secret_guard::guard::guard_dir();
    let probe = Probe::Canonical { path: b"/var/run/secrets/kubernetes.io/token".to_vec() };
    let a = entry_action(&guard, &Primitive::Fopen, &probe);
    assert_eq!(a, Action::Deny { sentinel: Sentinel::NullHandle, errno: libc::EACCES });
}

#[test]
fn allowed_path_delegates_for_every_primitive() {
    let guard = secret_guard::guard::guard_dir();
    let probe = Probe::Canonical { path: b"/etc/hosts".to_vec() };
    for p in Primitive::all() {
        assert_eq!(entry_action(&guard, &p, &probe), Action::Delegate);
    }
}

#[test]
fn no_pathname_delegates_for_every_primitive() {
    let guard = secret_guard::guard::guard_dir();
    for p in Primitive::all() {
        assert_eq!(entry_action(&guard, &p, &Probe::NoPath), Action::Delegate);
    }
}
