use dkn_compute_launcher::rlimit::{
    configure_rlimit, plan_rlimit, rlimit_outcome, RlimitOutcome, DEFAULT_HARD_LIMIT, DEFAULT_SOFT_LIMIT,
    MACOS_HARD_LIMIT, MACOS_SOFT_LIMIT,
};

#[test]
fn test_configure_rlimit() {
    let _ = env_logger::builder()
        .filter(None, log::LevelFilter::Off)
        .filter_module("dkn_compute_launcher", log::LevelFilter::Info)
        .is_test(true)
        .try_init();

    configure_rlimit(false);
}

#[test]
fn test_configure_rlimit_outcome() {
    match configure_rlimit(false) {
        RlimitOutcome::Kept(soft, hard) => assert!(soft >= hard / 10),
        RlimitOutcome::Raised(soft, hard) => {
            assert_eq!((soft, hard), (DEFAULT_SOFT_LIMIT, DEFAULT_HARD_LIMIT))
        }
        RlimitOutcome::Failed => {}
    }
}

#[test]
fn test_plan_rlimit() {
    assert_eq!((DEFAULT_SOFT_LIMIT, DEFAULT_HARD_LIMIT), (1024, 1024 * 1024));
    assert_eq!((MACOS_SOFT_LIMIT, MACOS_HARD_LIMIT), (1024 * 1024 - 1, 40 * 1024 * 1024));
    // a soft limit of a tenth of the hard limit is enough
    assert_eq!(plan_rlimit(Some((100, 1000)), false), None);
    assert_eq!(plan_rlimit(Some((100, 1009)), false), None);
    assert_eq!(plan_rlimit(Some((99, 1000)), false), Some((1024, 1048576)));
    assert_eq!(plan_rlimit(Some((99, 1000)), true), Some((1048575, 41943040)));
    assert_eq!(plan_rlimit(Some((0, 0)), false), None);
    assert_eq!(plan_rlimit(Some((u64::MAX, u64::MAX)), true), None);
    // without the machine's limits the defaults are taken, and found low
    assert_eq!(plan_rlimit(None, false), Some((1024, 1048576)));
    assert_eq!(plan_rlimit(None, true), Some((1048575, 41943040)));
}

#[test]
fn test_rlimit_outcome() {
    assert_eq!(rlimit_outcome(Some((100, 1000)), false, true), RlimitOutcome::Kept(100, 1000));
    assert_eq!(rlimit_outcome(Some((100, 1000)), false, false), RlimitOutcome::Kept(100, 1000));
    assert_eq!(rlimit_outcome(Some((99, 1000)), false, true), RlimitOutcome::Raised(1024, 1048576));
    assert_eq!(rlimit_outcome(Some((99, 1000)), true, true), RlimitOutcome::Raised(1048575, 41943040));
    assert_eq!(rlimit_outcome(Some((99, 1000)), false, false), RlimitOutcome::Failed);
    assert_eq!(rlimit_outcome(None, false, true), RlimitOutcome::Raised(1024, 1048576));
    assert_eq!(rlimit_outcome(None, true, false), RlimitOutcome::Failed);
}
