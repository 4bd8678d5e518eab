use ef_core::toolchain::probe::{FlagCapabilities, Prober, ProbeRequest};

#[test]
fn optimistic_and_conservative_differ_on_every_field() {
    let o = FlagCapabilities::optimistic();
    let c = FlagCapabilities::conservative();
    assert_ne!(o, c);
    assert!(!o.probe_failed);
    assert!(c.probe_failed);
}

#[test]
fn a_compiler_that_does_not_run_is_probed_conservatively() {
    let (mut p, first) = Prober::new();
    assert!(!matches!(first, ProbeRequest::Done(_)));
    match p.report(false) {
        ProbeRequest::Done(caps) => assert_eq!(caps, FlagCapabilities::conservative()),
        _ => panic!("the probe should have finished"),
    }
}

#[test]
fn a_nonexistent_compiler_probes_conservatively() {
    // A compiler that does not exist fails the very first request.
    let (mut p, _) = Prober::new();
    let caps = match p.report(false) {
        ProbeRequest::Done(caps) => caps,
        _ => panic!("the probe should have finished"),
    };
    assert!(caps.probe_failed);
    assert!(!caps.dec);
    assert!(!caps.static_full);
}
