use ef_core::build::PAUSE_SHIM;

/// The symbols the link line depends on, spelled the way the linker will ask.
#[test]
fn the_shim_declares_the_names_the_wrap_flag_expects() {
    for name in ["__wrap_exit", "__real_exit", "GetConsoleProcessList"] {
        let bound = format!("name=\"{name}\"");
        assert!(
            PAUSE_SHIM.contains(&bound),
            "the shim no longer binds {bound}, which the link line depends on"
        );
    }
}
