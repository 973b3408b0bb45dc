use clap_wrapper_bundler::cli::{check_arguments, exit_status, install_path, ArgumentError};

#[test]
fn arguments_need_libraries() {
    assert_eq!(check_arguments(0, false), Err(ArgumentError::NoInputFiles));
    assert_eq!(check_arguments(0, true), Err(ArgumentError::NoInputFiles));
    assert_eq!(ArgumentError::NoInputFiles.message(), "no input files provided");
}

#[test]
fn auv2_id_needs_a_single_library() {
    assert_eq!(check_arguments(2, true), Err(ArgumentError::Auv2IdNeedsSingleLibrary));
    assert_eq!(check_arguments(1, true), Ok(()));
    assert_eq!(check_arguments(3, false), Ok(()));
    assert_eq!(
        ArgumentError::Auv2IdNeedsSingleLibrary.message(),
        "--auv2-id option can only be used when bundling a single plugin"
    );
}

#[test]
fn exit_statuses() {
    assert_eq!(exit_status(true), 100);
    assert_eq!(exit_status(false), 0);
}

#[test]
fn install_paths() {
    assert_eq!(
        install_path("out/My Plugin.clap", "/home/me/.clap/").as_deref(),
        Some("/home/me/.clap/My Plugin.clap")
    );
    assert_eq!(install_path("out/..", "/home/me/.clap/"), None);
}
