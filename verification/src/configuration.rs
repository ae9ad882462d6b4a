//! Which `read-configuration` invocations the configuration commands serve
//! natively, with container inspection options.
use vstd::prelude::*;
use crate::args::{options_supported, supported_from};
use crate::text::{str_views, views};

verus! {

/// Options with a value that are served natively.
pub open spec fn inspect_value_options() -> Seq<Seq<char>> {
    seq![
        "--workspace-folder"@,
        "--config"@,
        "--container-id"@,
        "--id-label"@,
        "--docker-path"@,
        "--docker-compose-path"@,
    ]
}

/// Flags that are served natively.
pub open spec fn inspect_flag_options() -> Seq<Seq<char>> {
    seq!["--include-merged-configuration"@, "--include-features-configuration"@]
}

/// Whether `read-configuration` with these arguments is served natively.
pub fn should_use_native_read_configuration(args: &[String]) -> (r: bool)
    ensures
        r == supported_from(views(args@), 0, inspect_value_options(), inspect_flag_options()),
{
    let value_options: [&str; 6] = [
        "--workspace-folder",
        "--config",
        "--container-id",
        "--id-label",
        "--docker-path",
        "--docker-compose-path",
    ];
    let flag_options: [&str; 2] = [
        "--include-merged-configuration",
        "--include-features-configuration",
    ];
    proof {
        assert(str_views(value_options@) =~= inspect_value_options());
        assert(str_views(flag_options@) =~= inspect_flag_options());
    }
    options_supported(args, &value_options, &flag_options)
}

} // verus!
