//! Which `read-configuration` invocations are served natively once feature
//! resolution is available.
use vstd::prelude::*;
use crate::args::{options_supported, supported_from};
use crate::text::{str_views, views};

verus! {

/// Options with a value that are served natively.
pub open spec fn read_value_options() -> Seq<Seq<char>> {
    seq![
        "--workspace-folder"@,
        "--config"@,
        "--override-config"@,
        "--container-id"@,
        "--id-label"@,
        "--docker-path"@,
        "--docker-compose-path"@,
        "--additional-features"@,
    ]
}

/// Flags that are served natively.
pub open spec fn read_flag_options() -> Seq<Seq<char>> {
    seq![
        "--include-merged-configuration"@,
        "--include-features-configuration"@,
        "--skip-feature-auto-mapping"@,
    ]
}

/// Whether `read-configuration` with these arguments is served natively.
pub fn should_use_native_read_configuration(args: &[String]) -> (r: bool)
    ensures
        r == supported_from(views(args@), 0, read_value_options(), read_flag_options()),
{
    let value_options: [&str; 8] = [
        "--workspace-folder",
        "--config",
        "--override-config",
        "--container-id",
        "--id-label",
        "--docker-path",
        "--docker-compose-path",
        "--additional-features",
    ];
    let flag_options: [&str; 3] = [
        "--include-merged-configuration",
        "--include-features-configuration",
        "--skip-feature-auto-mapping",
    ];
    proof {
        assert(str_views(value_options@) =~= read_value_options());
        assert(str_views(flag_options@) =~= read_flag_options());
    }
    options_supported(args, &value_options, &flag_options)
}

} // verus!
