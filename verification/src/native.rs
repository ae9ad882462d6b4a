//! Decisions of the standalone native entry point, which serves a narrower set
//! of invocations natively and forwards the rest.
use vstd::prelude::*;
use crate::args::{options_supported, supported_from};
use crate::text::{str_views, views};

pub use crate::args::parse_option_value;
pub use crate::cli::{parse_log_format, should_use_native_collection};

verus! {

/// The options that the standalone entry point resolves itself.
pub open spec fn native_read_options() -> Seq<Seq<char>> {
    seq!["--workspace-folder"@, "--config"@]
}

/// Whether `read-configuration` is served without forwarding: only
/// `--workspace-folder` and `--config`, each with a value.
pub fn should_use_native_read_configuration(args: &[String]) -> (r: bool)
    ensures
        r == supported_from(views(args@), 0, native_read_options(), Seq::empty()),
{
    let value_options: [&str; 2] = ["--workspace-folder", "--config"];
    let flag_options: [&str; 0] = [];
    proof {
        assert(str_views(value_options@) =~= native_read_options());
        assert(str_views(flag_options@) =~= Seq::<Seq<char>>::empty());
    }
    options_supported(args, &value_options, &flag_options)
}

} // verus!
