//! Scanning of command line arguments: options with values, flags, and the
//! check that an argument list only holds options a native command supports.
use vstd::prelude::*;
use crate::text::{contains_str, copy_string, opt_view, starts_with, str_eq, str_starts_with, str_views, views};

verus! {

/// The index of the first `option` (from `i` on) that has a value after it.
pub open spec fn option_index_from(args: Seq<Seq<char>>, option: Seq<char>, i: int) -> Option<int>
    decreases args.len() - i,
{
    if i < 0 || i + 1 >= args.len() {
        None
    } else if args[i] == option {
        Some(i)
    } else {
        option_index_from(args, option, i + 1)
    }
}

/// The value after the first occurrence of `option` that has one.
pub open spec fn option_value(args: Seq<Seq<char>>, option: Seq<char>) -> Option<Seq<char>> {
    match option_index_from(args, option, 0) {
        Some(i) => Some(args[i + 1]),
        None => None,
    }
}

/// The values of every occurrence of `option`, scanning from `i`; an
/// occurrence with a value consumes it.
pub open spec fn option_values_from(args: Seq<Seq<char>>, option: Seq<char>, i: int) -> Seq<Seq<char>>
    decreases args.len() - i,
{
    if i < 0 || i >= args.len() {
        Seq::empty()
    } else if args[i] == option && i + 1 < args.len() {
        seq![args[i + 1]] + option_values_from(args, option, i + 2)
    } else {
        option_values_from(args, option, i + 1)
    }
}

/// Every value given for `option`, in order.
pub open spec fn option_values(args: Seq<Seq<char>>, option: Seq<char>) -> Seq<Seq<char>> {
    option_values_from(args, option, 0)
}

/// Whether the arguments from `i` on are all supported options: each starts with
/// `--`, a flag stands alone, any other supported option is followed by its value.
pub open spec fn supported_from(
    args: Seq<Seq<char>>,
    i: int,
    value_options: Seq<Seq<char>>,
    flag_options: Seq<Seq<char>>,
) -> bool
    decreases args.len() + 1 - i,
{
    if i < 0 || i >= args.len() {
        true
    } else if !starts_with(args[i], "--"@) {
        false
    } else if flag_options.contains(args[i]) {
        supported_from(args, i + 1, value_options, flag_options)
    } else if value_options.contains(args[i]) {
        supported_from(args, i + 2, value_options, flag_options)
    } else {
        false
    }
}

/// Whether `flag` occurs among the arguments.
pub fn has_flag(args: &[String], flag: &str) -> (r: bool)
    ensures
        r == views(args@).contains(flag@),
{
    let mut i: usize = 0;
    while i < args.len()
        invariant
            i <= args.len(),
            forall|k: int| 0 <= k < i ==> args@[k]@ != flag@,
        decreases args.len() - i,
    {
        if str_eq(args[i].as_str(), flag) {
            proof {
                assert(views(args@)[i as int] == flag@);
            }
            return true;
        }
        i = i + 1;
    }
    proof {
        if views(args@).contains(flag@) {
            let k = choose|k: int| 0 <= k < views(args@).len() && views(args@)[k] == flag@;
            assert(args@[k]@ == flag@);
        }
    }
    false
}

/// The value that follows the first occurrence of `option`.
pub fn parse_option_value(args: &[String], option: &str) -> (r: Option<String>)
    ensures
        opt_view(r) == option_value(views(args@), option@),
{
    let ghost a = views(args@);
    let mut i: usize = 0;
    while i < args.len()
        invariant
            a == views(args@),
            option_index_from(a, option@, 0) == option_index_from(a, option@, i as int),
        decreases args.len() - i,
    {
        if i + 1 >= args.len() {
            return None;
        }
        if str_eq(args[i].as_str(), option) {
            return Some(copy_string(&args[i + 1]));
        }
        i = i + 1;
    }
    None
}

/// Every value given for `option`, in order.
pub fn parse_option_values(args: &[String], option: &str) -> (r: Vec<String>)
    ensures
        views(r@) == option_values(views(args@), option@),
{
    let ghost a = views(args@);
    let mut values: Vec<String> = Vec::new();
    let mut index: usize = 0;
    while index < args.len()
        invariant
            a == views(args@),
            index <= args.len() + 1,
            option_values(a, option@) == views(values@) + option_values_from(a, option@, index as int),
        decreases args.len() + 1 - index,
    {
        if str_eq(args[index].as_str(), option) && index + 1 < args.len() {
            let v = copy_string(&args[index + 1]);
            values.push(v);
            proof {
                assert(views(values@) =~= views(values@.drop_last()) + seq![a[index + 1]]);
            }
            index = index + 2;
        } else {
            index = index + 1;
        }
    }
    proof {
        assert(views(values@) + option_values_from(a, option@, index as int) =~= views(values@));
    }
    values
}

/// Whether the argument list holds only supported options (see `supported_from`).
pub fn options_supported(args: &[String], value_options: &[&str], flag_options: &[&str]) -> (r: bool)
    ensures
        r == supported_from(views(args@), 0, str_views(value_options@), str_views(flag_options@)),
{
    let ghost a = views(args@);
    let ghost vo = str_views(value_options@);
    let ghost fo = str_views(flag_options@);
    let mut index: usize = 0;
    while index < args.len()
        invariant
            a == views(args@),
            vo == str_views(value_options@),
            fo == str_views(flag_options@),
            index <= args.len() + 1,
            supported_from(a, 0, vo, fo) == supported_from(a, index as int, vo, fo),
        decreases args.len() + 1 - index,
    {
        let arg = args[index].as_str();
        if !str_starts_with(arg, "--") {
            return false;
        }
        if contains_str(flag_options, arg) {
            index = index + 1;
        } else if contains_str(value_options, arg) {
            if index + 1 < args.len() {
                index = index + 2;
            } else {
                proof {
                    assert(supported_from(a, index + 2, vo, fo));
                    assert(supported_from(a, args.len() as int, vo, fo));
                }
                index = args.len();
            }
        } else {
            return false;
        }
    }
    true
}

} // verus!
