//! Test-mode detection and the locations of Steam and of the updater's data.

use vstd::prelude::*;
use crate::text::{opt_str_view, opt_string_view, ascii_lower, join, join_path, lowered_range_equals, trim, trim_bounds};

verus! {

/// Whether an environment value counts as set: present, and after trimming
/// and ASCII lower-casing, none of "", "0", "false", "no".
pub open spec fn flag_is_true(value: Option<Seq<char>>) -> bool {
    match value {
        None => false,
        Some(v) => {
            let n = ascii_lower(trim(v));
            !(n == Seq::<char>::empty() || n == seq!['0'] || n == seq!['f', 'a', 'l', 's', 'e']
                || n == seq!['n', 'o'])
        },
    }
}

/// Reads an environment flag from its value (`None` when the variable is unset).
pub fn env_flag_is_true(value: Option<&str>) -> (r: bool)
    ensures
        r == flag_is_true(opt_str_view(value)),
{
    match value {
        None => false,
        Some(v) => {
            let (lo, hi) = trim_bounds(v);
            let empty = lo == hi;
            proof {
                reveal_strlit("0");
                reveal_strlit("false");
                reveal_strlit("no");
                assert(ascii_lower(v@.subrange(lo as int, hi as int)).len() == hi - lo);
            }
            let zero = lowered_range_equals(v, lo, hi, "0");
            let no_false = lowered_range_equals(v, lo, hi, "false");
            let no = lowered_range_equals(v, lo, hi, "no");
            proof {
                assert("0"@ =~= seq!['0']);
                assert("false"@ =~= seq!['f', 'a', 'l', 's', 'e']);
                assert("no"@ =~= seq!['n', 'o']);
                if empty {
                    assert(ascii_lower(trim(v@)) =~= Seq::<char>::empty());
                }
            }
            !(empty || zero || no_false || no)
        },
    }
}

/// Test mode is on when `TEST` is set to a true value, or when running on
/// GitHub Actions (`GITHUB_ACTIONS` is set, whatever its value); the arguments
/// are the two variables' values.
pub fn is_test_mode(test: Option<&str>, github_actions: Option<&str>) -> (r: bool)
    ensures
        r == (flag_is_true(opt_str_view(test)) || github_actions is Some),
{
    env_flag_is_true(test) || github_actions.is_some()
}

/// The Steam directory: `./test/Steam` in test mode, otherwise `Steam` under the
/// local data directory; `None` when that directory is unknown.
pub fn get_steam_path(test_mode: bool, local_data_dir: Option<&str>) -> (r: Option<String>)
    ensures
        opt_string_view(r) == if test_mode {
            Some("./test/Steam"@)
        } else {
            match local_data_dir {
                None => None,
                Some(d) => Some(join_path(d@, "Steam"@)),
            }
        },
{
    if test_mode {
        return Some(String::from_str("./test/Steam"));
    }
    match local_data_dir {
        None => None,
        Some(d) => Some(join(d, "Steam")),
    }
}

/// The updater's data directory: `./test/llc` in test mode, otherwise `llc/`
/// under the user data directory; `None` when that directory is unknown.
pub fn get_appdata_path(test_mode: bool, user_data_dir: Option<&str>) -> (r: Option<String>)
    ensures
        opt_string_view(r) == if test_mode {
            Some("./test/llc"@)
        } else {
            match user_data_dir {
                None => None,
                Some(d) => Some(join_path(d@, "llc/"@)),
            }
        },
{
    if test_mode {
        return Some(String::from_str("./test/llc"));
    }
    match user_data_dir {
        None => None,
        Some(d) => Some(join(d, "llc/")),
    }
}

} // verus!
