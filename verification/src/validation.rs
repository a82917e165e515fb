//! Name validation rules for networks, applications and environment
//! variables.

use vstd::prelude::*;
use vstd::string::*;

use crate::error::RigError;
use crate::numeral::is_digit_char;

verus! {

/// True of ASCII letters and digits.
pub open spec fn is_alnum_char(c: char) -> bool {
    ('a' <= c && c <= 'z') || ('A' <= c && c <= 'Z') || is_digit_char(c)
}

/// A valid network name: one to sixty-three characters, starting and
/// ending alphanumeric, with only alphanumerics and hyphens inside.
pub open spec fn valid_network_name(s: Seq<char>) -> bool {
    &&& 1 <= s.len() <= 63
    &&& is_alnum_char(s[0])
    &&& is_alnum_char(s.last())
    &&& forall|i: int| 0 <= i < s.len() ==> is_alnum_char(#[trigger] s[i]) || s[i] == '-'
}

/// A valid environment variable name: nonempty, with only uppercase
/// letters, digits and underscores.
pub open spec fn valid_env_var_name(s: Seq<char>) -> bool {
    &&& s.len() >= 1
    &&& forall|i: int|
        0 <= i < s.len() ==> ('A' <= #[trigger] s[i] && s[i] <= 'Z') || is_digit_char(s[i]) || s[i]
            == '_'
}

/// True when `c` is an ASCII letter or digit, as runtime code.
fn is_alnum_exec(c: char) -> (r: bool)
    ensures
        r == is_alnum_char(c),
{
    let v = c as u32;
    (v >= 97 && v <= 122) || (v >= 65 && v <= 90) || (v >= 48 && v <= 57)
}

/// Checks a network name against its naming rule, saying which part of
/// the rule a bad name breaks.
pub fn validate_network_name(name: &str) -> (r: Result<(), RigError>)
    ensures
        r is Ok <==> valid_network_name(name@),
        r is Err ==> r->Err_0 is Generic,
{
    let len = name.unicode_len();
    if len == 0 {
        return Err(RigError::generic(String::from_str("Network name cannot be empty")));
    }
    if len > 63 {
        return Err(
            RigError::generic(String::from_str("Network name cannot exceed 63 characters")),
        );
    }
    let first_char = name.get_char(0);
    let last_char = name.get_char(len - 1);
    if !is_alnum_exec(first_char) || !is_alnum_exec(last_char) {
        return Err(
            RigError::generic(
                String::from_str("Network name must start and end with alphanumeric characters"),
            ),
        );
    }
    let mut i: usize = 0;
    while i < len
        invariant
            len == name@.len(),
            i <= len,
            forall|k: int| 0 <= k < i ==> is_alnum_char(#[trigger] name@[k]) || name@[k] == '-',
        decreases len - i,
    {
        let c = name.get_char(i);
        if !is_alnum_exec(c) && c != '-' {
            return Err(
                RigError::generic(
                    String::from_str(
                        "Network name can only contain alphanumeric characters and hyphens",
                    ),
                ),
            );
        }
        i += 1;
    }
    Ok(())
}

/// Checks an application name; applications follow the network naming
/// rule.
pub fn validate_app_name(name: &str) -> (r: Result<(), RigError>)
    ensures
        r is Ok <==> valid_network_name(name@),
        r is Err ==> r->Err_0 is Generic,
{
    validate_network_name(name)
}

/// Checks an environment variable name against its naming rule.
pub fn validate_env_var_name(name: &str) -> (r: Result<(), RigError>)
    ensures
        r is Ok <==> valid_env_var_name(name@),
        r is Err ==> r->Err_0 is Generic,
{
    let len = name.unicode_len();
    if len == 0 {
        return Err(
            RigError::generic(String::from_str("Environment variable name cannot be empty")),
        );
    }
    let mut i: usize = 0;
    while i < len
        invariant
            len == name@.len(),
            i <= len,
            forall|k: int|
                0 <= k < i ==> ('A' <= #[trigger] name@[k] && name@[k] <= 'Z') || is_digit_char(
                    name@[k],
                ) || name@[k] == '_',
        decreases len - i,
    {
        let c = name.get_char(i);
        let v = c as u32;
        if !((v >= 65 && v <= 90) || (v >= 48 && v <= 57) || c == '_') {
            return Err(
                RigError::generic(
                    String::from_str(
                        "Environment variable names should contain only uppercase letters, digits, and underscores",
                    ),
                ),
            );
        }
        i += 1;
    }
    Ok(())
}

} // verus!
