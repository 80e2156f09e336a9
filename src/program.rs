//! Resolving the declared inputs of a linked program: which were found, and a
//! warning for each that was not.
use vstd::prelude::*;
use vstd::string::StringExecFns;

use crate::config::{AttributeConfig, UniformConfig};
use crate::warning::ShaderWarning;

verus! {

/// The attributes among the first `n` whose location is non-negative, with it.
pub open spec fn found_attributes(attrs: Seq<AttributeConfig>, locs: Seq<i32>, n: int) -> Seq<
    (String, u32),
>
    decreases n,
{
    if n <= 0 {
        Seq::empty()
    } else if locs[n - 1] >= 0 {
        found_attributes(attrs, locs, n - 1).push((attrs[n - 1].name, locs[n - 1] as u32))
    } else {
        found_attributes(attrs, locs, n - 1)
    }
}

/// A warning for each attribute among the first `n` whose location is negative.
pub open spec fn missing_attributes(attrs: Seq<AttributeConfig>, locs: Seq<i32>, n: int) -> Seq<
    ShaderWarning,
>
    decreases n,
{
    if n <= 0 {
        Seq::empty()
    } else if locs[n - 1] < 0 {
        missing_attributes(attrs, locs, n - 1).push(
            ShaderWarning::AttributeNotFound(attrs[n - 1].name),
        )
    } else {
        missing_attributes(attrs, locs, n - 1)
    }
}

/// A warning for each uniform among the first `n` that was not found.
pub open spec fn missing_uniforms(uniforms: Seq<UniformConfig>, found: Seq<bool>, n: int) -> Seq<
    ShaderWarning,
>
    decreases n,
{
    if n <= 0 {
        Seq::empty()
    } else if !found[n - 1] {
        missing_uniforms(uniforms, found, n - 1).push(
            ShaderWarning::UniformNotFound(uniforms[n - 1].name),
        )
    } else {
        missing_uniforms(uniforms, found, n - 1)
    }
}

/// Splits the attributes of a program by the locations the device reported
/// for them (negative when absent): the found ones with their location, and
/// a warning for each missing one, both in declaration order.
pub fn resolve_attributes(attributes: &[AttributeConfig], locations: &[i32]) -> (r: (
    Vec<(String, u32)>,
    Vec<ShaderWarning>,
))
    requires
        attributes@.len() == locations@.len(),
    ensures
        r.0@ == found_attributes(attributes@, locations@, attributes@.len() as int),
        r.1@ == missing_attributes(attributes@, locations@, attributes@.len() as int),
{
    let mut found: Vec<(String, u32)> = Vec::new();
    let mut missing: Vec<ShaderWarning> = Vec::new();
    let mut i: usize = 0;
    while i < attributes.len()
        invariant
            i <= attributes@.len(),
            attributes@.len() == locations@.len(),
            found@ == found_attributes(attributes@, locations@, i as int),
            missing@ == missing_attributes(attributes@, locations@, i as int),
        decreases attributes@.len() - i,
    {
        let name = attributes[i].name.clone();
        if locations[i] >= 0 {
            found.push((name, locations[i] as u32));
        } else {
            missing.push(ShaderWarning::AttributeNotFound(name));
        }
        i = i + 1;
    }
    (found, missing)
}

/// A warning for each uniform of a program that the device did not find, in
/// declaration order.
pub fn missing_uniform_warnings(uniforms: &[UniformConfig], found: &[bool]) -> (r: Vec<
    ShaderWarning,
>)
    requires
        uniforms@.len() == found@.len(),
    ensures
        r@ == missing_uniforms(uniforms@, found@, uniforms@.len() as int),
{
    let mut missing: Vec<ShaderWarning> = Vec::new();
    let mut i: usize = 0;
    while i < uniforms.len()
        invariant
            i <= uniforms@.len(),
            uniforms@.len() == found@.len(),
            missing@ == missing_uniforms(uniforms@, found@, i as int),
        decreases uniforms@.len() - i,
    {
        if !found[i] {
            missing.push(ShaderWarning::UniformNotFound(uniforms[i].name.clone()));
        }
        i = i + 1;
    }
    missing
}

/// The report of a failed link: the program's log, then each shader's.
pub fn program_logs(program_log: &str, vert_log: &str, frag_log: &str) -> (r: String)
    ensures
        r@ == "Program Log:\n"@ + program_log@ + "\nVertex Log:\n"@ + vert_log@
            + "\nFragment Log:\n"@ + frag_log@ + "\n"@,
{
    String::from_str("Program Log:\n").concat(program_log).concat("\nVertex Log:\n").concat(
        vert_log,
    ).concat("\nFragment Log:\n").concat(frag_log).concat("\n")
}

} // verus!
