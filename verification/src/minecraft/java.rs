//! Which Java the game runs with.
use crate::error::Error;
use crate::text::{parse_u32, spec_parse_u32, spec_split, split_char};
use vstd::prelude::*;

verus! {

/// A Java found on the system.
#[derive(Debug, Clone)]
pub struct JavaInstallation {
    pub executable: String,
    pub major_version: u32,
}

/// The major version announced by `java -version`: the text between the
/// first pair of double quotes, up to its first dot; old releases announce
/// themselves as "1.x", whose major version is the second number.
pub open spec fn spec_parse_major_version(output: Seq<char>) -> Option<u32> {
    let pieces = spec_split(output, '"');
    if pieces.len() < 2 {
        None
    } else {
        let numbers = spec_split(pieces[1], '.');
        match spec_parse_u32(numbers[0]) {
            None => None,
            Some(major) => if major == 1 {
                if numbers.len() < 2 {
                    None
                } else {
                    spec_parse_u32(numbers[1])
                }
            } else {
                Some(major)
            },
        }
    }
}

pub fn parse_major_version(version_output: &str) -> (r: Option<u32>)
    ensures
        r == spec_parse_major_version(version_output@),
{
    let pieces = split_char(version_output, '"');
    if pieces.len() < 2 {
        return None;
    }
    let numbers = split_char(pieces[1].as_str(), '.');
    proof {
        crate::text::lemma_split_nonempty(pieces@[1]@, '.');
    }
    let major = match parse_u32(numbers[0].as_str()) {
        Some(m) => m,
        None => return None,
    };
    if major == 1 {
        if numbers.len() < 2 {
            return None;
        }
        parse_u32(numbers[1].as_str())
    } else {
        Some(major)
    }
}

/// The Java to use: the one found, when its major version is at least
/// `required_major`; otherwise the error asking for one.
pub fn ensure_java(found: Option<JavaInstallation>, required_major: u32) -> (r: Result<JavaInstallation, Error>)
    ensures
        match found {
            Some(j) => if j.major_version >= required_major {
                r == Ok::<JavaInstallation, Error>(j)
            } else {
                r == Err::<JavaInstallation, Error>(Error::JavaNotFound { required: required_major })
            },
            None => r == Err::<JavaInstallation, Error>(Error::JavaNotFound { required: required_major }),
        },
{
    match found {
        Some(java) => {
            if java.major_version >= required_major {
                Ok(java)
            } else {
                Err(Error::JavaNotFound { required: required_major })
            }
        },
        None => Err(Error::JavaNotFound { required: required_major }),
    }
}

} // verus!
