//! Choosing the region of the remote API that a run addresses.

use vstd::prelude::*;
use rusoto_core::region::ParseRegionError;
use rusoto_core::Region;
use crate::error::FatalError;

verus! {

/// rusoto's `Region`, carried through to the remote client as it is.
#[verifier::external_type_specification]
#[verifier::external_body]
pub struct ExRegion(Region);

/// rusoto's `ParseRegionError`, of which only the text is read.
#[verifier::external_type_specification]
#[verifier::external_body]
pub struct ExParseRegionError(ParseRegionError);

/// Whether rusoto's `Region::from_str` reads `name` as a region.
pub uninterp spec fn region_is_known(name: Seq<char>) -> bool;

/// `Region::from_str` of rusoto: the region that `name` stands for, or the error
/// for a name that stands for none. Whether a name is read as a region depends on
/// the name alone, and is given the name [`region_is_known`]; which region comes
/// back is not stated.
#[verifier::external_body]
fn parse_region(name: &str) -> (parsed: Result<Region, ParseRegionError>)
    ensures
        parsed is Ok <==> region_is_known(name@),
{
    name.parse()
}

/// The `Display` text of rusoto's `ParseRegionError`.
#[verifier::external_body]
fn describe_region_error(error: &ParseRegionError) -> (text: String) {
    error.to_string()
}

/// Settles the region from the operator's request. Without a request the choice
/// is left to the remote client's own convention, shown as `None`. A requested
/// name that is no region is an error; it is never replaced by a default.
pub fn select_region(requested: &Option<String>) -> (result: Result<Option<Region>, FatalError>)
    ensures
        match requested {
            None => result is Ok && result->Ok_0 is None,
            Some(name) => if region_is_known(name@) {
                result is Ok && result->Ok_0 is Some
            } else {
                result is Err && result->Err_0 is InvalidRegion
            },
        },
{
    match requested {
        None => Ok(None),
        Some(name) => match parse_region(name.as_str()) {
            Ok(region) => Ok(Some(region)),
            Err(error) => Err(FatalError::InvalidRegion(describe_region_error(&error))),
        },
    }
}

} // verus!
