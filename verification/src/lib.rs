//! Resolver for character-builder property records.
//!
//! The library consumes an ordered sequence of typed property records plus a
//! race-name lookup table and produces a normalized character sheet model:
//! ability scores, skills, classes, attacks, spells, items, resources, and
//! the rest of a character sheet, linked and normalized for presentation.

use vstd::prelude::*;
use vstd::string::StringExecFns;
use crate::strutil::{spec_i64_dec, spec_trim, i64_to_string, trim};

pub mod holding_structs;
pub mod laws;
pub mod records;
pub mod resolver;
pub mod strutil;

verus! {

/// Builds the URL that fetches a creature by its identifier, with the
/// surrounding whitespace of the identifier removed.
pub fn get_char_url(caracter_id: String) -> (r: String)
    ensures
        r@ == "https://beta.dicecloud.com/api/creature/"@ + spec_trim(caracter_id@),
{
    let mut out = "https://beta.dicecloud.com/api/creature/".to_owned();
    let id = trim(caracter_id.as_str());
    out.append(id.as_str());
    out
}

/// Renders a signed bonus: non-negative bonuses get an explicit plus sign.
pub fn bns_translator(b: i64) -> (r: String)
    ensures
        b >= 0 ==> r@ == seq!['+'] + spec_i64_dec(b as int),
        b < 0 ==> r@ == spec_i64_dec(b as int),
{
    if b >= 0 {
        let mut out = "+".to_owned();
        proof {
            reveal_strlit("+");
        }
        assert(out@ =~= seq!['+']);
        let digits = i64_to_string(b);
        out.append(digits.as_str());
        out
    } else {
        i64_to_string(b)
    }
}

} // verus!
