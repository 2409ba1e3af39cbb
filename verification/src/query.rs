//! Which binary command answers a background query.
use vstd::prelude::*;
use crate::text::str_eq;

verus! {

/// The binary-protocol queries that replace a text query on v2 firmware.
#[derive(Clone, Copy, Debug, PartialEq, Eq, Structural)]
pub enum BinaryQuery {
    TdList,
    ComboList,
    LeaderList,
    KoList,
    BtQuery,
    TamaQuery,
    WpmQuery,
    ListMacros,
    KeystatsBin,
    Features,
}

/// The binary query for a query tag, if the tag has one.
pub open spec fn spec_tag_to_binary_cmd(tag: Seq<char>) -> Option<BinaryQuery> {
    if tag == "td"@ {
        Some(BinaryQuery::TdList)
    } else if tag == "combo"@ {
        Some(BinaryQuery::ComboList)
    } else if tag == "leader"@ {
        Some(BinaryQuery::LeaderList)
    } else if tag == "ko"@ {
        Some(BinaryQuery::KoList)
    } else if tag == "bt"@ {
        Some(BinaryQuery::BtQuery)
    } else if tag == "tama"@ {
        Some(BinaryQuery::TamaQuery)
    } else if tag == "wpm"@ {
        Some(BinaryQuery::WpmQuery)
    } else if tag == "macros"@ {
        Some(BinaryQuery::ListMacros)
    } else if tag == "keystats"@ {
        Some(BinaryQuery::KeystatsBin)
    } else if tag == "features"@ {
        Some(BinaryQuery::Features)
    } else {
        None
    }
}

/// Map a query tag to its binary command.
pub fn tag_to_binary_cmd(tag: &str) -> (q: Option<BinaryQuery>)
    ensures
        q == spec_tag_to_binary_cmd(tag@),
{
    if str_eq(tag, "td") {
        Some(BinaryQuery::TdList)
    } else if str_eq(tag, "combo") {
        Some(BinaryQuery::ComboList)
    } else if str_eq(tag, "leader") {
        Some(BinaryQuery::LeaderList)
    } else if str_eq(tag, "ko") {
        Some(BinaryQuery::KoList)
    } else if str_eq(tag, "bt") {
        Some(BinaryQuery::BtQuery)
    } else if str_eq(tag, "tama") {
        Some(BinaryQuery::TamaQuery)
    } else if str_eq(tag, "wpm") {
        Some(BinaryQuery::WpmQuery)
    } else if str_eq(tag, "macros") {
        Some(BinaryQuery::ListMacros)
    } else if str_eq(tag, "keystats") {
        Some(BinaryQuery::KeystatsBin)
    } else if str_eq(tag, "features") {
        Some(BinaryQuery::Features)
    } else {
        None
    }
}

} // verus!
