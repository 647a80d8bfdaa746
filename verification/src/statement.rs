//! The interceptor's view of one host statement: its operation kind, the
//! relations it references, and its raw source text.

use vstd::prelude::*;

verus! {

/// The operation kind of a host statement.
#[derive(Clone, Copy, PartialEq, Eq, Structural, Debug)]
pub enum CmdKind {
    Select,
    Insert,
    Update,
    Delete,
    Other,
}

/// One entry of a statement's range table: a referenced relation, tagged
/// with whether the embedded engines own it.
#[derive(Clone, Copy, PartialEq, Eq, Structural, Debug)]
pub struct Relation {
    pub embedded: bool,
}

/// A host statement as the interceptor sees it. The source text is carried
/// as raw bytes, exactly as the host hands it over.
pub struct Statement {
    pub op: CmdKind,
    pub rtable: Vec<Relation>,
    pub source: Vec<u8>,
}

/// Some relation in the range table is owned by the embedded engines.
pub open spec fn spec_has_embedded(rt: Seq<Relation>) -> bool {
    exists|i: int| 0 <= i < rt.len() && rt[i].embedded
}

/// Reports whether any relation of the range table is embedded-engine-owned.
pub fn has_embedded_relation(rt: &Vec<Relation>) -> (r: bool)
    ensures
        r == spec_has_embedded(rt@),
{
    let mut i: usize = 0;
    while i < rt.len()
        invariant
            0 <= i <= rt@.len(),
            forall|j: int| 0 <= j < i ==> !rt@[j].embedded,
        decreases rt@.len() - i,
    {
        if rt[i].embedded {
            assert(rt@[i as int].embedded);
            return true;
        }
        i += 1;
    }
    false
}

/// Maps an upper-case ASCII letter to its lower-case form and leaves every
/// other byte unchanged.
pub open spec fn lower_byte(b: u8) -> u8 {
    if 65 <= b && b <= 90 {
        (b + 32) as u8
    } else {
        b
    }
}

/// The source text begins, case-insensitively, with the bulk-load literal
/// `copy`.
pub open spec fn spec_is_bulk_load(s: Seq<u8>) -> bool {
    &&& s.len() >= 4
    &&& lower_byte(s[0]) == 99
    &&& lower_byte(s[1]) == 111
    &&& lower_byte(s[2]) == 112
    &&& lower_byte(s[3]) == 121
}

fn lower_ascii(b: u8) -> (r: u8)
    ensures
        r == lower_byte(b),
{
    if 65 <= b && b <= 90 {
        b + 32
    } else {
        b
    }
}

/// Reports whether the source text begins, case-insensitively, with the
/// bulk-load literal. The test is purely textual: it looks at the raw bytes,
/// not at a parsed statement.
pub fn is_bulk_load(s: &Vec<u8>) -> (r: bool)
    ensures
        r == spec_is_bulk_load(s@),
{
    if s.len() < 4 {
        return false;
    }
    lower_ascii(s[0]) == 99 && lower_ascii(s[1]) == 111 && lower_ascii(s[2]) == 112 && lower_ascii(
        s[3],
    ) == 121
}

} // verus!
