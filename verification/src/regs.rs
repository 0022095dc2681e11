//! The register file's names. The register set is fixed: general-purpose
//! `R0`–`R12`, parameter `P0`–`P12`, return `RET0`–`RET12`, and the loop
//! counter `L0`. A token names a register only under exactly one of those
//! spellings.

use vstd::prelude::*;

use crate::numparse::spec_is_digit;

verus! {

/// One of the machine's fixed register names.
#[derive(Clone, Copy, Debug, PartialEq, Eq, Structural)]
pub enum RegName {
    /// General purpose `R0`–`R12`.
    R(u8),
    /// Parameter `P0`–`P12`.
    P(u8),
    /// Return `RET0`–`RET12`.
    Ret(u8),
    /// The loop counter `L0`.
    L,
}

impl RegName {
    /// The numbered kinds carry an index of at most twelve.
    pub open spec fn wf(self) -> bool {
        match self {
            RegName::R(i) => i <= 12,
            RegName::P(i) => i <= 12,
            RegName::Ret(i) => i <= 12,
            RegName::L => true,
        }
    }
}

/// The slot of a register inside the forty-slot register file.
pub open spec fn spec_reg_index(r: RegName) -> int {
    match r {
        RegName::R(i) => i as int,
        RegName::P(i) => 13 + i as int,
        RegName::Ret(i) => 26 + i as int,
        RegName::L => 39,
    }
}

pub proof fn lemma_reg_index_bounds(r: RegName)
    requires
        r.wf(),
    ensures
        0 <= spec_reg_index(r) < 40,
{
}

/// The register number spelt by a suffix: a single digit `0`–`9`, or `10`,
/// `11`, `12`; no signs, no leading zeros.
pub open spec fn spec_reg_idx_of(s: Seq<char>) -> Option<u8> {
    if s.len() == 1 && spec_is_digit(s[0]) {
        Some(((s[0] as u32) - 0x30) as u8)
    } else if s.len() == 2 && s[0] == '1' && (s[1] == '0' || s[1] == '1' || s[1] == '2') {
        Some((10 + (s[1] as u32) - 0x30) as u8)
    } else {
        None
    }
}

/// The register a token names, if any: exactly the spellings `R0`–`R12`,
/// `P0`–`P12`, `RET0`–`RET12` and `L0`.
pub open spec fn spec_reg_of_token(t: Seq<char>) -> Option<RegName> {
    if t.len() >= 3 && t[0] == 'R' && t[1] == 'E' && t[2] == 'T' {
        match spec_reg_idx_of(t.skip(3)) {
            Some(i) => Some(RegName::Ret(i)),
            None => None,
        }
    } else if t.len() >= 1 && t[0] == 'R' {
        match spec_reg_idx_of(t.skip(1)) {
            Some(i) => Some(RegName::R(i)),
            None => None,
        }
    } else if t.len() >= 1 && t[0] == 'P' {
        match spec_reg_idx_of(t.skip(1)) {
            Some(i) => Some(RegName::P(i)),
            None => None,
        }
    } else if t.len() == 2 && t[0] == 'L' && t[1] == '0' {
        Some(RegName::L)
    } else {
        None
    }
}

fn reg_idx_of(v: &Vec<char>, from: usize) -> (r: Option<u8>)
    requires
        from <= v@.len(),
    ensures
        r == spec_reg_idx_of(v@.skip(from as int)),
{
    let ghost s = v@.skip(from as int);
    let n = v.len();
    if n - from == 1 {
        let c = v[from];
        let u = c as u32;
        proof {
            assert(s[0] == v@[from as int]);
        }
        if 0x30 <= u && u <= 0x39 {
            Some((u - 0x30) as u8)
        } else {
            None
        }
    } else if n - from == 2 {
        let c0 = v[from];
        let c1 = v[from + 1];
        proof {
            assert(s[0] == v@[from as int]);
            assert(s[1] == v@[from as int + 1]);
        }
        if c0 == '1' && (c1 == '0' || c1 == '1' || c1 == '2') {
            Some((10 + (c1 as u32) - 0x30) as u8)
        } else {
            None
        }
    } else {
        None
    }
}

/// Reads a token as a register name, as [`spec_reg_of_token`] describes.
pub fn reg_of_token(v: &Vec<char>) -> (r: Option<RegName>)
    ensures
        r == spec_reg_of_token(v@),
        match r {
            Some(reg) => reg.wf(),
            None => true,
        },
{
    let n = v.len();
    if n >= 3 && v[0] == 'R' && v[1] == 'E' && v[2] == 'T' {
        match reg_idx_of(v, 3) {
            Some(i) => Some(RegName::Ret(i)),
            None => None,
        }
    } else if n >= 1 && v[0] == 'R' {
        match reg_idx_of(v, 1) {
            Some(i) => Some(RegName::R(i)),
            None => None,
        }
    } else if n >= 1 && v[0] == 'P' {
        match reg_idx_of(v, 1) {
            Some(i) => Some(RegName::P(i)),
            None => None,
        }
    } else if n == 2 && v[0] == 'L' && v[1] == '0' {
        Some(RegName::L)
    } else {
        None
    }
}

/// The slot of a register inside the register file.
pub fn reg_index(r: RegName) -> (i: usize)
    requires
        r.wf(),
    ensures
        i as int == spec_reg_index(r),
        i < 40,
{
    match r {
        RegName::R(i) => i as usize,
        RegName::P(i) => 13 + i as usize,
        RegName::Ret(i) => 26 + i as usize,
        RegName::L => 39,
    }
}

} // verus!
