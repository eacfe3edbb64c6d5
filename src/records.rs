//! The three record families: their fields, how each is read from bytes
//! with its rules checked, and the line each renders to.
use vstd::prelude::*;
use vstd::string::*;

use crate::error::{DecodeError, Field};
use crate::pascal::{pascal_spec, read_pascal_string};
use crate::reader::{le16, le32, ByteReader};
use crate::text::{hex, push_hex};

verus! {

/// A storage directive: a data area at an offset.
#[derive(Clone, Copy, Debug, PartialEq, Eq, Structural)]
pub struct Record2x {
    pub rtype: u8,
    pub var_len: u8,
    pub offset: u32,
    pub area_len: u16,
}

/// A label or an equate: an address with a name.
#[derive(Debug)]
pub struct Record4x {
    pub rtype: u8,
    pub var_len: u8,
    pub address: u32,
    pub count: u16,
    pub label: String,
}

/// The value of a [`Record4x`], with its label as characters.
pub struct Record4xView {
    pub rtype: u8,
    pub var_len: u8,
    pub address: u32,
    pub count: u16,
    pub label: Seq<char>,
}

impl View for Record4x {
    type V = Record4xView;

    open spec fn view(&self) -> Record4xView {
        Record4xView {
            rtype: self.rtype,
            var_len: self.var_len,
            address: self.address,
            count: self.count,
            label: self.label@,
        }
    }
}

/// An assembler directive: origin, register width, or comment.
#[derive(Debug)]
pub struct Record6x {
    pub rtype: u8,
    pub len: u8,
    pub offset: u32,
    pub count: u32,
    pub arg: u32,
    pub label: String,
}

/// The value of a [`Record6x`], with its label as characters.
pub struct Record6xView {
    pub rtype: u8,
    pub len: u8,
    pub offset: u32,
    pub count: u32,
    pub arg: u32,
    pub label: Seq<char>,
}

impl View for Record6x {
    type V = Record6xView;

    open spec fn view(&self) -> Record6xView {
        Record6xView {
            rtype: self.rtype,
            len: self.len,
            offset: self.offset,
            count: self.count,
            arg: self.arg,
            label: self.label@,
        }
    }
}

pub open spec fn eof<T>() -> Result<T, DecodeError> {
    Err(DecodeError::UnexpectedEndOfInput)
}

pub open spec fn wrong_family<T>(expected: u8, got: u8) -> Result<T, DecodeError> {
    Err(DecodeError::FamilyMismatch { expected, got })
}

pub open spec fn violation<T>(rtype: u8, field: Field, value: u32) -> Result<T, DecodeError> {
    Err(DecodeError::FieldInvariantViolation { rtype, field, value })
}

// ---------------------------------------------------------------- 2x

/// The 2x record at the front of `s`, and how many bytes reading it takes
/// (up to the point of failure, where it fails).
pub open spec fn parse_2x(s: Seq<u8>) -> (Result<Record2x, DecodeError>, nat) {
    if s.len() < 1 {
        (eof(), 0)
    } else if s[0] & 0xf0 != 0x20 {
        (wrong_family(0x20, s[0]), 1)
    } else if s.len() < 2 {
        (eof(), 1)
    } else if s.len() < 6 {
        (eof(), 2)
    } else if s.len() < 8 {
        (eof(), 6)
    } else if s[1] != 0 {
        (violation(s[0], Field::VarLen, s[1] as u32), 8)
    } else {
        (
            Ok(
                Record2x {
                    rtype: s[0],
                    var_len: s[1],
                    offset: le32(s.skip(2)) as u32,
                    area_len: le16(s.skip(6)) as u16,
                },
            ),
            8,
        )
    }
}

pub open spec fn mnemonic_2x(rtype: u8) -> Option<Seq<char>> {
    if rtype == 0x20 {
        Some("DB  "@)
    } else if rtype == 0x21 {
        Some("DW  "@)
    } else if rtype == 0x23 {
        Some("DA  "@)
    } else if rtype == 0x27 {
        Some("HEX "@)
    } else if rtype == 0x28 {
        Some("DS  "@)
    } else if rtype == 0x29 {
        Some("ASC "@)
    } else {
        None
    }
}

pub open spec fn render_2x(r: Record2x) -> Seq<char> {
    match mnemonic_2x(r.rtype) {
        Some(m) => m + "+$"@ + hex(r.offset as nat, 4) + ", $"@ + hex(r.area_len as nat, 2),
        None => "rtype "@ + hex(r.rtype as nat, 2) + " var_len "@ + hex(r.var_len as nat, 2)
            + " offset "@ + hex(r.offset as nat, 8) + " area_len "@ + hex(r.area_len as nat, 4),
    }
}

fn mnemonic_2x_str(rtype: u8) -> (m: Option<&'static str>)
    ensures
        m is Some <==> mnemonic_2x(rtype) is Some,
        m is Some ==> m->0@ == mnemonic_2x(rtype)->0,
{
    match rtype {
        0x20 => Some("DB  "),
        0x21 => Some("DW  "),
        0x23 => Some("DA  "),
        0x27 => Some("HEX "),
        0x28 => Some("DS  "),
        0x29 => Some("ASC "),
        _ => None,
    }
}

impl Record2x {
    /// Reads one 2x record: its tag must be of the 2x family and it carries
    /// no variable part.
    pub fn read(r: &mut ByteReader) -> (res: Result<Record2x, DecodeError>)
        ensures
            res == parse_2x(old(r)@).0,
            final(r)@ == old(r)@.skip(parse_2x(old(r)@).1 as int),
            res is Ok ==> res->Ok_0.rtype & 0xf0 == 0x20 && res->Ok_0.var_len == 0,
            old(r)@.len() >= 1 && old(r)@[0] & 0xf0 != 0x20 ==> res is Err,
            old(r)@.len() >= 8 && old(r)@[1] != 0 ==> res is Err,
    {
        let ghost s = r@;
        let rtype = match r.read_u8() {
            Ok(b) => b,
            Err(e) => {
                proof { assert(s.skip(0) =~= s); }
                return Err(e);
            }
        };
        if rtype & 0xf0 != 0x20 {
            return Err(DecodeError::FamilyMismatch { expected: 0x20, got: rtype });
        }
        let var_len = match r.read_u8() {
            Ok(b) => b,
            Err(e) => return Err(e),
        };
        proof { assert(r@ =~= s.skip(2)); }
        let offset = match r.read_u32_le() {
            Ok(v) => v,
            Err(e) => return Err(e),
        };
        proof { assert(r@ =~= s.skip(6)); }
        let area_len = match r.read_u16_le() {
            Ok(v) => v,
            Err(e) => return Err(e),
        };
        proof { assert(r@ =~= s.skip(8)); }
        if var_len != 0 {
            return Err(
                DecodeError::FieldInvariantViolation {
                    rtype,
                    field: Field::VarLen,
                    value: var_len as u32,
                },
            );
        }
        Ok(Record2x { rtype, var_len, offset, area_len })
    }

    /// The record's line: its directive where the tag names one, else every
    /// field in hexadecimal.
    pub fn render(&self) -> (line: String)
        ensures
            line@ == render_2x(*self),
    {
        let mut s = String::new();
        match mnemonic_2x_str(self.rtype) {
            Some(m) => {
                s.append(m);
                s.append("+$");
                push_hex(&mut s, self.offset, 4);
                s.append(", $");
                push_hex(&mut s, self.area_len as u32, 2);
            },
            None => {
                s.append("rtype ");
                push_hex(&mut s, self.rtype as u32, 2);
                s.append(" var_len ");
                push_hex(&mut s, self.var_len as u32, 2);
                s.append(" offset ");
                push_hex(&mut s, self.offset, 8);
                s.append(" area_len ");
                push_hex(&mut s, self.area_len as u32, 4);
            },
        }
        s
    }
}

// ---------------------------------------------------------------- 4x

/// The 4x record at the front of `s`, and how many bytes reading it takes
/// (up to the point of failure, where it fails).
pub open spec fn parse_4x(s: Seq<u8>) -> (Result<Record4xView, DecodeError>, nat) {
    if s.len() < 1 {
        (eof(), 0)
    } else if s[0] & 0xf0 != 0x40 {
        (wrong_family(0x40, s[0]), 1)
    } else if s.len() < 2 {
        (eof(), 1)
    } else if s[1] == 0 {
        (violation(s[0], Field::VarLen, 0), 2)
    } else if s.len() < 6 {
        (eof(), 2)
    } else if s.len() < 8 {
        (eof(), 6)
    } else {
        let p = pascal_spec(s.skip(8), s[1]);
        let used = 8 + p.1;
        match p.0 {
            Err(e) => (Err(e), used),
            Ok(label) => if s[0] == 0x44 && le16(s.skip(6)) != 1 {
                (violation(s[0], Field::Count, le16(s.skip(6)) as u32), used)
            } else {
                (
                    Ok(
                        Record4xView {
                            rtype: s[0],
                            var_len: s[1],
                            address: le32(s.skip(2)) as u32,
                            count: le16(s.skip(6)) as u16,
                            label,
                        },
                    ),
                    used,
                )
            },
        }
    }
}

pub open spec fn render_4x(r: Record4xView) -> Seq<char> {
    if r.rtype == 0x40 {
        "LAB +$"@ + hex(r.address as nat, 4) + ", "@ + r.label + "         # "@ + hex(
            r.count as nat,
            4,
        )
    } else if r.rtype == 0x44 {
        "EQU  $"@ + hex(r.address as nat, 4) + ", "@ + r.label
    } else {
        "rtype "@ + hex(r.rtype as nat, 2) + " var_len "@ + hex(r.var_len as nat, 2)
            + " address "@ + hex(r.address as nat, 8) + " count "@ + hex(r.count as nat, 4) + " "@
            + r.label
    }
}

impl Record4x {
    /// Reads one 4x record: its tag must be of the 4x family, it must carry
    /// a label, and an equate must have a count of one.
    pub fn read(r: &mut ByteReader) -> (res: Result<Record4x, DecodeError>)
        ensures
            match parse_4x(old(r)@).0 {
                Ok(v) => res is Ok && res->Ok_0@ == v,
                Err(e) => res == Err::<Record4x, DecodeError>(e),
            },
            final(r)@ == old(r)@.skip(parse_4x(old(r)@).1 as int),
    {
        let ghost s = r@;
        let rtype = match r.read_u8() {
            Ok(b) => b,
            Err(e) => {
                proof { assert(s.skip(0) =~= s); }
                return Err(e);
            }
        };
        if rtype & 0xf0 != 0x40 {
            return Err(DecodeError::FamilyMismatch { expected: 0x40, got: rtype });
        }
        let var_len = match r.read_u8() {
            Ok(b) => b,
            Err(e) => return Err(e),
        };
        proof { assert(r@ =~= s.skip(2)); }
        if var_len == 0 {
            return Err(
                DecodeError::FieldInvariantViolation { rtype, field: Field::VarLen, value: 0 },
            );
        }
        let address = match r.read_u32_le() {
            Ok(v) => v,
            Err(e) => return Err(e),
        };
        proof { assert(r@ =~= s.skip(6)); }
        let count = match r.read_u16_le() {
            Ok(v) => v,
            Err(e) => return Err(e),
        };
        proof { assert(r@ =~= s.skip(8)); }
        let label = read_pascal_string(r, var_len);
        proof {
            assert(r@ =~= s.skip((8 + pascal_spec(s.skip(8), var_len).1) as int));
        }
        let label = match label {
            Ok(t) => t,
            Err(e) => return Err(e),
        };
        if rtype == 0x44 && count != 1 {
            return Err(
                DecodeError::FieldInvariantViolation {
                    rtype,
                    field: Field::Count,
                    value: count as u32,
                },
            );
        }
        Ok(Record4x { rtype, var_len, address, count, label })
    }

    /// The record's line: a label, an equate, or every field in hexadecimal
    /// followed by the label.
    pub fn render(&self) -> (line: String)
        ensures
            line@ == render_4x(self@),
    {
        let mut s = String::new();
        if self.rtype == 0x40 {
            s.append("LAB +$");
            push_hex(&mut s, self.address, 4);
            s.append(", ");
            s.append(self.label.as_str());
            s.append("         # ");
            push_hex(&mut s, self.count as u32, 4);
        } else if self.rtype == 0x44 {
            s.append("EQU  $");
            push_hex(&mut s, self.address, 4);
            s.append(", ");
            s.append(self.label.as_str());
        } else {
            s.append("rtype ");
            push_hex(&mut s, self.rtype as u32, 2);
            s.append(" var_len ");
            push_hex(&mut s, self.var_len as u32, 2);
            s.append(" address ");
            push_hex(&mut s, self.address, 8);
            s.append(" count ");
            push_hex(&mut s, self.count as u32, 4);
            s.append(" ");
            s.append(self.label.as_str());
        }
        s
    }
}

// ---------------------------------------------------------------- 6x

/// The rule that a 6x record of type `rtype` places on its fields, as the
/// error it gives where broken.
pub open spec fn rule_6x(rtype: u8, len: u8, count: u32) -> Option<DecodeError> {
    if rtype == 0x60 && len != 0 {
        Some(DecodeError::FieldInvariantViolation { rtype, field: Field::VarLen, value: len as u32 })
    } else if rtype == 0x61 && count != 1 {
        Some(DecodeError::FieldInvariantViolation { rtype, field: Field::Count, value: count })
    } else if rtype == 0x61 && len != 0 {
        Some(DecodeError::FieldInvariantViolation { rtype, field: Field::VarLen, value: len as u32 })
    } else if rtype == 0x66 && count != 1 {
        Some(DecodeError::FieldInvariantViolation { rtype, field: Field::Count, value: count })
    } else {
        None
    }
}

/// The 6x record at the front of `s`, and how many bytes reading it takes
/// (up to the point of failure, where it fails).
pub open spec fn parse_6x(s: Seq<u8>) -> (Result<Record6xView, DecodeError>, nat) {
    if s.len() < 1 {
        (eof(), 0)
    } else if s[0] & 0xf0 != 0x60 {
        (wrong_family(0x60, s[0]), 1)
    } else if s.len() < 2 {
        (eof(), 1)
    } else if s.len() < 6 {
        (eof(), 2)
    } else if s.len() < 10 {
        (eof(), 6)
    } else if s.len() < 14 {
        (eof(), 10)
    } else {
        let p = pascal_spec(s.skip(14), s[1]);
        let used = 14 + p.1;
        match p.0 {
            Err(e) => (Err(e), used),
            Ok(label) => match rule_6x(s[0], s[1], le32(s.skip(6)) as u32) {
                Some(e) => (Err(e), used),
                None => (
                    Ok(
                        Record6xView {
                            rtype: s[0],
                            len: s[1],
                            offset: le32(s.skip(2)) as u32,
                            count: le32(s.skip(6)) as u32,
                            arg: le32(s.skip(10)) as u32,
                            label,
                        },
                    ),
                    used,
                ),
            },
        }
    }
}

pub open spec fn render_6x(r: Record6xView) -> Seq<char> {
    if r.rtype == 0x60 {
        "ORG +$"@ + hex(r.offset as nat, 4) + ", $"@ + hex(r.arg as nat, 4) + ", L$"@ + hex(
            r.count as nat,
            4,
        )
    } else if r.rtype == 0x61 {
        "MX  +$"@ + hex(r.offset as nat, 4) + ", %"@ + hex(r.arg as nat, 2)
    } else if r.rtype == 0x66 {
        "COM +$"@ + hex(r.offset as nat, 4) + ", "@ + r.label
    } else {
        hex(r.rtype as nat, 2) + " "@ + hex(r.len as nat, 2) + " "@ + hex(r.offset as nat, 8)
            + " "@ + hex(r.count as nat, 8) + " "@ + hex(r.arg as nat, 8) + " "@ + r.label
    }
}

impl Record6x {
    /// Reads one 6x record: its tag must be of the 6x family, and an
    /// origin, a register width or a comment must meet its type's rule.
    pub fn read(r: &mut ByteReader) -> (res: Result<Record6x, DecodeError>)
        ensures
            match parse_6x(old(r)@).0 {
                Ok(v) => res is Ok && res->Ok_0@ == v,
                Err(e) => res == Err::<Record6x, DecodeError>(e),
            },
            final(r)@ == old(r)@.skip(parse_6x(old(r)@).1 as int),
    {
        let ghost s = r@;
        let rtype = match r.read_u8() {
            Ok(b) => b,
            Err(e) => {
                proof { assert(s.skip(0) =~= s); }
                return Err(e);
            }
        };
        if rtype & 0xf0 != 0x60 {
            return Err(DecodeError::FamilyMismatch { expected: 0x60, got: rtype });
        }
        let len = match r.read_u8() {
            Ok(b) => b,
            Err(e) => return Err(e),
        };
        proof { assert(r@ =~= s.skip(2)); }
        let offset = match r.read_u32_le() {
            Ok(v) => v,
            Err(e) => return Err(e),
        };
        proof { assert(r@ =~= s.skip(6)); }
        let count = match r.read_u32_le() {
            Ok(v) => v,
            Err(e) => return Err(e),
        };
        proof { assert(r@ =~= s.skip(10)); }
        let arg = match r.read_u32_le() {
            Ok(v) => v,
            Err(e) => return Err(e),
        };
        proof { assert(r@ =~= s.skip(14)); }
        let label = read_pascal_string(r, len);
        proof {
            assert(r@ =~= s.skip((14 + pascal_spec(s.skip(14), len).1) as int));
        }
        let label = match label {
            Ok(t) => t,
            Err(e) => return Err(e),
        };
        if rtype == 0x60 && len != 0 {
            return Err(
                DecodeError::FieldInvariantViolation {
                    rtype,
                    field: Field::VarLen,
                    value: len as u32,
                },
            );
        }
        if rtype == 0x61 && count != 1 {
            return Err(
                DecodeError::FieldInvariantViolation { rtype, field: Field::Count, value: count },
            );
        }
        if rtype == 0x61 && len != 0 {
            return Err(
                DecodeError::FieldInvariantViolation {
                    rtype,
                    field: Field::VarLen,
                    value: len as u32,
                },
            );
        }
        if rtype == 0x66 && count != 1 {
            return Err(
                DecodeError::FieldInvariantViolation { rtype, field: Field::Count, value: count },
            );
        }
        Ok(Record6x { rtype, len, offset, count, arg, label })
    }

    /// The record's line: an origin, a register width, a comment, or every
    /// field in hexadecimal followed by the label.
    pub fn display_as_text(&self) -> (line: String)
        ensures
            line@ == render_6x(self@),
    {
        let mut s = String::new();
        if self.rtype == 0x60 {
            s.append("ORG +$");
            push_hex(&mut s, self.offset, 4);
            s.append(", $");
            push_hex(&mut s, self.arg, 4);
            s.append(", L$");
            push_hex(&mut s, self.count, 4);
        } else if self.rtype == 0x61 {
            s.append("MX  +$");
            push_hex(&mut s, self.offset, 4);
            s.append(", %");
            push_hex(&mut s, self.arg, 2);
        } else if self.rtype == 0x66 {
            s.append("COM +$");
            push_hex(&mut s, self.offset, 4);
            s.append(", ");
            s.append(self.label.as_str());
        } else {
            push_hex(&mut s, self.rtype as u32, 2);
            s.append(" ");
            push_hex(&mut s, self.len as u32, 2);
            s.append(" ");
            push_hex(&mut s, self.offset, 8);
            s.append(" ");
            push_hex(&mut s, self.count, 8);
            s.append(" ");
            push_hex(&mut s, self.arg, 8);
            s.append(" ");
            s.append(self.label.as_str());
        }
        s
    }
}

} // verus!
