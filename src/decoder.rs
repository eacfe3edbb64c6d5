//! Sections of records, and the whole file: a header count followed by the
//! 2x, 4x and 6x sections in that order.
use vstd::prelude::*;
use vstd::string::*;

use crate::error::DecodeError;
use crate::pascal::text_result;
use crate::reader::{le16, ByteReader};
use crate::records::{parse_2x, parse_4x, parse_6x, render_2x, render_4x, render_6x, Record2x, Record4x, Record6x};
use crate::text::{dec, push_dec};

verus! {

/// A family of records, named by the high nibble of their tags.
#[derive(Clone, Copy, Debug, PartialEq, Eq, Structural)]
pub enum Family {
    /// `0x2_` tags: storage directives.
    Data2x,
    /// `0x4_` tags: labels and equates.
    Label4x,
    /// `0x6_` tags: origin, register width and comment directives.
    Directive6x,
}

/// What decoding produced: the lines emitted, how it ended, and the bytes
/// left unread.
pub struct Trace {
    pub lines: Seq<Seq<char>>,
    pub outcome: Result<(), DecodeError>,
    pub rest: Seq<u8>,
}

/// The texts of a run of lines.
pub open spec fn texts(v: Seq<String>) -> Seq<Seq<char>> {
    v.map_values(|l: String| l@)
}

pub open spec fn family_name(f: Family) -> Seq<char> {
    match f {
        Family::Data2x => "2x"@,
        Family::Label4x => "4x"@,
        Family::Directive6x => "6x"@,
    }
}

/// The line of the record of family `f` at the front of `s`, and how many
/// bytes reading it takes.
#[verifier::opaque]
pub open spec fn parse_line(f: Family, s: Seq<u8>) -> (Result<Seq<char>, DecodeError>, nat) {
    match f {
        Family::Data2x => {
            let p = parse_2x(s);
            (
                match p.0 {
                    Ok(v) => Ok(render_2x(v)),
                    Err(e) => Err(e),
                },
                p.1,
            )
        },
        Family::Label4x => {
            let p = parse_4x(s);
            (
                match p.0 {
                    Ok(v) => Ok(render_4x(v)),
                    Err(e) => Err(e),
                },
                p.1,
            )
        },
        Family::Directive6x => {
            let p = parse_6x(s);
            (
                match p.0 {
                    Ok(v) => Ok(render_6x(v)),
                    Err(e) => Err(e),
                },
                p.1,
            )
        },
    }
}

/// `n` records of family `f` read from the front of `s`, stopping at the
/// first that fails.
pub open spec fn records_spec(f: Family, s: Seq<u8>, n: nat) -> Trace
    decreases n,
{
    if n == 0 {
        Trace { lines: Seq::empty(), outcome: Ok(()), rest: s }
    } else {
        let p = parse_line(f, s);
        match p.0 {
            Err(e) => Trace { lines: Seq::empty(), outcome: Err(e), rest: s.skip(p.1 as int) },
            Ok(line) => {
                let t = records_spec(f, s.skip(p.1 as int), (n - 1) as nat);
                Trace { lines: seq![line] + t.lines, outcome: t.outcome, rest: t.rest }
            },
        }
    }
}

pub open spec fn section_banner(f: Family, n: nat) -> Seq<char> {
    "# "@ + family_name(f) + " section ("@ + dec(n) + " records)"@
}

/// A section of family `f` at the front of `s`: its record count, its
/// banner, then its records.
pub open spec fn section_spec(f: Family, s: Seq<u8>) -> Trace {
    if s.len() < 2 {
        Trace { lines: Seq::empty(), outcome: Err(DecodeError::UnexpectedEndOfInput), rest: s }
    } else {
        let t = records_spec(f, s.skip(2), le16(s));
        Trace { lines: seq![section_banner(f, le16(s))] + t.lines, outcome: t.outcome, rest: t.rest }
    }
}

/// Goes on with a section of family `f` where `t` ended well.
pub open spec fn then_section(t: Trace, f: Family) -> Trace {
    if t.outcome is Err {
        t
    } else {
        let u = section_spec(f, t.rest);
        Trace { lines: t.lines + u.lines, outcome: u.outcome, rest: u.rest }
    }
}

pub open spec fn file_banner(n: nat) -> Seq<char> {
    "# TFBD ("@ + dec(n) + " records total)"@
}

/// A whole file at the front of `s`.
pub open spec fn decode_spec(s: Seq<u8>) -> Trace {
    if s.len() < 2 {
        Trace { lines: Seq::empty(), outcome: Err(DecodeError::UnexpectedEndOfInput), rest: s }
    } else {
        let head = Trace { lines: seq![file_banner(le16(s))], outcome: Ok(()), rest: s.skip(2) };
        then_section(
            then_section(then_section(head, Family::Data2x), Family::Label4x),
            Family::Directive6x,
        )
    }
}

/// Reads one record of family `f` and renders its line.
pub fn read_line(r: &mut ByteReader, f: Family) -> (res: Result<String, DecodeError>)
    ensures
        text_result(res, parse_line(f, old(r)@).0),
        final(r)@ == old(r)@.skip(parse_line(f, old(r)@).1 as int),
{
    proof { reveal(parse_line); }
    match f {
        Family::Data2x => match Record2x::read(r) {
            Ok(rec) => Ok(rec.render()),
            Err(e) => Err(e),
        },
        Family::Label4x => match Record4x::read(r) {
            Ok(rec) => Ok(rec.render()),
            Err(e) => Err(e),
        },
        Family::Directive6x => match Record6x::read(r) {
            Ok(rec) => Ok(rec.display_as_text()),
            Err(e) => Err(e),
        },
    }
}

fn banner_of(f: Family, n: u16) -> (line: String)
    ensures
        line@ == section_banner(f, n as nat),
{
    let mut s = String::new();
    s.append("# ");
    match f {
        Family::Data2x => s.append("2x"),
        Family::Label4x => s.append("4x"),
        Family::Directive6x => s.append("6x"),
    }
    s.append(" section (");
    push_dec(&mut s, n as u32);
    s.append(" records)");
    s
}

/// Reads a section of family `f`: its record count, then that many records,
/// pushing its banner and each record's line to `out` as it goes. The
/// first record that fails ends the section; lines already pushed stay.
pub fn decode_section(r: &mut ByteReader, out: &mut Vec<String>, f: Family) -> (res: Result<
    (),
    DecodeError,
>)
    ensures
        texts(final(out)@) == texts(old(out)@) + section_spec(f, old(r)@).lines,
        res == section_spec(f, old(r)@).outcome,
        final(r)@ == section_spec(f, old(r)@).rest,
{
    let ghost s = r@;
    let n = match r.read_u16_le() {
        Ok(v) => v,
        Err(e) => return Err(e),
    };
    let ghost body = r@;
    let ghost whole = records_spec(f, body, n as nat);
    let ghost out0 = texts(out@);
    out.push(banner_of(f, n));
    proof {
        assert(texts(out@) =~= out0 + seq![section_banner(f, n as nat)]);
        assert(body =~= s.skip(2));
        assert(section_spec(f, s).lines =~= seq![section_banner(f, n as nat)] + whole.lines);
    }
    let mut i: u16 = 0;
    while i < n
        invariant
            i <= n,
            whole == records_spec(f, body, n as nat),
            out0 == texts(old(out)@),
            s == old(r)@,
            section_spec(f, s).lines == seq![section_banner(f, n as nat)] + whole.lines,
            section_spec(f, s).outcome == whole.outcome,
            section_spec(f, s).rest == whole.rest,
            ({
                let t = records_spec(f, r@, (n - i) as nat);
                &&& texts(out@) + t.lines == out0 + seq![section_banner(f, n as nat)] + whole.lines
                &&& t.outcome == whole.outcome
                &&& t.rest == whole.rest
            }),
        decreases n - i,
    {
        let ghost before = r@;
        let ghost out_before = texts(out@);
        let line = read_line(r, f);
        match line {
            Ok(l) => {
                out.push(l);
                proof {
                    let t = records_spec(f, r@, (n - i - 1) as nat);
                    assert(texts(out@) =~= out_before.push(l@));
                    assert(out_before + records_spec(f, before, (n - i) as nat).lines
                        =~= texts(out@) + t.lines);
                }
            },
            Err(e) => {
                proof {
                    let t = records_spec(f, before, (n - i) as nat);
                    assert(parse_line(f, before).0 == Err::<Seq<char>, DecodeError>(e));
                    assert(t.outcome == Err::<(), DecodeError>(e));
                    assert(t.rest == r@);
                    assert(t.lines =~= Seq::<Seq<char>>::empty());
                    assert(texts(out@) + t.lines =~= texts(out@));
                    assert(texts(out@) =~= texts(old(out)@) + section_spec(f, s).lines);
                }
                return Err(e);
            },
        }
        i = i + 1;
    }
    proof {
        assert(texts(out@) + Seq::<Seq<char>>::empty() =~= texts(out@));
        assert(texts(out@) =~= texts(old(out)@) + section_spec(f, s).lines);
    }
    Ok(())
}

/// The 2x section.
pub fn decode_2x(r: &mut ByteReader, out: &mut Vec<String>) -> (res: Result<(), DecodeError>)
    ensures
        texts(final(out)@) == texts(old(out)@) + section_spec(Family::Data2x, old(r)@).lines,
        res == section_spec(Family::Data2x, old(r)@).outcome,
        final(r)@ == section_spec(Family::Data2x, old(r)@).rest,
{
    decode_section(r, out, Family::Data2x)
}

/// The 4x section.
pub fn decode_4x(r: &mut ByteReader, out: &mut Vec<String>) -> (res: Result<(), DecodeError>)
    ensures
        texts(final(out)@) == texts(old(out)@) + section_spec(Family::Label4x, old(r)@).lines,
        res == section_spec(Family::Label4x, old(r)@).outcome,
        final(r)@ == section_spec(Family::Label4x, old(r)@).rest,
{
    decode_section(r, out, Family::Label4x)
}

/// The 6x section.
pub fn decode_6x(r: &mut ByteReader, out: &mut Vec<String>) -> (res: Result<(), DecodeError>)
    ensures
        texts(final(out)@) == texts(old(out)@) + section_spec(Family::Directive6x, old(r)@).lines,
        res == section_spec(Family::Directive6x, old(r)@).outcome,
        final(r)@ == section_spec(Family::Directive6x, old(r)@).rest,
{
    decode_section(r, out, Family::Directive6x)
}

/// Decodes a whole file: the header's record count and its banner, then
/// the 2x, 4x and 6x sections. Lines go to `out` as they are produced; the
/// first error ends the decode and is returned.
pub fn decode(r: &mut ByteReader, out: &mut Vec<String>) -> (res: Result<(), DecodeError>)
    ensures
        texts(final(out)@) == texts(old(out)@) + decode_spec(old(r)@).lines,
        res == decode_spec(old(r)@).outcome,
        final(r)@ == decode_spec(old(r)@).rest,
{
    let ghost s = r@;
    let ghost out0 = texts(out@);
    let record_count = match r.read_u16_le() {
        Ok(v) => v,
        Err(e) => return Err(e),
    };
    let mut head = String::new();
    head.append("# TFBD (");
    push_dec(&mut head, record_count as u32);
    head.append(" records total)");
    out.push(head);
    let ghost t0 = Trace { lines: seq![file_banner(record_count as nat)], outcome: Ok(()), rest: s.skip(2) };
    proof { assert(texts(out@) =~= out0 + t0.lines); }
    let ghost t1 = then_section(t0, Family::Data2x);
    match decode_2x(r, out) {
        Ok(()) => {},
        Err(e) => {
            proof { assert(texts(out@) =~= out0 + t1.lines); }
            return Err(e);
        },
    }
    proof { assert(texts(out@) =~= out0 + t1.lines); }
    let ghost t2 = then_section(t1, Family::Label4x);
    match decode_4x(r, out) {
        Ok(()) => {},
        Err(e) => {
            proof { assert(texts(out@) =~= out0 + t2.lines); }
            return Err(e);
        },
    }
    proof { assert(texts(out@) =~= out0 + t2.lines); }
    let ghost t3 = then_section(t2, Family::Directive6x);
    let res = decode_6x(r, out);
    proof { assert(texts(out@) =~= out0 + t3.lines); }
    res
}

} // verus!
