//! Facts about decoding as a whole, stated over the specifications that
//! the decoding functions meet.
use vstd::prelude::*;

use crate::decoder::{decode_spec, file_banner, parse_line, records_spec, section_spec, then_section, Family, Trace};
use crate::error::DecodeError;
use crate::pascal::pascal_spec;
use crate::reader::le16;

verus! {

/// Reading `n` records yields at most `n` lines, and exactly `n` where it
/// succeeds.
pub proof fn lemma_records_line_count(f: Family, s: Seq<u8>, n: nat)
    ensures
        records_spec(f, s, n).lines.len() <= n,
        records_spec(f, s, n).outcome is Ok ==> records_spec(f, s, n).lines.len() == n,
    decreases n,
{
    if n > 0 {
        let p = parse_line(f, s);
        if p.0 is Ok {
            lemma_records_line_count(f, s.skip(p.1 as int), (n - 1) as nat);
        }
    }
}

/// A section renders one banner line and then one line per record: as many
/// record lines as its declared count where it decodes cleanly, and no more
/// than that where it stops at a bad record.
pub proof fn lemma_section_line_count(f: Family, s: Seq<u8>)
    requires
        s.len() >= 2,
    ensures
        section_spec(f, s).lines.len() >= 1,
        section_spec(f, s).lines.len() - 1 <= le16(s),
        section_spec(f, s).outcome is Ok ==> section_spec(f, s).lines.len() - 1 == le16(s),
{
    lemma_records_line_count(f, s.skip(2), le16(s));
}

/// A pascal string cut short before its last byte fails for want of
/// input; cut anywhere after, it reads the same.
pub proof fn lemma_pascal_prefix(s: Seq<u8>, n: u8, j: int)
    requires
        0 <= j <= s.len(),
        pascal_spec(s, n).0 is Ok,
    ensures
        j < pascal_spec(s, n).1 ==> pascal_spec(s.take(j), n).0 == Err::<Seq<char>, DecodeError>(
            DecodeError::UnexpectedEndOfInput,
        ),
        j >= pascal_spec(s, n).1 ==> pascal_spec(s.take(j), n) == pascal_spec(s, n),
{
    if n != 0 && j >= 1 + n {
        assert(s.take(j).subrange(1, 1 + n) =~= s.subrange(1, 1 + n));
    }
}

/// A record cut short before its last byte fails for want of input, never
/// with a value filled in; cut anywhere after, it reads the same.
pub proof fn lemma_line_prefix(f: Family, s: Seq<u8>, j: int)
    requires
        0 <= j <= s.len(),
        parse_line(f, s).0 is Ok,
    ensures
        j < parse_line(f, s).1 ==> parse_line(f, s.take(j)).0 == Err::<Seq<char>, DecodeError>(
            DecodeError::UnexpectedEndOfInput,
        ),
        j >= parse_line(f, s).1 ==> parse_line(f, s.take(j)) == parse_line(f, s),
        parse_line(f, s).1 <= s.len(),
{
    reveal(parse_line);
    let t = s.take(j);
    match f {
        Family::Data2x => {
            if j >= 8 {
                assert(t.skip(2).take(4) =~= s.skip(2).take(4));
                assert(t.skip(6).take(2) =~= s.skip(6).take(2));
            }
        },
        Family::Label4x => {
            if j >= 8 {
                assert(t.skip(8) =~= s.skip(8).take(j - 8));
                lemma_pascal_prefix(s.skip(8), s[1], j - 8);
            }
        },
        Family::Directive6x => {
            if j >= 14 {
                assert(t.skip(14) =~= s.skip(14).take(j - 14));
                lemma_pascal_prefix(s.skip(14), s[1], j - 14);
            }
        },
    }
}

/// `n` records that decode cleanly take a run of bytes from the front:
/// cut short inside it, they fail for want of input; cut after it, they
/// read the same.
pub proof fn lemma_records_prefix(f: Family, s: Seq<u8>, n: nat, j: int)
    requires
        0 <= j <= s.len(),
        records_spec(f, s, n).outcome is Ok,
    ensures
        ({
            let t = records_spec(f, s, n);
            let c = s.len() - t.rest.len();
            &&& 0 <= c
            &&& t.rest == s.skip(c)
            &&& j < c ==> records_spec(f, s.take(j), n).outcome == Err::<(), DecodeError>(
                DecodeError::UnexpectedEndOfInput,
            )
            &&& j >= c ==> records_spec(f, s.take(j), n) == (Trace {
                lines: t.lines,
                outcome: Ok(()),
                rest: t.rest.take(j - c),
            })
        }),
    decreases n,
{
    if n == 0 {
        assert(s.skip(0) =~= s);
        assert(s.take(j) =~= s.take(j).take(j));
    } else {
        let p = parse_line(f, s);
        let k = p.1 as int;
        lemma_line_prefix(f, s, j);
        lemma_line_prefix(f, s, k);
        let s1 = s.skip(k);
        let t1 = records_spec(f, s1, (n - 1) as nat);
        if j >= k {
            lemma_records_prefix(f, s1, (n - 1) as nat, j - k);
            assert(s.take(j).skip(k) =~= s1.take(j - k));
        } else {
            lemma_records_prefix(f, s1, (n - 1) as nat, 0);
        }
        assert(s1.skip(s1.len() - t1.rest.len()) =~= s.skip(s.len() - t1.rest.len()));
    }
}

/// A section that decodes cleanly takes a run of bytes from the front: cut
/// short inside it, it fails for want of input; cut after it, it reads the
/// same.
pub proof fn lemma_section_prefix(f: Family, s: Seq<u8>, j: int)
    requires
        0 <= j <= s.len(),
        section_spec(f, s).outcome is Ok,
    ensures
        ({
            let t = section_spec(f, s);
            let c = s.len() - t.rest.len();
            &&& 0 <= c
            &&& t.rest == s.skip(c)
            &&& j < c ==> section_spec(f, s.take(j)).outcome == Err::<(), DecodeError>(
                DecodeError::UnexpectedEndOfInput,
            )
            &&& j >= c ==> section_spec(f, s.take(j)) == (Trace {
                lines: t.lines,
                outcome: Ok(()),
                rest: t.rest.take(j - c),
            })
        }),
{
    let n = le16(s);
    let body = s.skip(2);
    let jj = if j >= 2 { j - 2 } else { 0 };
    lemma_records_prefix(f, body, n, jj);
    let t = records_spec(f, body, n);
    assert(body.skip(body.len() - t.rest.len()) =~= s.skip(s.len() - t.rest.len()));
    if j >= 2 {
        assert(s.take(j).skip(2) =~= body.take(j - 2));
    }
}

/// Where `a` ended well and `a2` is the same trace with its unread bytes
/// cut to their first `m`, going on with a section keeps that relation, or
/// fails for want of input where the cut falls inside the section.
proof fn lemma_then_prefix(a: Trace, f: Family, m: int)
    requires
        a.outcome is Ok,
        0 <= m <= a.rest.len(),
        then_section(a, f).outcome is Ok,
    ensures
        ({
            let a2 = Trace { lines: a.lines, outcome: Ok(()), rest: a.rest.take(m) };
            let b = then_section(a, f);
            let c = a.rest.len() - b.rest.len();
            &&& 0 <= c
            &&& m < c ==> then_section(a2, f).outcome == Err::<(), DecodeError>(
                DecodeError::UnexpectedEndOfInput,
            )
            &&& m >= c ==> then_section(a2, f) == (Trace {
                lines: b.lines,
                outcome: Ok(()),
                rest: b.rest.take(m - c),
            })
        }),
{
    lemma_section_prefix(f, a.rest, m);
}

/// A file that decodes cleanly, cut short anywhere before the end of its
/// last record, fails for want of input: never a decode of bytes that are
/// not there.
pub proof fn lemma_truncated_file(s: Seq<u8>, j: int)
    requires
        decode_spec(s).outcome is Ok,
        0 <= j < s.len() - decode_spec(s).rest.len(),
    ensures
        decode_spec(s.take(j)).outcome == Err::<(), DecodeError>(DecodeError::UnexpectedEndOfInput),
{
    if j >= 2 {
        let head = Trace { lines: seq![file_banner(le16(s))], outcome: Ok(()), rest: s.skip(2) };
        let t1 = then_section(head, Family::Data2x);
        let t2 = then_section(t1, Family::Label4x);
        let t3 = then_section(t2, Family::Directive6x);
        let u = s.take(j);
        assert(u.skip(2) =~= s.skip(2).take(j - 2));
        let m1 = j - 2;
        lemma_then_prefix(head, Family::Data2x, m1);
        let c1 = head.rest.len() - t1.rest.len();
        if m1 >= c1 {
            let m2 = m1 - c1;
            lemma_then_prefix(t1, Family::Label4x, m2);
            let c2 = t1.rest.len() - t2.rest.len();
            if m2 >= c2 {
                lemma_then_prefix(t2, Family::Directive6x, m2 - c2);
            }
        }
    }
}

} // verus!
